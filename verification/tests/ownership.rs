use quittance::error::{AppError, AuthFailure, ErrorKind};
use quittance::identity::{generate_token, generate_token_at, RequestMetadata};
use quittance::ids::Id;
use quittance::models::organization::OrganizationMember;
use quittance::models::property::{Owner, Property};
use quittance::ownership::{
    authorize, member_of, resolve_caller, resolve_request, resolve_request_at,
    visible_properties, Access,
};
use quittance::token::TokenService;

fn membership(id: u128, organization: u128, user: u128, role: &str, share: Option<i64>) -> OrganizationMember {
    OrganizationMember {
        id: Id(id),
        organization_id: Id(organization),
        user_id: Id(user),
        role: role.to_string(),
        share_percentage: share,
        joined_at: 0,
    }
}

fn property(id: u128, owner: Owner) -> Property {
    Property {
        id: Id(id),
        owner,
        address: format!("{} rue Haute", id),
        property_type: "apartment".to_string(),
        furnished: false,
        surface_area: Some("42.50".to_string()),
        rooms: Some(2),
        max_occupants: 3,
        description: None,
        created_at: Some(0),
        updated_at: Some(0),
    }
}

#[test]
fn direct_owner_is_granted_and_a_stranger_denied() {
    let members = vec![membership(1, 50, 0xc, "owner", None)];
    let a = Id(0xa);
    let b = Id(0xb);
    assert_eq!(authorize(&members, a, Owner::Direct(a)), Access::Grant);
    assert_eq!(authorize(&members, b, Owner::Direct(a)), Access::Deny);
    assert_eq!(authorize(&members, b, Owner::Organization(Id(50))), Access::Deny);
    assert_eq!(authorize(&Vec::new(), a, Owner::Direct(a)), Access::Grant);
}

#[test]
fn denial_is_reported_as_not_found() {
    let denied = Access::Deny.or_not_found("Property with id x not found".to_string());
    match denied {
        Err(e) => {
            assert_eq!(e.kind(), ErrorKind::NotFound);
            assert_eq!(e.status_code(), 404);
            assert_eq!(e.message(), "Property with id x not found");
            assert!(matches!(e, AppError::NotFound(_)));
        }
        Ok(()) => panic!("a denial passed"),
    }
    assert!(Access::Grant.or_not_found("unused".to_string()).is_ok());
}

#[test]
fn member_of_the_owning_organization_is_granted_whatever_role_and_share() {
    let members = vec![
        membership(1, 50, 0xc, "owner", None),
        membership(2, 50, 0xd, "observer", Some(0)),
        membership(3, 50, 0xe, "", Some(-100)),
        membership(4, 51, 0xf, "owner", Some(10_000)),
    ];
    for user in [0xc, 0xd, 0xe] {
        assert_eq!(authorize(&members, Id(user), Owner::Organization(Id(50))), Access::Grant);
        assert_eq!(authorize(&members, Id(user), Owner::Organization(Id(51))), Access::Deny);
    }
    assert_eq!(authorize(&members, Id(0xf), Owner::Organization(Id(50))), Access::Deny);
    assert_eq!(authorize(&members, Id(0xf), Owner::Organization(Id(51))), Access::Grant);
}

#[test]
fn membership_gives_no_access_to_what_a_fellow_member_owns_directly() {
    let members = vec![membership(1, 50, 0xc, "owner", None), membership(2, 50, 0xd, "owner", None)];
    assert_eq!(authorize(&members, Id(0xc), Owner::Direct(Id(0xd))), Access::Deny);
}

#[test]
fn identifier_of_an_identity_is_no_identifier_of_an_organization() {
    // the same number names an identity and an organization
    let members = vec![membership(1, 7, 0xc, "owner", None)];
    assert_eq!(authorize(&members, Id(7), Owner::Organization(Id(7))), Access::Deny);
    assert_eq!(authorize(&members, Id(7), Owner::Direct(Id(7))), Access::Grant);
}

#[test]
fn member_of_looks_at_organization_and_identity_together() {
    let members = vec![membership(1, 50, 0xc, "owner", None), membership(2, 51, 0xd, "owner", None)];
    assert!(member_of(&members, Id(50), Id(0xc)));
    assert!(member_of(&members, Id(51), Id(0xd)));
    assert!(!member_of(&members, Id(50), Id(0xd)));
    assert!(!member_of(&members, Id(51), Id(0xc)));
    assert!(!member_of(&Vec::new(), Id(50), Id(0xc)));
}

#[test]
fn owner_is_the_organization_named_or_else_the_caller() {
    assert_eq!(Owner::assign(Id(1), None), Owner::Direct(Id(1)));
    assert_eq!(Owner::assign(Id(1), Some(Id(9))), Owner::Organization(Id(9)));
}

#[test]
fn owner_fields_are_never_both_set() {
    for owner in [Owner::Direct(Id(1)), Owner::Organization(Id(2))] {
        assert_ne!(owner.user_id().is_some(), owner.organization_id().is_some());
        assert_eq!(Owner::from_fields(owner.user_id(), owner.organization_id()), Some(owner));
    }
    assert_eq!(Owner::Direct(Id(1)).user_id(), Some(Id(1)));
    assert_eq!(Owner::Direct(Id(1)).organization_id(), None);
    assert_eq!(Owner::Organization(Id(2)).user_id(), None);
    assert_eq!(Owner::Organization(Id(2)).organization_id(), Some(Id(2)));
}

#[test]
fn stored_fields_with_both_or_neither_set_are_no_owner() {
    assert_eq!(Owner::from_fields(Some(Id(1)), Some(Id(2))), None);
    assert_eq!(Owner::from_fields(None, None), None);
    assert_eq!(Owner::from_fields(Some(Id(1)), None), Some(Owner::Direct(Id(1))));
    assert_eq!(Owner::from_fields(None, Some(Id(2))), Some(Owner::Organization(Id(2))));
}

#[test]
fn listing_is_the_union_of_both_paths_with_each_identifier_once() {
    let me = Id(0xa);
    let members = vec![
        membership(1, 50, 0xa, "owner", None),
        membership(2, 50, 0xa, "partner", Some(10)),
        membership(3, 51, 0xb, "owner", None),
    ];
    let properties = vec![
        property(1, Owner::Direct(me)),
        property(2, Owner::Direct(Id(0xb))),
        property(3, Owner::Organization(Id(50))),
        property(4, Owner::Organization(Id(51))),
        property(3, Owner::Organization(Id(50))),
        property(5, Owner::Direct(me)),
        property(1, Owner::Organization(Id(50))),
    ];
    let listed: Vec<Id> = visible_properties(&properties, &members, me).iter().map(|p| p.id).collect();
    assert_eq!(listed, vec![Id(1), Id(3), Id(5)]);
    let other: Vec<Id> =
        visible_properties(&properties, &members, Id(0xb)).iter().map(|p| p.id).collect();
    assert_eq!(other, vec![Id(2), Id(4)]);
    assert!(visible_properties(&properties, &members, Id(0xd)).is_empty());
    assert!(visible_properties(&Vec::new(), &members, me).is_empty());
}

#[test]
fn listing_keeps_the_first_property_of_an_identifier_that_is_visible() {
    let me = Id(0xa);
    let properties = vec![
        property(1, Owner::Direct(Id(0xb))),
        property(1, Owner::Direct(me)),
    ];
    let listed = visible_properties(&properties, &Vec::new(), me);
    assert_eq!(listed.len(), 1);
    assert_eq!(listed[0].owner, Owner::Direct(me));
    assert_eq!(listed[0].address, "1 rue Haute");
}

fn carrying(tokens: &TokenService, id: Id) -> RequestMetadata {
    let token = generate_token(tokens, &id).unwrap();
    RequestMetadata { authorization: Some(format!("Bearer {}", token)) }
}

#[test]
fn request_passes_for_a_caller_with_access_only() {
    let tokens = TokenService::new(b"secret".to_vec());
    let members = vec![membership(1, 50, 0xc, "owner", None)];
    let message = || "Property with id x not found".to_string();

    let owner = carrying(&tokens, Id(0xa));
    assert!(matches!(
        resolve_request(&tokens, &owner, &members, Owner::Direct(Id(0xa)), message()),
        Ok(id) if id == Id(0xa)
    ));
    let member = carrying(&tokens, Id(0xc));
    assert!(matches!(
        resolve_request(&tokens, &member, &members, Owner::Organization(Id(50)), message()),
        Ok(id) if id == Id(0xc)
    ));
    match resolve_request(&tokens, &member, &members, Owner::Direct(Id(0xa)), message()) {
        Err(AppError::NotFound(m)) => assert_eq!(m, "Property with id x not found"),
        other => panic!("unexpected: {:?}", other),
    }
    match resolve_request(&tokens, &owner, &members, Owner::Organization(Id(50)), message()) {
        Err(AppError::NotFound(m)) => assert_eq!(m, "Property with id x not found"),
        other => panic!("unexpected: {:?}", other),
    }
}

#[test]
fn request_without_a_sound_credential_does_not_pass_whoever_owns() {
    let tokens = TokenService::new(b"secret".to_vec());
    let members = Vec::new();
    let nobody = RequestMetadata { authorization: None };
    match resolve_request(&tokens, &nobody, &members, Owner::Direct(Id(0xa)), String::new()) {
        Err(AppError::Auth(m)) => assert_eq!(m, "Missing or invalid authorization header"),
        other => panic!("unexpected: {:?}", other),
    }
    let expired = RequestMetadata {
        authorization: Some(format!(
            "Bearer {}",
            generate_token_at(&tokens, &Id(0xa), 1_000).unwrap()
        )),
    };
    match resolve_request(&tokens, &expired, &members, Owner::Direct(Id(0xa)), String::new()) {
        Err(AppError::Auth(m)) => assert_eq!(m, "Invalid token"),
        other => panic!("unexpected: {:?}", other),
    }
    assert!(matches!(
        resolve_request_at(&tokens, &expired, &members, Owner::Direct(Id(0xa)), String::new(), 1_000),
        Ok(id) if id == Id(0xa)
    ));
    match resolve_request_at(&tokens, &expired, &members, Owner::Direct(Id(0xb)), "gone".to_string(), 1_000) {
        Err(AppError::NotFound(m)) => assert_eq!(m, "gone"),
        other => panic!("unexpected: {:?}", other),
    }
}

#[test]
fn identified_caller_passes_or_is_told_not_found() {
    let members = vec![membership(1, 50, 0xc, "owner", None)];
    assert!(matches!(
        resolve_caller(Ok(Id(0xc)), &members, Owner::Organization(Id(50)), String::new()),
        Ok(id) if id == Id(0xc)
    ));
    assert!(matches!(
        resolve_caller(Ok(Id(0xd)), &members, Owner::Organization(Id(50)), "no".to_string()),
        Err(AppError::NotFound(m)) if m == "no"
    ));
    for failure in [
        AuthFailure::MissingOrInvalidCredential,
        AuthFailure::InvalidToken,
        AuthFailure::InvalidCredential,
    ] {
        match resolve_caller(Err(failure), &members, Owner::Direct(Id(1)), String::new()) {
            Err(e) => assert_eq!(e.status_code(), 401),
            Ok(_) => panic!("passed without a caller"),
        }
    }
}
