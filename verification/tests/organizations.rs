use quittance::accounts::{build_user, UserDirectory};
use quittance::error::AppError;
use quittance::ids::Id;
use quittance::models::organization::{
    AddOrganizationMember, CreateOrganization, Organization, OrganizationMember,
    UpdateOrganization,
};
use quittance::models::property::Owner;
use quittance::models::user::RegisterRequest;
use quittance::listing::outranks_share;
use quittance::organizations::MembershipManager;
use quittance::ownership::{authorize, member_of, Access};

const SALT: &str = "c29tZXNhbHRzb21lc2FsdA";

fn fields(name: &str) -> CreateOrganization {
    CreateOrganization {
        name: name.to_string(),
        legal_form: "SCI".to_string(),
        siret: Some("123 456 789 00012".to_string()),
        address: "2 place Bellecour".to_string(),
        phone: None,
        email: Some("sci@example.com".to_string()),
    }
}

fn member(user: u128, role: &str, share: Option<i64>) -> AddOrganizationMember {
    AddOrganizationMember { user_id: Id(user), role: role.to_string(), share_percentage: share }
}

fn users(entries: &[(u128, &str, &str)]) -> UserDirectory {
    let mut directory = UserDirectory::new();
    for (id, name, email) in entries {
        let request = RegisterRequest {
            email: email.to_string(),
            password: "password1".to_string(),
            name: name.to_string(),
            address: String::new(),
            phone: None,
            birth_date: None,
            birth_place: None,
        };
        let user = build_user(Id(*id), request, email.to_string(), false, SALT, 0).unwrap();
        directory.insert(user).unwrap();
    }
    directory
}

#[test]
fn founder_is_at_once_a_member_with_the_role_owner() {
    let mut manager = MembershipManager::new();
    let a = Id(0xa);
    let org = manager.create_with_owner(Id(1), Id(100), fields("SCI Foo"), a, 42).unwrap();
    assert_eq!(org.id, Id(1));
    assert_eq!(org.name, "SCI Foo");
    assert_eq!(org.legal_form, "SCI");
    assert_eq!(org.siret.as_deref(), Some("123 456 789 00012"));
    assert_eq!(org.created_at, 42);
    assert_eq!(org.updated_at, 42);
    assert_eq!(manager.organizations().len(), 1);
    assert_eq!(manager.members().len(), 1);
    let founding = &manager.members()[0];
    assert_eq!(founding.id, Id(100));
    assert_eq!(founding.organization_id, Id(1));
    assert_eq!(founding.user_id, a);
    assert_eq!(founding.role, "owner");
    assert_eq!(founding.share_percentage, None);
    assert_eq!(founding.joined_at, 42);
    assert!(member_of(manager.members(), Id(1), a));
    assert_eq!(authorize(manager.members(), a, Owner::Organization(Id(1))), Access::Grant);
}

#[test]
fn failed_membership_leaves_no_organization_behind() {
    let mut manager = MembershipManager::new();
    manager.create_with_owner(Id(1), Id(100), fields("SCI Foo"), Id(0xa), 1).unwrap();
    // the organization is new, the membership's identifier is taken:
    // the first insert succeeds, the second fails
    let r = manager.create_with_owner(Id(2), Id(100), fields("SCI Bar"), Id(0xb), 2);
    assert!(matches!(r, Err(AppError::Database)));
    assert_eq!(manager.organizations().len(), 1);
    assert_eq!(manager.organizations()[0].name, "SCI Foo");
    assert_eq!(manager.members().len(), 1);
    assert!(manager.find_organization(Id(2)).is_err());
    assert!(!member_of(manager.members(), Id(2), Id(0xb)));
}

#[test]
fn failed_organization_leaves_no_membership_behind() {
    let mut manager = MembershipManager::new();
    manager.create_with_owner(Id(1), Id(100), fields("SCI Foo"), Id(0xa), 1).unwrap();
    let r = manager.create_with_owner(Id(1), Id(101), fields("SCI Foo 2"), Id(0xb), 2);
    assert!(matches!(r, Err(AppError::Database)));
    assert_eq!(manager.organizations().len(), 1);
    assert_eq!(manager.members().len(), 1);
    assert!(manager.position_of_membership(Id(101)).is_none());
}

#[test]
fn same_identity_may_be_added_twice() {
    let mut manager = MembershipManager::new();
    manager.create_with_owner(Id(1), Id(100), fields("SCI Foo"), Id(0xa), 1).unwrap();
    let first = manager.add_member(Id(1), Id(101), member(0xb, "partner", Some(2500)), 5).unwrap();
    let second = manager.add_member(Id(1), Id(102), member(0xb, "partner", Some(2500)), 6).unwrap();
    assert_eq!(first.user_id, second.user_id);
    assert_eq!(first.organization_id, Id(1));
    assert_eq!(first.role, "partner");
    assert_eq!(first.share_percentage, Some(2500));
    assert_eq!(first.joined_at, 5);
    assert_eq!(manager.members().len(), 3);
    assert!(member_of(manager.members(), Id(1), Id(0xb)));
}

#[test]
fn membership_needs_its_organization_and_a_fresh_identifier() {
    let mut manager = MembershipManager::new();
    manager.create_with_owner(Id(1), Id(100), fields("SCI Foo"), Id(0xa), 1).unwrap();
    assert!(matches!(
        manager.add_member(Id(9), Id(101), member(0xb, "partner", None), 5),
        Err(AppError::Database)
    ));
    assert!(matches!(
        manager.add_member(Id(1), Id(100), member(0xb, "partner", None), 5),
        Err(AppError::Database)
    ));
    assert_eq!(manager.members().len(), 1);
}

#[test]
fn removal_takes_exactly_the_membership_named() {
    let mut manager = MembershipManager::new();
    manager.create_with_owner(Id(1), Id(100), fields("SCI Foo"), Id(0xa), 1).unwrap();
    manager.create_with_owner(Id(2), Id(200), fields("SCI Bar"), Id(0xa), 1).unwrap();
    manager.add_member(Id(1), Id(101), member(0xb, "partner", None), 5).unwrap();
    assert!(manager.remove_member(Id(1), Id(101)).is_ok());
    assert_eq!(manager.members().len(), 2);
    assert!(!member_of(manager.members(), Id(1), Id(0xb)));
    assert!(member_of(manager.members(), Id(1), Id(0xa)));
    assert!(member_of(manager.members(), Id(2), Id(0xa)));
}

#[test]
fn removal_of_what_is_not_there_is_not_found() {
    let mut manager = MembershipManager::new();
    manager.create_with_owner(Id(1), Id(100), fields("SCI Foo"), Id(0xa), 1).unwrap();
    manager.create_with_owner(Id(2), Id(200), fields("SCI Bar"), Id(0xb), 1).unwrap();
    // no such membership
    match manager.remove_member(Id(1), Id(999)) {
        Err(AppError::NotFound(m)) => assert_eq!(m, "Organization member not found"),
        other => panic!("unexpected: {:?}", other),
    }
    // the membership is another organization's
    match manager.remove_member(Id(1), Id(200)) {
        Err(AppError::NotFound(m)) => assert_eq!(m, "Organization member not found"),
        other => panic!("unexpected: {:?}", other),
    }
    // a second removal finds nothing
    assert!(manager.remove_member(Id(1), Id(100)).is_ok());
    assert!(matches!(manager.remove_member(Id(1), Id(100)), Err(AppError::NotFound(_))));
    assert_eq!(manager.members().len(), 1);
}

#[test]
fn organization_outlives_its_last_member() {
    let mut manager = MembershipManager::new();
    manager.create_with_owner(Id(1), Id(100), fields("SCI Foo"), Id(0xa), 1).unwrap();
    manager.remove_member(Id(1), Id(100)).unwrap();
    assert_eq!(manager.find_organization(Id(1)).unwrap().name, "SCI Foo");
    assert_eq!(authorize(manager.members(), Id(0xa), Owner::Organization(Id(1))), Access::Deny);
}

#[test]
fn members_are_listed_by_descending_share_with_the_shareless_last() {
    let directory = users(&[
        (0xa, "Ada", "ada@example.com"),
        (0xb, "Bob", "bob@example.com"),
        (0xc, "Cyd", "cyd@example.com"),
        (0xd, "Dee", "dee@example.com"),
    ]);
    let mut manager = MembershipManager::new();
    manager.create_with_owner(Id(1), Id(100), fields("SCI Foo"), Id(0xa), 1).unwrap();
    manager.create_with_owner(Id(2), Id(200), fields("SCI Bar"), Id(0xd), 1).unwrap();
    manager.add_member(Id(1), Id(101), member(0xb, "partner", Some(2500)), 2).unwrap();
    manager.add_member(Id(1), Id(102), member(0xc, "partner", Some(5000)), 3).unwrap();
    manager.add_member(Id(1), Id(103), member(0xd, "partner", Some(2500)), 4).unwrap();
    manager.add_member(Id(1), Id(104), member(0xb, "auditor", None), 5).unwrap();
    manager.add_member(Id(1), Id(105), member(0xee, "ghost", Some(9000)), 6).unwrap();

    let rows = manager.list_members(&directory, Id(1));
    let ids: Vec<Id> = rows.iter().map(|r| r.id).collect();
    assert_eq!(ids, vec![Id(102), Id(101), Id(103), Id(100), Id(104)]);
    assert_eq!(rows[0].user_name, "Cyd");
    assert_eq!(rows[0].user_email, "cyd@example.com");
    assert_eq!(rows[0].share_percentage, Some(5000));
    assert_eq!(rows[0].role, "partner");
    assert_eq!(rows[0].user_id, Id(0xc));
    assert_eq!(rows[3].role, "owner");
    assert_eq!(rows[3].user_name, "Ada");
    assert_eq!(rows[4].role, "auditor");

    let other = manager.list_members(&directory, Id(2));
    assert_eq!(other.len(), 1);
    assert_eq!(other[0].user_name, "Dee");
    assert!(manager.list_members(&directory, Id(3)).is_empty());
}

#[test]
fn shares_rank_larger_first_and_none_last() {
    assert!(outranks_share(Some(2), Some(1)));
    assert!(outranks_share(Some(1), Some(1)));
    assert!(!outranks_share(Some(1), Some(2)));
    assert!(outranks_share(Some(i64::MIN), None));
    assert!(!outranks_share(None, Some(i64::MIN)));
    assert!(outranks_share(None, None));
}

#[test]
fn organization_is_fetched_with_its_members() {
    let directory = users(&[(0xa, "Ada", "ada@example.com")]);
    let mut manager = MembershipManager::new();
    manager.create_with_owner(Id(1), Id(100), fields("SCI Foo"), Id(0xa), 1).unwrap();
    let found = manager.get_organization(&directory, Id(1)).unwrap();
    assert_eq!(found.organization.name, "SCI Foo");
    assert_eq!(found.members.len(), 1);
    assert_eq!(found.members[0].user_email, "ada@example.com");
    match manager.get_organization(&directory, Id(2)) {
        Err(AppError::NotFound(m)) => assert_eq!(m, "Organization not found"),
        other => panic!("unexpected: {:?}", other.map(|o| o.organization.id)),
    }
}

#[test]
fn update_changes_the_fields_named_and_no_others() {
    let mut manager = MembershipManager::new();
    manager.create_with_owner(Id(1), Id(100), fields("SCI Foo"), Id(0xa), 1).unwrap();
    let changes = UpdateOrganization {
        name: Some("SCI Foo & Fils".to_string()),
        legal_form: None,
        siret: None,
        address: None,
        phone: Some("0102030405".to_string()),
        email: None,
    };
    let updated = manager.update_organization(Id(1), changes, 77).unwrap();
    assert_eq!(updated.name, "SCI Foo & Fils");
    assert_eq!(updated.legal_form, "SCI");
    assert_eq!(updated.siret.as_deref(), Some("123 456 789 00012"));
    assert_eq!(updated.address, "2 place Bellecour");
    assert_eq!(updated.phone.as_deref(), Some("0102030405"));
    assert_eq!(updated.email.as_deref(), Some("sci@example.com"));
    assert_eq!(updated.created_at, 1);
    assert_eq!(updated.updated_at, 77);
    assert_eq!(manager.find_organization(Id(1)).unwrap().name, "SCI Foo & Fils");
    assert_eq!(manager.members().len(), 1);
    let nothing = UpdateOrganization {
        name: None,
        legal_form: None,
        siret: None,
        address: None,
        phone: None,
        email: None,
    };
    assert!(matches!(manager.update_organization(Id(5), nothing, 78), Err(AppError::NotFound(_))));
}

#[test]
fn deletion_takes_the_memberships_along() {
    let mut manager = MembershipManager::new();
    manager.create_with_owner(Id(1), Id(100), fields("SCI Foo"), Id(0xa), 1).unwrap();
    manager.create_with_owner(Id(2), Id(200), fields("SCI Bar"), Id(0xb), 1).unwrap();
    manager.add_member(Id(1), Id(101), member(0xb, "partner", None), 2).unwrap();
    manager.add_member(Id(2), Id(201), member(0xa, "partner", None), 2).unwrap();
    assert!(manager.delete_organization(Id(1)).is_ok());
    assert_eq!(manager.organizations().len(), 1);
    assert_eq!(manager.organizations()[0].id, Id(2));
    let left: Vec<Id> = manager.members().iter().map(|m| m.id).collect();
    assert_eq!(left, vec![Id(200), Id(201)]);
    assert_eq!(authorize(manager.members(), Id(0xa), Owner::Organization(Id(1))), Access::Deny);
    assert_eq!(authorize(manager.members(), Id(0xa), Owner::Organization(Id(2))), Access::Grant);
    match manager.delete_organization(Id(1)) {
        Err(AppError::NotFound(m)) => assert_eq!(m, "Organization not found"),
        other => panic!("unexpected: {:?}", other),
    }
}

fn stored_organization(id: u128) -> Organization {
    Organization {
        id: Id(id),
        name: format!("SCI {}", id),
        legal_form: "SCI".to_string(),
        siret: None,
        address: String::new(),
        phone: None,
        email: None,
        created_at: 0,
        updated_at: 0,
    }
}

fn stored_member(id: u128, organization: u128, user: u128) -> OrganizationMember {
    OrganizationMember {
        id: Id(id),
        organization_id: Id(organization),
        user_id: Id(user),
        role: "partner".to_string(),
        share_percentage: None,
        joined_at: 0,
    }
}

#[test]
fn manager_is_restored_from_rows_that_go_together() {
    let manager = MembershipManager::restore(
        vec![stored_organization(1), stored_organization(2)],
        vec![stored_member(10, 1, 0xa), stored_member(11, 2, 0xa), stored_member(12, 1, 0xa)],
    )
    .unwrap();
    assert_eq!(manager.organizations().len(), 2);
    assert_eq!(manager.members().len(), 3);
    assert!(member_of(manager.members(), Id(2), Id(0xa)));
    assert!(MembershipManager::restore(Vec::new(), Vec::new()).is_some());
}

#[test]
fn manager_is_not_restored_from_rows_that_do_not_go_together() {
    // two organizations with one identifier
    assert!(MembershipManager::restore(
        vec![stored_organization(1), stored_organization(1)],
        Vec::new()
    )
    .is_none());
    // two memberships with one identifier
    assert!(MembershipManager::restore(
        vec![stored_organization(1)],
        vec![stored_member(10, 1, 0xa), stored_member(10, 1, 0xb)]
    )
    .is_none());
    // a membership without its organization
    assert!(MembershipManager::restore(
        vec![stored_organization(1)],
        vec![stored_member(10, 2, 0xa)]
    )
    .is_none());
}
