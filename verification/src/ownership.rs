//! Ownership resolver: who may act on which resource.
//!
//! A resource belongs to one identity or to one organization. An identity may
//! act on it if and only if it owns the resource directly or is a member, in
//! whatever role and with whatever share, of the organization that owns it.
//! A denial is reported as "not found", so that an identity without access
//! cannot learn that the resource exists.

use crate::error::{AppError, AuthFailure};
use crate::identity::{extract, extract_at, spec_extract_at, RequestMetadata};
use crate::ids::Id;
use crate::models::organization::OrganizationMember;
use crate::models::property::{Owner, Property};
use crate::token::TokenService;
use vstd::prelude::*;

verus! {

/// The resolver's answer.
#[derive(Clone, Copy, Debug, PartialEq, Eq, Structural)]
pub enum Access {
    Grant,
    Deny,
}

/// Whether `identity` has a membership of `organization` among `members`.
pub open spec fn is_member(
    members: Seq<OrganizationMember>,
    organization: Id,
    identity: Id,
) -> bool {
    exists|i: int|
        0 <= i < members.len() && (#[trigger] members[i]).organization_id == organization
            && members[i].user_id == identity
}

/// The access rule.
pub open spec fn may_access(members: Seq<OrganizationMember>, identity: Id, owner: Owner) -> bool {
    match owner {
        Owner::Direct(user) => user == identity,
        Owner::Organization(organization) => is_member(members, organization, identity),
    }
}

/// Whether `identity` has a membership of `organization` among `members`.
pub fn member_of(members: &Vec<OrganizationMember>, organization: Id, identity: Id) -> (found: bool)
    ensures
        found == is_member(members@, organization, identity),
{
    let mut i: usize = 0;
    while i < members.len()
        invariant
            i <= members.len(),
            forall|j: int|
                0 <= j < i ==> !((#[trigger] members@[j]).organization_id == organization
                    && members@[j].user_id == identity),
        decreases members.len() - i,
    {
        if members[i].organization_id == organization && members[i].user_id == identity {
            return true;
        }
        i = i + 1;
    }
    false
}

/// Decides whether `identity` may act on a resource of `owner`.
pub fn authorize(members: &Vec<OrganizationMember>, identity: Id, owner: Owner) -> (access: Access)
    ensures
        access == Access::Grant <==> may_access(members@, identity, owner),
        access == Access::Deny <==> !may_access(members@, identity, owner),
{
    let granted: bool = match owner {
        Owner::Direct(user) => user == identity,
        Owner::Organization(organization) => member_of(members, organization, identity),
    };
    if granted {
        Access::Grant
    } else {
        Access::Deny
    }
}

impl Access {
    /// Turns a denial into the error the caller is answered with: not found,
    /// with the message given.
    pub fn or_not_found(self, message: String) -> (r: Result<(), AppError>)
        ensures
            self == Access::Grant ==> r is Ok,
            self == Access::Deny ==> r == Err::<(), AppError>(AppError::NotFound(message)),
    {
        match self {
            Access::Grant => Ok(()),
            Access::Deny => Err(AppError::NotFound(message)),
        }
    }
}

/// What a request for a resource of `owner` is answered with, given the
/// outcome of identifying its caller: the authentication error of a caller
/// that cannot be identified, "not found" for one without access, and the
/// caller's identifier for one with it.
pub open spec fn spec_admission(
    caller: Result<Id, AuthFailure>,
    members: Seq<OrganizationMember>,
    owner: Owner,
    message: String,
    r: Result<Id, AppError>,
) -> bool {
    match caller {
        Err(failure) => r matches Err(AppError::Auth(m)) && m@ == failure.spec_message(),
        Ok(id) => if may_access(members, id, owner) {
            r == Ok::<Id, AppError>(id)
        } else {
            r == Err::<Id, AppError>(AppError::NotFound(message))
        },
    }
}

/// Lets an identified caller pass, or not: the first step of every
/// operation on a resource.
pub fn resolve_caller(
    caller: Result<Id, AuthFailure>,
    members: &Vec<OrganizationMember>,
    owner: Owner,
    message: String,
) -> (r: Result<Id, AppError>)
    ensures
        spec_admission(caller, members@, owner, message, r),
{
    match caller {
        Err(failure) => Err(failure.to_app_error()),
        Ok(id) => match authorize(members, id, owner).or_not_found(message) {
            Ok(()) => Ok(id),
            Err(e) => Err(e),
        },
    }
}

/// Identifies the caller of a request as if the clock showed `now`, and
/// lets it pass to a resource of `owner` or not.
pub fn resolve_request_at(
    tokens: &TokenService,
    request: &RequestMetadata,
    members: &Vec<OrganizationMember>,
    owner: Owner,
    message: String,
    now: i64,
) -> (r: Result<Id, AppError>)
    ensures
        spec_admission(
            spec_extract_at(tokens, request.spec_authorization(), now),
            members@,
            owner,
            message,
            r,
        ),
{
    resolve_caller(extract_at(tokens, request, now), members, owner, message)
}

/// Identifies the caller of a request and lets it pass to a resource of
/// `owner` or not.
pub fn resolve_request(
    tokens: &TokenService,
    request: &RequestMetadata,
    members: &Vec<OrganizationMember>,
    owner: Owner,
    message: String,
) -> (r: Result<Id, AppError>)
    ensures
        exists|now: i64|
            spec_admission(
                #[trigger] spec_extract_at(tokens, request.spec_authorization(), now),
                members@,
                owner,
                message,
                r,
            ),
{
    let caller = extract(tokens, request);
    resolve_caller(caller, members, owner, message)
}

impl Owner {
    /// The owning identity, where the resource is owned directly.
    pub open spec fn spec_user_id(&self) -> Option<Id> {
        match self {
            Owner::Direct(user) => Some(*user),
            Owner::Organization(_) => None,
        }
    }

    /// The owning organization, where the resource is owned through one.
    pub open spec fn spec_organization_id(&self) -> Option<Id> {
        match self {
            Owner::Direct(_) => None,
            Owner::Organization(organization) => Some(*organization),
        }
    }

    /// The owner that a pair of stored fields stands for. A pair with both
    /// fields set, or with neither, stands for none.
    pub open spec fn spec_from_fields(user_id: Option<Id>, organization_id: Option<Id>) -> Option<
        Owner,
    > {
        match (user_id, organization_id) {
            (Some(user), None) => Some(Owner::Direct(user)),
            (None, Some(organization)) => Some(Owner::Organization(organization)),
            _ => None,
        }
    }

    /// The owner of a resource that `caller` creates or reassigns: the
    /// organization named in the request, or else the caller.
    pub open spec fn spec_assign(caller: Id, organization_id: Option<Id>) -> Owner {
        match organization_id {
            Some(organization) => Owner::Organization(organization),
            None => Owner::Direct(caller),
        }
    }

    #[verifier::when_used_as_spec(spec_user_id)]
    pub fn user_id(&self) -> (r: Option<Id>)
        ensures
            r == self.spec_user_id(),
    {
        match self {
            Owner::Direct(user) => Some(*user),
            Owner::Organization(_) => None,
        }
    }

    #[verifier::when_used_as_spec(spec_organization_id)]
    pub fn organization_id(&self) -> (r: Option<Id>)
        ensures
            r == self.spec_organization_id(),
    {
        match self {
            Owner::Direct(_) => None,
            Owner::Organization(organization) => Some(*organization),
        }
    }

    /// Reads an owner from its two stored fields.
    pub fn from_fields(user_id: Option<Id>, organization_id: Option<Id>) -> (r: Option<Owner>)
        ensures
            r == Owner::spec_from_fields(user_id, organization_id),
    {
        match (user_id, organization_id) {
            (Some(user), None) => Some(Owner::Direct(user)),
            (None, Some(organization)) => Some(Owner::Organization(organization)),
            _ => None,
        }
    }

    /// Assigns the owner of a resource that `caller` creates or reassigns.
    /// Naming an organization clears the direct owner, and the reverse.
    pub fn assign(caller: Id, organization_id: Option<Id>) -> (owner: Owner)
        ensures
            owner == Owner::spec_assign(caller, organization_id),
            owner.spec_organization_id() == organization_id,
            owner.spec_user_id() is Some <==> organization_id is None,
    {
        match organization_id {
            Some(organization) => Owner::Organization(organization),
            None => Owner::Direct(caller),
        }
    }
}

/// Of the two stored owner fields exactly one is set.
pub proof fn owner_fields_exclude_each_other(owner: Owner)
    ensures
        owner.spec_user_id() is Some <==> owner.spec_organization_id() is None,
{
}

/// Writing an owner to its two fields and reading them back gives the owner.
pub proof fn owner_fields_round_trip(owner: Owner)
    ensures
        Owner::spec_from_fields(owner.spec_user_id(), owner.spec_organization_id()) == Some(owner),
{
}

/// An identity may act on what it owns directly, whatever the memberships.
pub proof fn direct_owner_is_granted(members: Seq<OrganizationMember>, identity: Id)
    ensures
        may_access(members, identity, Owner::Direct(identity)),
{
}

/// An identity that neither owns a resource directly nor is a member of the
/// organization that owns it may not act on it.
pub proof fn stranger_is_denied(members: Seq<OrganizationMember>, identity: Id, owner: Owner)
    requires
        owner.spec_user_id() != Some(identity),
        owner matches Owner::Organization(organization) ==> !is_member(
            members,
            organization,
            identity,
        ),
    ensures
        !may_access(members, identity, owner),
{
}

/// A member of an organization may act on what the organization owns,
/// whatever the member's role and share.
pub proof fn member_is_granted(members: Seq<OrganizationMember>, at: int)
    requires
        0 <= at < members.len(),
    ensures
        may_access(members, members[at].user_id, Owner::Organization(members[at].organization_id)),
{
}

/// Access does not depend on roles or shares: two membership lists that agree
/// on who belongs to which organization grant the same.
pub proof fn access_ignores_role_and_share(
    a: Seq<OrganizationMember>,
    b: Seq<OrganizationMember>,
    identity: Id,
    owner: Owner,
)
    requires
        a.len() == b.len(),
        forall|i: int|
            0 <= i < a.len() ==> (#[trigger] a[i]).organization_id == b[i].organization_id
                && a[i].user_id == b[i].user_id,
    ensures
        may_access(a, identity, owner) == may_access(b, identity, owner),
{
    if let Owner::Organization(organization) = owner {
        if is_member(a, organization, identity) {
            let i = choose|i: int|
                0 <= i < a.len() && (#[trigger] a[i]).organization_id == organization
                    && a[i].user_id == identity;
            assert(b[i].organization_id == organization && b[i].user_id == identity);
        }
        if is_member(b, organization, identity) {
            let i = choose|i: int|
                0 <= i < b.len() && (#[trigger] b[i]).organization_id == organization
                    && b[i].user_id == identity;
            assert(a[i].organization_id == organization && a[i].user_id == identity);
        }
    }
}

/// Whether the property at `at` is listed for `identity`: the identity may
/// act on it, and no earlier property that it may act on has the same
/// identifier.
pub open spec fn is_listed(
    properties: Seq<Property>,
    members: Seq<OrganizationMember>,
    identity: Id,
    at: int,
) -> bool {
    &&& may_access(members, identity, properties[at].owner)
    &&& forall|j: int|
        0 <= j < at ==> !(may_access(members, identity, (#[trigger] properties[j]).owner)
            && properties[j].id == properties[at].id)
}

/// The listed ones among the first `upto` properties, in their order.
pub open spec fn spec_visible_among(
    properties: Seq<Property>,
    members: Seq<OrganizationMember>,
    identity: Id,
    upto: int,
) -> Seq<Property>
    decreases upto,
{
    if upto <= 0 {
        Seq::empty()
    } else {
        let earlier = spec_visible_among(properties, members, identity, upto - 1);
        if is_listed(properties, members, identity, upto - 1) {
            earlier.push(properties[upto - 1])
        } else {
            earlier
        }
    }
}

/// The properties that `identity` sees: those it owns directly together with
/// those of its organizations, each identifier once.
pub open spec fn spec_visible(
    properties: Seq<Property>,
    members: Seq<OrganizationMember>,
    identity: Id,
) -> Seq<Property> {
    spec_visible_among(properties, members, identity, properties.len() as int)
}

/// Whether one of the first `upto` properties is one that `identity` may act
/// on and has the identifier `id`.
pub open spec fn seen_before(
    properties: Seq<Property>,
    members: Seq<OrganizationMember>,
    identity: Id,
    id: Id,
    upto: int,
) -> bool {
    exists|j: int|
        0 <= j < upto && may_access(members, identity, (#[trigger] properties[j]).owner)
            && properties[j].id == id
}

/// What holds of the listed ones among the first `upto` properties.
proof fn lemma_visible_among(
    properties: Seq<Property>,
    members: Seq<OrganizationMember>,
    identity: Id,
    upto: int,
)
    requires
        0 <= upto <= properties.len(),
    ensures
        forall|k: int|
            0 <= k < spec_visible_among(properties, members, identity, upto).len() ==> {
                let p = #[trigger] spec_visible_among(properties, members, identity, upto)[k];
                &&& may_access(members, identity, p.owner)
                &&& seen_before(properties, members, identity, p.id, upto)
                &&& exists|j: int| 0 <= j < upto && properties[j] == p
            },
        forall|j: int|
            0 <= j < upto && may_access(members, identity, (#[trigger] properties[j]).owner)
                ==> exists|k: int|
                0 <= k < spec_visible_among(properties, members, identity, upto).len()
                    && (#[trigger] spec_visible_among(properties, members, identity, upto)[k]).id
                    == properties[j].id,
        forall|k: int, m: int|
            0 <= k < m < spec_visible_among(properties, members, identity, upto).len()
                ==> (#[trigger] spec_visible_among(properties, members, identity, upto)[k]).id
                != (#[trigger] spec_visible_among(properties, members, identity, upto)[m]).id,
    decreases upto,
{
    if upto > 0 {
        lemma_visible_among(properties, members, identity, upto - 1);
        let earlier = spec_visible_among(properties, members, identity, upto - 1);
        let now = spec_visible_among(properties, members, identity, upto);
        let last = properties[upto - 1];
        assert forall|k: int| 0 <= k < now.len() implies {
            let p = #[trigger] now[k];
            &&& may_access(members, identity, p.owner)
            &&& seen_before(properties, members, identity, p.id, upto)
            &&& exists|j: int| 0 <= j < upto && properties[j] == p
        } by {
            if k < earlier.len() {
                let p = earlier[k];
                assert(seen_before(properties, members, identity, p.id, upto - 1));
                let j = choose|j: int| 0 <= j < upto - 1 && properties[j] == p;
                assert(properties[j] == now[k]);
            } else {
                assert(properties[upto - 1] == now[k]);
            }
        }
        assert forall|j: int|
            0 <= j < upto && may_access(
                members,
                identity,
                (#[trigger] properties[j]).owner,
            ) implies exists|k: int|
            0 <= k < now.len() && (#[trigger] now[k]).id == properties[j].id by {
            if j < upto - 1 {
                let k = choose|k: int|
                    0 <= k < earlier.len() && (#[trigger] earlier[k]).id == properties[j].id;
                assert(now[k].id == properties[j].id);
            } else if is_listed(properties, members, identity, upto - 1) {
                assert(now[earlier.len() as int].id == properties[j].id);
            } else {
                let i = choose|i: int|
                    0 <= i < upto - 1 && may_access(members, identity, (#[trigger] properties[i]).owner)
                        && properties[i].id == last.id;
                let k = choose|k: int|
                    0 <= k < earlier.len() && (#[trigger] earlier[k]).id == properties[i].id;
                assert(now[k].id == properties[j].id);
            }
        }
        assert forall|k: int, m: int| 0 <= k < m < now.len() implies (#[trigger] now[k]).id != (
        #[trigger] now[m]).id by {
            if m >= earlier.len() {
                assert(seen_before(properties, members, identity, earlier[k].id, upto - 1));
            }
        }
    }
}

/// Every listed property is one of the properties, and one that the identity
/// may act on.
pub proof fn listed_are_accessible(
    properties: Seq<Property>,
    members: Seq<OrganizationMember>,
    identity: Id,
    k: int,
)
    requires
        0 <= k < spec_visible(properties, members, identity).len(),
    ensures
        may_access(members, identity, spec_visible(properties, members, identity)[k].owner),
        properties.contains(spec_visible(properties, members, identity)[k]),
{
    lemma_visible_among(properties, members, identity, properties.len() as int);
    let p = spec_visible(properties, members, identity)[k];
    let j = choose|j: int| 0 <= j < properties.len() && properties[j] == p;
    assert(properties[j] == p);
}

/// Every property that the identity may act on, through either path of
/// ownership, has its identifier in the list.
pub proof fn accessible_are_listed(
    properties: Seq<Property>,
    members: Seq<OrganizationMember>,
    identity: Id,
    j: int,
)
    requires
        0 <= j < properties.len(),
        may_access(members, identity, properties[j].owner),
    ensures
        exists|k: int|
            0 <= k < spec_visible(properties, members, identity).len() && (
            #[trigger] spec_visible(properties, members, identity)[k]).id == properties[j].id,
{
    lemma_visible_among(properties, members, identity, properties.len() as int);
    let all = spec_visible_among(properties, members, identity, properties.len() as int);
    let k = choose|k: int| 0 <= k < all.len() && (#[trigger] all[k]).id == properties[j].id;
    assert(spec_visible(properties, members, identity)[k].id == properties[j].id);
}

/// No identifier is listed twice.
pub proof fn listed_once(
    properties: Seq<Property>,
    members: Seq<OrganizationMember>,
    identity: Id,
    k: int,
    m: int,
)
    requires
        0 <= k < m < spec_visible(properties, members, identity).len(),
    ensures
        spec_visible(properties, members, identity)[k].id != spec_visible(
            properties,
            members,
            identity,
        )[m].id,
{
    lemma_visible_among(properties, members, identity, properties.len() as int);
}

/// Lists the properties that `identity` may act on: those it owns directly
/// and those of its organizations, each identifier once, in the order given.
pub fn visible_properties(
    properties: &Vec<Property>,
    members: &Vec<OrganizationMember>,
    identity: Id,
) -> (listed: Vec<Property>)
    ensures
        listed@ == spec_visible(properties@, members@, identity),
{
    let mut listed: Vec<Property> = Vec::new();
    let mut i: usize = 0;
    while i < properties.len()
        invariant
            i <= properties.len(),
            listed@ == spec_visible_among(properties@, members@, identity, i as int),
        decreases properties.len() - i,
    {
        let candidate = &properties[i];
        if authorize(members, identity, candidate.owner) == Access::Grant {
            let mut k: usize = 0;
            let mut repeated: bool = false;
            while k < listed.len()
                invariant
                    k <= listed.len(),
                    repeated == exists|m: int|
                        0 <= m < k && (#[trigger] listed@[m]).id == candidate.id,
                decreases listed.len() - k,
            {
                if listed[k].id == candidate.id {
                    repeated = true;
                }
                k = k + 1;
            }
            proof {
                lemma_visible_among(properties@, members@, identity, i as int);
                if repeated {
                    let m = choose|m: int|
                        0 <= m < listed@.len() && (#[trigger] listed@[m]).id == candidate.id;
                    assert(seen_before(properties@, members@, identity, listed@[m].id, i as int));
                    assert(!is_listed(properties@, members@, identity, i as int));
                } else {
                    assert(is_listed(properties@, members@, identity, i as int));
                }
            }
            if !repeated {
                listed.push(candidate.clone());
            }
        }
        i = i + 1;
    }
    listed
}

} // verus!
