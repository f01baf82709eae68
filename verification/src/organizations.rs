//! Organization membership manager: organizations and who belongs to them.
//!
//! An organization comes into being together with the membership of its
//! founder, as its owner: either both are stored or neither is. Memberships
//! are added without regard to those that exist, removed one at a time, and
//! all removed with their organization.

use crate::error::AppError;
use crate::ids::Id;
use crate::models::organization::{
    AddOrganizationMember, CreateOrganization, Organization, OrganizationMember,
    UpdateOrganization,
};
use crate::models::property::Owner;
use crate::ownership::{is_member, may_access};
use crate::seqs::{lemma_filter_holds, lemma_filter_keeps_order, lemma_filter_source};
use vstd::prelude::*;

verus! {

/// Whether one of `organizations` has the identifier `id`.
pub open spec fn has_organization(organizations: Seq<Organization>, id: Id) -> bool {
    exists|i: int| 0 <= i < organizations.len() && (#[trigger] organizations[i]).id == id
}

/// Whether one of `members` has the identifier `id`.
pub open spec fn has_membership(members: Seq<OrganizationMember>, id: Id) -> bool {
    exists|i: int| 0 <= i < members.len() && (#[trigger] members[i]).id == id
}

/// Whether the membership at `at` has the identifier `id` and is one of the
/// organization `organization`.
pub open spec fn is_membership_of(
    members: Seq<OrganizationMember>,
    organization: Id,
    id: Id,
    at: int,
) -> bool {
    0 <= at < members.len() && members[at].id == id && members[at].organization_id
        == organization
}

/// The role of a founder.
pub open spec fn owner_role() -> Seq<char> {
    "owner"@
}

/// The organization made of the fields given, created at `now`.
pub open spec fn spec_organization(id: Id, fields: CreateOrganization, now: i64) -> Organization {
    Organization {
        id,
        name: fields.name,
        legal_form: fields.legal_form,
        siret: fields.siret,
        address: fields.address,
        phone: fields.phone,
        email: fields.email,
        created_at: now,
        updated_at: now,
    }
}

/// Whether `member` is the membership of a founder: the role is `owner` and
/// no share is recorded.
pub open spec fn is_founding_membership(
    member: OrganizationMember,
    id: Id,
    organization: Id,
    founder: Id,
    now: i64,
) -> bool {
    &&& member.id == id
    &&& member.organization_id == organization
    &&& member.user_id == founder
    &&& member.role@ == owner_role()
    &&& member.share_percentage is None
    &&& member.joined_at == now
}

/// The membership made of the fields given, joined at `now`.
pub open spec fn spec_membership(
    id: Id,
    organization: Id,
    fields: AddOrganizationMember,
    now: i64,
) -> OrganizationMember {
    OrganizationMember {
        id,
        organization_id: organization,
        user_id: fields.user_id,
        role: fields.role,
        share_percentage: fields.share_percentage,
        joined_at: now,
    }
}

/// One field after a change: the new value where one is given, else the old.
pub open spec fn changed<T>(change: Option<T>, current: T) -> T {
    match change {
        Some(value) => value,
        None => current,
    }
}

/// One optional field after a change: the new value where one is given, else
/// the old.
pub open spec fn changed_optional<T>(change: Option<T>, current: Option<T>) -> Option<T> {
    match change {
        Some(value) => Some(value),
        None => current,
    }
}

/// An organization after a change made at `now`.
pub open spec fn spec_updated(current: Organization, changes: UpdateOrganization, now: i64)
    -> Organization {
    Organization {
        id: current.id,
        name: changed(changes.name, current.name),
        legal_form: changed(changes.legal_form, current.legal_form),
        siret: changed_optional(changes.siret, current.siret),
        address: changed(changes.address, current.address),
        phone: changed_optional(changes.phone, current.phone),
        email: changed_optional(changes.email, current.email),
        created_at: current.created_at,
        updated_at: now,
    }
}

/// The memberships that stay when the organization `organization` goes.
pub open spec fn spec_without_organization(
    members: Seq<OrganizationMember>,
    organization: Id,
) -> Seq<OrganizationMember> {
    members.filter(|m: OrganizationMember| m.organization_id != organization)
}

/// Whether organizations and memberships go together: no two organizations
/// share an identifier, no two memberships do, and every membership is one of
/// an organization among them.
pub open spec fn well_formed(
    organizations: Seq<Organization>,
    members: Seq<OrganizationMember>,
) -> bool {
    &&& forall|i: int, j: int|
        0 <= i < j < organizations.len() ==> (#[trigger] organizations[i]).id != (
        #[trigger] organizations[j]).id
    &&& forall|i: int, j: int|
        0 <= i < j < members.len() ==> (#[trigger] members[i]).id != (#[trigger] members[j]).id
    &&& forall|i: int|
        0 <= i < members.len() ==> has_organization(
            organizations,
            (#[trigger] members[i]).organization_id,
        )
}

/// The organizations and their memberships.
pub struct MembershipManager {
    organizations: Vec<Organization>,
    members: Vec<OrganizationMember>,
}

impl MembershipManager {
    /// The organizations, in the order of their creation.
    pub closed spec fn spec_organizations(&self) -> Seq<Organization> {
        self.organizations@
    }

    /// The memberships, in the order of their creation.
    pub closed spec fn spec_members(&self) -> Seq<OrganizationMember> {
        self.members@
    }

    /// No two organizations share an identifier, no two memberships do, and
    /// every membership is one of an organization that exists.
    pub open spec fn wf(&self) -> bool {
        well_formed(self.spec_organizations(), self.spec_members())
    }

    /// A manager without organizations.
    pub fn new() -> (manager: MembershipManager)
        ensures
            manager.spec_organizations() == Seq::<Organization>::empty(),
            manager.spec_members() == Seq::<OrganizationMember>::empty(),
            manager.wf(),
    {
        MembershipManager { organizations: Vec::new(), members: Vec::new() }
    }

    /// A manager of the organizations and memberships given, if they are
    /// well formed: no two organizations share an identifier, no two
    /// memberships do, and every membership has its organization.
    pub fn restore(organizations: Vec<Organization>, members: Vec<OrganizationMember>) -> (r:
        Option<MembershipManager>)
        ensures
            match r {
                Some(manager) => {
                    &&& manager.spec_organizations() == organizations@
                    &&& manager.spec_members() == members@
                    &&& manager.wf()
                },
                None => !well_formed(organizations@, members@),
            },
    {
        let manager = MembershipManager { organizations, members };
        if manager.organizations_are_distinct() && manager.members_are_distinct()
            && manager.members_are_anchored() {
            Some(manager)
        } else {
            None
        }
    }

    /// Whether no two organizations share an identifier.
    fn organizations_are_distinct(&self) -> (r: bool)
        ensures
            r == forall|i: int, j: int|
                0 <= i < j < self.spec_organizations().len() ==> (
                #[trigger] self.spec_organizations()[i]).id != (
                #[trigger] self.spec_organizations()[j]).id,
    {
        let mut j: usize = 0;
        while j < self.organizations.len()
            invariant
                j <= self.organizations.len(),
                forall|a: int, b: int|
                    0 <= a < b < j ==> (#[trigger] self.organizations@[a]).id != (
                    #[trigger] self.organizations@[b]).id,
            decreases self.organizations.len() - j,
        {
            let mut i: usize = 0;
            while i < j
                invariant
                    i <= j < self.organizations.len(),
                    forall|a: int|
                        0 <= a < i ==> (#[trigger] self.organizations@[a]).id
                            != self.organizations@[j as int].id,
                decreases j - i,
            {
                if self.organizations[i].id == self.organizations[j].id {
                    return false;
                }
                i = i + 1;
            }
            j = j + 1;
        }
        true
    }

    /// Whether no two memberships share an identifier.
    fn members_are_distinct(&self) -> (r: bool)
        ensures
            r == forall|i: int, j: int|
                0 <= i < j < self.spec_members().len() ==> (#[trigger] self.spec_members()[i]).id
                    != (#[trigger] self.spec_members()[j]).id,
    {
        let mut j: usize = 0;
        while j < self.members.len()
            invariant
                j <= self.members.len(),
                forall|a: int, b: int|
                    0 <= a < b < j ==> (#[trigger] self.members@[a]).id != (
                    #[trigger] self.members@[b]).id,
            decreases self.members.len() - j,
        {
            let mut i: usize = 0;
            while i < j
                invariant
                    i <= j < self.members.len(),
                    forall|a: int|
                        0 <= a < i ==> (#[trigger] self.members@[a]).id != self.members@[j as int].id,
                decreases j - i,
            {
                if self.members[i].id == self.members[j].id {
                    return false;
                }
                i = i + 1;
            }
            j = j + 1;
        }
        true
    }

    /// Whether every membership has its organization.
    fn members_are_anchored(&self) -> (r: bool)
        ensures
            r == forall|i: int|
                0 <= i < self.spec_members().len() ==> has_organization(
                    self.spec_organizations(),
                    (#[trigger] self.spec_members()[i]).organization_id,
                ),
    {
        let mut i: usize = 0;
        while i < self.members.len()
            invariant
                i <= self.members.len(),
                forall|k: int|
                    0 <= k < i ==> has_organization(
                        self.organizations@,
                        (#[trigger] self.members@[k]).organization_id,
                    ),
            decreases self.members.len() - i,
        {
            if self.position_of_organization(self.members[i].organization_id).is_none() {
                return false;
            }
            i = i + 1;
        }
        true
    }

    /// The organizations, in the order of their creation.
    pub fn organizations(&self) -> (r: &Vec<Organization>)
        ensures
            r@ == self.spec_organizations(),
    {
        &self.organizations
    }

    /// The memberships, in the order of their creation. The ownership
    /// resolver decides on this list.
    pub fn members(&self) -> (r: &Vec<OrganizationMember>)
        ensures
            r@ == self.spec_members(),
    {
        &self.members
    }

    /// Where the organization `id` stands, if it exists.
    pub fn position_of_organization(&self, id: Id) -> (r: Option<usize>)
        ensures
            match r {
                Some(at) => at < self.spec_organizations().len() && self.spec_organizations()[at as int].id
                    == id,
                None => !has_organization(self.spec_organizations(), id),
            },
    {
        let mut i: usize = 0;
        while i < self.organizations.len()
            invariant
                i <= self.organizations.len(),
                forall|j: int| 0 <= j < i ==> (#[trigger] self.organizations@[j]).id != id,
            decreases self.organizations.len() - i,
        {
            if self.organizations[i].id == id {
                return Some(i);
            }
            i = i + 1;
        }
        None
    }

    /// Where the membership `id` stands, if it exists.
    pub fn position_of_membership(&self, id: Id) -> (r: Option<usize>)
        ensures
            match r {
                Some(at) => at < self.spec_members().len() && self.spec_members()[at as int].id
                    == id,
                None => !has_membership(self.spec_members(), id),
            },
    {
        let mut i: usize = 0;
        while i < self.members.len()
            invariant
                i <= self.members.len(),
                forall|j: int| 0 <= j < i ==> (#[trigger] self.members@[j]).id != id,
            decreases self.members.len() - i,
        {
            if self.members[i].id == id {
                return Some(i);
            }
            i = i + 1;
        }
        None
    }

    /// Stores an organization. The store refuses one whose identifier is
    /// taken, and is then unchanged.
    fn insert_organization(&mut self, organization: Organization) -> (r: Result<(), AppError>)
        requires
            old(self).wf(),
        ensures
            final(self).wf(),
            final(self).spec_members() == old(self).spec_members(),
            match r {
                Ok(()) => !has_organization(old(self).spec_organizations(), organization.id)
                    && final(self).spec_organizations() == old(self).spec_organizations().push(
                    organization,
                ),
                Err(e) => e == AppError::Database && has_organization(
                    old(self).spec_organizations(),
                    organization.id,
                ) && final(self).spec_organizations() == old(self).spec_organizations(),
            },
    {
        if self.position_of_organization(organization.id).is_some() {
            return Err(AppError::Database);
        }
        self.organizations.push(organization);
        proof {
            let before = old(self).spec_organizations();
            let after = self.spec_organizations();
            assert forall|i: int| 0 <= i < self.spec_members().len() implies has_organization(
                after,
                (#[trigger] self.spec_members()[i]).organization_id,
            ) by {
                let k = choose|k: int|
                    0 <= k < before.len() && (#[trigger] before[k]).id
                        == self.spec_members()[i].organization_id;
                assert(after[k].id == self.spec_members()[i].organization_id);
            }
        }
        Ok(())
    }

    /// Stores a membership. The store refuses one whose identifier is taken
    /// or whose organization does not exist, and is then unchanged.
    fn insert_membership(&mut self, member: OrganizationMember) -> (r: Result<(), AppError>)
        requires
            old(self).wf(),
        ensures
            final(self).wf(),
            final(self).spec_organizations() == old(self).spec_organizations(),
            match r {
                Ok(()) => {
                    &&& !has_membership(old(self).spec_members(), member.id)
                    &&& has_organization(old(self).spec_organizations(), member.organization_id)
                    &&& final(self).spec_members() == old(self).spec_members().push(member)
                },
                Err(e) => {
                    &&& e == AppError::Database
                    &&& has_membership(old(self).spec_members(), member.id) || !has_organization(
                        old(self).spec_organizations(),
                        member.organization_id,
                    )
                    &&& final(self).spec_members() == old(self).spec_members()
                },
            },
    {
        if self.position_of_organization(member.organization_id).is_none() {
            return Err(AppError::Database);
        }
        if self.position_of_membership(member.id).is_some() {
            return Err(AppError::Database);
        }
        self.members.push(member);
        Ok(())
    }

    /// Takes back the organization stored last.
    fn discard_last_organization(&mut self)
        requires
            old(self).spec_organizations().len() > 0,
            forall|i: int|
                0 <= i < old(self).spec_members().len() ==> (
                #[trigger] old(self).spec_members()[i]).organization_id != old(
                    self,
                ).spec_organizations().last().id,
            old(self).wf(),
        ensures
            final(self).wf(),
            final(self).spec_members() == old(self).spec_members(),
            final(self).spec_organizations() == old(self).spec_organizations().drop_last(),
    {
        self.organizations.pop();
        proof {
            let before = old(self).spec_organizations();
            let after = self.spec_organizations();
            assert(after =~= before.drop_last());
            assert forall|i: int| 0 <= i < self.spec_members().len() implies has_organization(
                after,
                (#[trigger] self.spec_members()[i]).organization_id,
            ) by {
                let k = choose|k: int|
                    0 <= k < before.len() && (#[trigger] before[k]).id
                        == self.spec_members()[i].organization_id;
                assert(after[k].id == self.spec_members()[i].organization_id);
            }
        }
    }

    /// Creates an organization together with the membership of its founder.
    ///
    /// The organization is stored first and the membership second. Where the
    /// store refuses either, the other is not stored either: the manager is
    /// as it was, and the answer is the store's error. The store refuses an
    /// organization whose identifier is taken and a membership whose
    /// identifier is taken. On success the founder is a member of the new
    /// organization, in the role `owner` and without a share.
    pub fn create_with_owner(
        &mut self,
        id: Id,
        membership_id: Id,
        fields: CreateOrganization,
        founder: Id,
        now: i64,
    ) -> (r: Result<Organization, AppError>)
        requires
            old(self).wf(),
        ensures
            final(self).wf(),
            match r {
                Ok(organization) => {
                    &&& !has_organization(old(self).spec_organizations(), id)
                    &&& !has_membership(old(self).spec_members(), membership_id)
                    &&& organization == spec_organization(id, fields, now)
                    &&& final(self).spec_organizations() == old(self).spec_organizations().push(
                        organization,
                    )
                    &&& final(self).spec_members().len() == old(self).spec_members().len() + 1
                    &&& final(self).spec_members().drop_last() == old(self).spec_members()
                    &&& is_founding_membership(
                        final(self).spec_members().last(),
                        membership_id,
                        id,
                        founder,
                        now,
                    )
                    &&& is_member(final(self).spec_members(), id, founder)
                    &&& may_access(final(self).spec_members(), founder, Owner::Organization(id))
                },
                Err(e) => {
                    &&& e == AppError::Database
                    &&& has_organization(old(self).spec_organizations(), id) || has_membership(
                        old(self).spec_members(),
                        membership_id,
                    )
                    &&& final(self).spec_organizations() == old(self).spec_organizations()
                    &&& final(self).spec_members() == old(self).spec_members()
                },
            },
    {
        let organization = Organization {
            id,
            name: fields.name,
            legal_form: fields.legal_form,
            siret: fields.siret,
            address: fields.address,
            phone: fields.phone,
            email: fields.email,
            created_at: now,
            updated_at: now,
        };
        let copy: Organization = organization.clone();
        match self.insert_organization(organization) {
            Ok(()) => {},
            Err(e) => {
                return Err(e);
            },
        }
        let founding = OrganizationMember {
            id: membership_id,
            organization_id: id,
            user_id: founder,
            role: "owner".to_owned(),
            share_percentage: None,
            joined_at: now,
        };
        proof {
            let stored = old(self).spec_organizations();
            assert(self.spec_organizations().last().id == id);
            assert forall|i: int| 0 <= i < self.spec_members().len() implies (
            #[trigger] self.spec_members()[i]).organization_id != id by {
                assert(has_organization(stored, self.spec_members()[i].organization_id));
            }
        }
        match self.insert_membership(founding) {
            Ok(()) => {
                proof {
                    let after = self.spec_members();
                    assert(after.drop_last() =~= old(self).spec_members());
                    assert(after[after.len() - 1].organization_id == id);
                }
                Ok(copy)
            },
            Err(e) => {
                self.discard_last_organization();
                proof {
                    assert(self.spec_organizations() =~= old(self).spec_organizations());
                }
                Err(e)
            },
        }
    }

    /// Adds a membership to an organization.
    ///
    /// Memberships of the same identity in the same organization are not
    /// told apart: adding one twice stores two. The store refuses a
    /// membership whose identifier is taken or whose organization does not
    /// exist, and is then unchanged.
    pub fn add_member(
        &mut self,
        organization_id: Id,
        membership_id: Id,
        fields: AddOrganizationMember,
        now: i64,
    ) -> (r: Result<OrganizationMember, AppError>)
        requires
            old(self).wf(),
        ensures
            final(self).wf(),
            final(self).spec_organizations() == old(self).spec_organizations(),
            match r {
                Ok(member) => {
                    &&& has_organization(old(self).spec_organizations(), organization_id)
                    &&& !has_membership(old(self).spec_members(), membership_id)
                    &&& member == spec_membership(membership_id, organization_id, fields, now)
                    &&& final(self).spec_members() == old(self).spec_members().push(member)
                    &&& is_member(final(self).spec_members(), organization_id, fields.user_id)
                    &&& may_access(
                        final(self).spec_members(),
                        fields.user_id,
                        Owner::Organization(organization_id),
                    )
                },
                Err(e) => {
                    &&& e == AppError::Database
                    &&& !has_organization(old(self).spec_organizations(), organization_id)
                        || has_membership(old(self).spec_members(), membership_id)
                    &&& final(self).spec_members() == old(self).spec_members()
                },
            },
    {
        let member = OrganizationMember {
            id: membership_id,
            organization_id,
            user_id: fields.user_id,
            role: fields.role,
            share_percentage: fields.share_percentage,
            joined_at: now,
        };
        let copy: OrganizationMember = member.clone();
        match self.insert_membership(member) {
            Ok(()) => {
                proof {
                    let after = self.spec_members();
                    assert(after[after.len() - 1].user_id == fields.user_id);
                }
                Ok(copy)
            },
            Err(e) => Err(e),
        }
    }

    /// Removes one membership from an organization.
    ///
    /// Exactly the membership with the identifier given is removed, and only
    /// if it is one of the organization given. Else nothing is removed and
    /// the answer is "not found". The organization stays, with or without
    /// members.
    pub fn remove_member(&mut self, organization_id: Id, membership_id: Id) -> (r: Result<
        (),
        AppError,
    >)
        requires
            old(self).wf(),
        ensures
            final(self).wf(),
            final(self).spec_organizations() == old(self).spec_organizations(),
            match r {
                Ok(()) => exists|at: int|
                    {
                        &&& is_membership_of(
                            old(self).spec_members(),
                            organization_id,
                            membership_id,
                            at,
                        )
                        &&& final(self).spec_members() == old(self).spec_members().remove(at)
                        &&& !has_membership(final(self).spec_members(), membership_id)
                    },
                Err(e) => {
                    &&& e matches AppError::NotFound(m) && m@ == "Organization member not found"@
                    &&& forall|at: int|
                        !is_membership_of(
                            old(self).spec_members(),
                            organization_id,
                            membership_id,
                            at,
                        )
                    &&& final(self).spec_members() == old(self).spec_members()
                },
            },
    {
        match self.position_of_membership(membership_id) {
            Some(at) => {
                if self.members[at].organization_id == organization_id {
                    assert(is_membership_of(
                        self.spec_members(),
                        organization_id,
                        membership_id,
                        at as int,
                    ));
                    self.members.remove(at);
                    proof {
                        let before = old(self).spec_members();
                        let after = self.spec_members();
                        if has_membership(after, membership_id) {
                            let k = choose|k: int|
                                0 <= k < after.len() && (#[trigger] after[k]).id == membership_id;
                            if k < at {
                                assert(before[k].id == before[at as int].id);
                            } else {
                                assert(before[k + 1].id == before[at as int].id);
                            }
                        }
                    }
                    Ok(())
                } else {
                    assert forall|k: int|
                        !is_membership_of(
                            self.spec_members(),
                            organization_id,
                            membership_id,
                            k,
                        ) by {
                        if is_membership_of(
                            self.spec_members(),
                            organization_id,
                            membership_id,
                            k,
                        ) {
                            assert(k == at);
                        }
                    }
                    Err(AppError::NotFound("Organization member not found".to_owned()))
                }
            },
            None => Err(AppError::NotFound("Organization member not found".to_owned())),
        }
    }

    /// The organization `id`, or "not found".
    pub fn find_organization(&self, id: Id) -> (r: Result<&Organization, AppError>)
        ensures
            match r {
                Ok(organization) => organization.id == id && self.spec_organizations().contains(
                    *organization,
                ),
                Err(e) => !has_organization(self.spec_organizations(), id) && (
                e matches AppError::NotFound(m) && m@ == "Organization not found"@),
            },
    {
        match self.position_of_organization(id) {
            Some(at) => {
                assert(self.spec_organizations()[at as int] == self.organizations@[at as int]);
                Ok(&self.organizations[at])
            },
            None => Err(AppError::NotFound("Organization not found".to_owned())),
        }
    }

    /// Changes the fields of an organization that the request names, and
    /// notes the time of the change.
    pub fn update_organization(&mut self, id: Id, changes: UpdateOrganization, now: i64) -> (r:
        Result<Organization, AppError>)
        requires
            old(self).wf(),
        ensures
            final(self).wf(),
            final(self).spec_members() == old(self).spec_members(),
            match r {
                Ok(organization) => exists|at: int|
                    {
                        &&& 0 <= at < old(self).spec_organizations().len()
                        &&& #[trigger] old(self).spec_organizations()[at].id == id
                        &&& organization == spec_updated(
                            old(self).spec_organizations()[at],
                            changes,
                            now,
                        )
                        &&& final(self).spec_organizations() == old(
                            self,
                        ).spec_organizations().update(at, organization)
                    },
                Err(e) => {
                    &&& !has_organization(old(self).spec_organizations(), id)
                    &&& e matches AppError::NotFound(m) && m@ == "Organization not found"@
                    &&& final(self).spec_organizations() == old(self).spec_organizations()
                },
            },
    {
        let at: usize = match self.position_of_organization(id) {
            Some(at) => at,
            None => {
                return Err(AppError::NotFound("Organization not found".to_owned()));
            },
        };
        let current: &Organization = &self.organizations[at];
        let updated = Organization {
            id: current.id,
            name: match changes.name {
                Some(value) => value,
                None => current.name.clone(),
            },
            legal_form: match changes.legal_form {
                Some(value) => value,
                None => current.legal_form.clone(),
            },
            siret: match changes.siret {
                Some(value) => Some(value),
                None => current.siret.clone(),
            },
            address: match changes.address {
                Some(value) => value,
                None => current.address.clone(),
            },
            phone: match changes.phone {
                Some(value) => Some(value),
                None => current.phone.clone(),
            },
            email: match changes.email {
                Some(value) => Some(value),
                None => current.email.clone(),
            },
            created_at: current.created_at,
            updated_at: now,
        };
        let copy: Organization = updated.clone();
        self.organizations.set(at, updated);
        proof {
            let before = old(self).spec_organizations();
            let after = self.spec_organizations();
            assert(before[at as int].id == id);
            assert forall|i: int| 0 <= i < self.spec_members().len() implies has_organization(
                after,
                (#[trigger] self.spec_members()[i]).organization_id,
            ) by {
                let k = choose|k: int|
                    0 <= k < before.len() && (#[trigger] before[k]).id
                        == self.spec_members()[i].organization_id;
                assert(after[k].id == self.spec_members()[i].organization_id);
            }
        }
        Ok(copy)
    }

    /// Deletes an organization and, with it, all its memberships.
    ///
    /// Resources that the organization owns are not touched: they keep
    /// pointing at the organization that is gone, and nobody may act on them.
    pub fn delete_organization(&mut self, id: Id) -> (r: Result<(), AppError>)
        requires
            old(self).wf(),
        ensures
            final(self).wf(),
            match r {
                Ok(()) => exists|at: int|
                    {
                        &&& 0 <= at < old(self).spec_organizations().len()
                        &&& #[trigger] old(self).spec_organizations()[at].id == id
                        &&& final(self).spec_organizations() == old(
                            self,
                        ).spec_organizations().remove(at)
                        &&& !has_organization(final(self).spec_organizations(), id)
                        &&& final(self).spec_members() == spec_without_organization(
                            old(self).spec_members(),
                            id,
                        )
                    },
                Err(e) => {
                    &&& !has_organization(old(self).spec_organizations(), id)
                    &&& e matches AppError::NotFound(m) && m@ == "Organization not found"@
                    &&& final(self).spec_organizations() == old(self).spec_organizations()
                    &&& final(self).spec_members() == old(self).spec_members()
                },
            },
    {
        let at: usize = match self.position_of_organization(id) {
            Some(at) => at,
            None => {
                return Err(AppError::NotFound("Organization not found".to_owned()));
            },
        };
        let ghost keeps = |m: OrganizationMember| m.organization_id != id;
        let mut kept: Vec<OrganizationMember> = Vec::new();
        let mut i: usize = 0;
        while i < self.members.len()
            invariant
                i <= self.members.len(),
                self.members@ == old(self).spec_members(),
                keeps == |m: OrganizationMember| m.organization_id != id,
                kept@ == self.members@.take(i as int).filter(keeps),
            decreases self.members.len() - i,
        {
            proof {
                let upto = self.members@.take(i as int);
                assert(self.members@.take(i + 1) =~= upto.push(self.members@[i as int]));
                Seq::lemma_filter_push(upto, self.members@[i as int], keeps);
            }
            if self.members[i].organization_id != id {
                kept.push(self.members[i].clone());
            }
            i = i + 1;
        }
        proof {
            assert(self.members@.take(self.members@.len() as int) =~= self.members@);
        }
        self.members = kept;
        self.organizations.remove(at);
        proof {
            let before = old(self).spec_organizations();
            let after = self.spec_organizations();
            if has_organization(after, id) {
                let k = choose|k: int| 0 <= k < after.len() && (#[trigger] after[k]).id == id;
                if k < at {
                    assert(before[k].id == before[at as int].id);
                } else {
                    assert(before[k + 1].id == before[at as int].id);
                }
            }
            let stay = self.spec_members();
            let all = old(self).spec_members();
            assert forall|i: int, j: int| 0 <= i < j < stay.len() implies (#[trigger] stay[i]).id
                != (#[trigger] stay[j]).id by {
                lemma_filter_keeps_order(all, keeps, i, j);
            }
            assert forall|i: int| 0 <= i < stay.len() implies has_organization(
                after,
                (#[trigger] stay[i]).organization_id,
            ) by {
                lemma_filter_source(all, keeps, i);
                let m = choose|m: int| 0 <= m < all.len() && all[m] == stay[i];
                let k = choose|k: int|
                    0 <= k < before.len() && (#[trigger] before[k]).id == all[m].organization_id;
                assert(k != at);
                if k < at {
                    assert(after[k].id == stay[i].organization_id);
                } else {
                    assert(after[k - 1].id == stay[i].organization_id);
                }
            }
        }
        Ok(())
    }

}

/// Once an organization is deleted nobody is a member of it, so nobody may act
/// on what it still owns.
pub proof fn deleted_organization_grants_nothing(
    members: Seq<OrganizationMember>,
    organization: Id,
    identity: Id,
)
    ensures
        !is_member(spec_without_organization(members, organization), organization, identity),
        !may_access(
            spec_without_organization(members, organization),
            identity,
            Owner::Organization(organization),
        ),
{
    let left = spec_without_organization(members, organization);
    if is_member(left, organization, identity) {
        let i = choose|i: int|
            0 <= i < left.len() && (#[trigger] left[i]).organization_id == organization
                && left[i].user_id == identity;
        lemma_filter_source(members, |m: OrganizationMember| m.organization_id != organization, i);
    }
}

/// Deleting an organization leaves the memberships of the others as they
/// were: who may act on what the others own does not change.
pub proof fn deletion_spares_other_organizations(
    members: Seq<OrganizationMember>,
    deleted: Id,
    other: Id,
    identity: Id,
)
    requires
        other != deleted,
    ensures
        is_member(spec_without_organization(members, deleted), other, identity) == is_member(
            members,
            other,
            identity,
        ),
{
    let keeps = |m: OrganizationMember| m.organization_id != deleted;
    let left = spec_without_organization(members, deleted);
    if is_member(left, other, identity) {
        let i = choose|i: int|
            0 <= i < left.len() && (#[trigger] left[i]).organization_id == other
                && left[i].user_id == identity;
        lemma_filter_source(members, keeps, i);
        let a = choose|a: int| 0 <= a < members.len() && members[a] == left[i];
        assert(members[a].organization_id == other && members[a].user_id == identity);
    }
    if is_member(members, other, identity) {
        let a = choose|a: int|
            0 <= a < members.len() && (#[trigger] members[a]).organization_id == other
                && members[a].user_id == identity;
        lemma_filter_holds(members, keeps, a);
        let i = choose|i: int| 0 <= i < left.len() && left[i] == members[a];
        assert(left[i].organization_id == other && left[i].user_id == identity);
    }
}

} // verus!
