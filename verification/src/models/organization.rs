//! Organizations and the memberships that tie identities to them.

use crate::ids::Id;
use vstd::prelude::*;

verus! {

/// A legal entity that owns resources jointly for its members.
#[derive(Debug)]
pub struct Organization {
    pub id: Id,
    pub name: String,
    pub legal_form: String,
    pub siret: Option<String>,
    pub address: String,
    pub phone: Option<String>,
    pub email: Option<String>,
    /// Seconds since the epoch.
    pub created_at: i64,
    pub updated_at: i64,
}

impl Clone for Organization {
    fn clone(&self) -> (copy: Self)
        ensures
            copy == *self,
    {
        Organization {
            id: self.id,
            name: self.name.clone(),
            legal_form: self.legal_form.clone(),
            siret: self.siret.clone(),
            address: self.address.clone(),
            phone: self.phone.clone(),
            email: self.email.clone(),
            created_at: self.created_at,
            updated_at: self.updated_at,
        }
    }
}

/// One identity's membership of one organization.
#[derive(Debug)]
pub struct OrganizationMember {
    pub id: Id,
    pub organization_id: Id,
    pub user_id: Id,
    /// Free-form, such as `owner`.
    pub role: String,
    /// The member's stake in hundredths of a percent, where one is recorded.
    /// The stakes of an organization need not add up to the whole.
    pub share_percentage: Option<i64>,
    /// Seconds since the epoch.
    pub joined_at: i64,
}

impl Clone for OrganizationMember {
    fn clone(&self) -> (copy: Self)
        ensures
            copy == *self,
    {
        OrganizationMember {
            id: self.id,
            organization_id: self.organization_id,
            user_id: self.user_id,
            role: self.role.clone(),
            share_percentage: self.share_percentage,
            joined_at: self.joined_at,
        }
    }
}

/// The fields of an organization to create.
#[derive(Debug)]
pub struct CreateOrganization {
    pub name: String,
    pub legal_form: String,
    pub siret: Option<String>,
    pub address: String,
    pub phone: Option<String>,
    pub email: Option<String>,
}

/// The fields of an organization to change; an absent field stays as it is.
#[derive(Debug)]
pub struct UpdateOrganization {
    pub name: Option<String>,
    pub legal_form: Option<String>,
    pub siret: Option<String>,
    pub address: Option<String>,
    pub phone: Option<String>,
    pub email: Option<String>,
}

/// A membership to add.
#[derive(Debug)]
pub struct AddOrganizationMember {
    pub user_id: Id,
    pub role: String,
    pub share_percentage: Option<i64>,
}

/// An organization together with its members.
#[derive(Debug)]
pub struct OrganizationWithMembers {
    pub organization: Organization,
    pub members: Vec<OrganizationMemberWithUser>,
}

/// A membership joined with the summary of its identity.
#[derive(Debug)]
pub struct OrganizationMemberWithUser {
    /// The membership's identifier.
    pub id: Id,
    pub role: String,
    pub share_percentage: Option<i64>,
    pub user_id: Id,
    pub user_name: String,
    pub user_email: String,
}

} // verus!
