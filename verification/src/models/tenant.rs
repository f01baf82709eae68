//! Tenants.

use crate::dates::Date;
use crate::ids::Id;
use vstd::prelude::*;

verus! {

/// A tenant, kept by the identity that entered it.
#[derive(Debug)]
pub struct Tenant {
    pub id: Id,
    /// The identity that owns the record.
    pub user_id: Id,
    pub name: String,
    pub email: Option<String>,
    pub phone: Option<String>,
    pub address: Option<String>,
    pub birth_date: Option<Date>,
    pub birth_place: Option<String>,
    pub notes: Option<String>,
    /// Seconds since the epoch.
    pub created_at: i64,
    pub updated_at: i64,
}

impl Clone for Tenant {
    fn clone(&self) -> (copy: Self)
        ensures
            copy == *self,
    {
        Tenant {
            id: self.id,
            user_id: self.user_id,
            name: self.name.clone(),
            email: self.email.clone(),
            phone: self.phone.clone(),
            address: self.address.clone(),
            birth_date: self.birth_date,
            birth_place: self.birth_place.clone(),
            notes: self.notes.clone(),
            created_at: self.created_at,
            updated_at: self.updated_at,
        }
    }
}

/// The fields of a tenant to create, or to replace an existing one's with.
#[derive(Debug)]
pub struct CreateTenant {
    pub name: String,
    pub email: Option<String>,
    pub phone: Option<String>,
    pub address: Option<String>,
    pub birth_date: Option<Date>,
    pub birth_place: Option<String>,
    pub notes: Option<String>,
}

/// The fields of a tenant to change; an absent field stays as it is.
#[derive(Debug)]
pub struct UpdateTenant {
    pub name: Option<String>,
    pub email: Option<String>,
    pub phone: Option<String>,
    pub address: Option<String>,
    pub birth_date: Option<Date>,
    pub birth_place: Option<String>,
    pub notes: Option<String>,
}

} // verus!
