//! Leases.

use crate::dates::Date;
use crate::ids::Id;
use vstd::prelude::*;

verus! {

/// The lease of a property to a tenant. Amounts are in hundredths of the
/// currency unit.
#[derive(Debug)]
pub struct Lease {
    pub id: Id,
    pub property_id: Id,
    pub tenant_id: Id,
    pub start_date: Date,
    pub end_date: Option<Date>,
    pub duration_months: i32,
    pub monthly_rent: i64,
    pub charges: i64,
    pub deposit: i64,
    pub rent_revision: bool,
    pub inventory_date: Option<Date>,
    pub status: String,
    pub pdf_path: Option<String>,
    /// Seconds since the epoch.
    pub created_at: Option<i64>,
    pub updated_at: Option<i64>,
}

impl Clone for Lease {
    fn clone(&self) -> (copy: Self)
        ensures
            copy == *self,
    {
        Lease {
            id: self.id,
            property_id: self.property_id,
            tenant_id: self.tenant_id,
            start_date: self.start_date,
            end_date: self.end_date,
            duration_months: self.duration_months,
            monthly_rent: self.monthly_rent,
            charges: self.charges,
            deposit: self.deposit,
            rent_revision: self.rent_revision,
            inventory_date: self.inventory_date,
            status: self.status.clone(),
            pdf_path: self.pdf_path.clone(),
            created_at: self.created_at,
            updated_at: self.updated_at,
        }
    }
}

/// The fields of a lease to create.
#[derive(Debug)]
pub struct CreateLease {
    pub property_id: Id,
    pub tenant_id: Id,
    pub start_date: Date,
    pub duration_months: i32,
    pub monthly_rent: i64,
    pub charges: i64,
    pub deposit: i64,
    pub rent_revision: bool,
    pub inventory_date: Option<Date>,
}

/// The fields of a lease to change; an absent field stays as it is.
#[derive(Debug)]
pub struct UpdateLease {
    pub monthly_rent: Option<i64>,
    pub charges: Option<i64>,
    pub status: Option<String>,
}

} // verus!
