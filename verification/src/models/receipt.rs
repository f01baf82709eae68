//! Rent receipts.

use crate::dates::Date;
use crate::ids::Id;
use vstd::prelude::*;

verus! {

/// The receipt of one month's rent under a lease. Amounts are in hundredths
/// of the currency unit.
#[derive(Debug)]
pub struct Receipt {
    pub id: Id,
    pub lease_id: Id,
    /// 1 to 12.
    pub period_month: i32,
    pub period_year: i32,
    pub base_rent: i64,
    pub charges: i64,
    /// Rent and charges together.
    pub total_amount: i64,
    pub payment_date: Date,
    pub status: String,
    /// Seconds since the epoch.
    pub email_sent_at: Option<i64>,
    pub pdf_path: Option<String>,
    pub created_at: i64,
    pub updated_at: i64,
}

impl Clone for Receipt {
    fn clone(&self) -> (copy: Self)
        ensures
            copy == *self,
    {
        Receipt {
            id: self.id,
            lease_id: self.lease_id,
            period_month: self.period_month,
            period_year: self.period_year,
            base_rent: self.base_rent,
            charges: self.charges,
            total_amount: self.total_amount,
            payment_date: self.payment_date,
            status: self.status.clone(),
            email_sent_at: self.email_sent_at,
            pdf_path: self.pdf_path.clone(),
            created_at: self.created_at,
            updated_at: self.updated_at,
        }
    }
}

/// The fields of a receipt to create.
#[derive(Debug)]
pub struct CreateReceipt {
    pub lease_id: Id,
    pub period_month: i32,
    pub period_year: i32,
    pub base_rent: i64,
    pub charges: i64,
    pub payment_date: Date,
}

/// The fields of a receipt to change; an absent field stays as it is.
#[derive(Debug)]
pub struct UpdateReceipt {
    pub status: Option<String>,
    pub payment_date: Option<Date>,
}

} // verus!
