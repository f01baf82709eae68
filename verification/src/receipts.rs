//! Rent receipts: a receipt is visible to whoever may act on its lease.

use crate::error::AppError;
use crate::ids::Id;
use crate::models::organization::OrganizationMember;
use crate::models::receipt::{CreateReceipt, Receipt};
use crate::portfolio::{
    has_receipt, may_access_lease, may_access_receipt, period_taken, Portfolio,
};
use crate::text::{receipt_exists, spec_receipt_exists};
use vstd::prelude::*;

verus! {

/// Why the fields of a receipt are refused.
#[derive(Clone, Copy, Debug, PartialEq, Eq, Structural)]
pub enum ReceiptFault {
    /// The month is not one of the twelve.
    InvalidMonth,
    /// The rent or the charges are negative.
    NegativeAmount,
    /// Rent and charges together are more than an amount can hold.
    TotalTooLarge,
}

impl ReceiptFault {
    /// The message that reports this fault.
    pub open spec fn spec_message(&self) -> Seq<char> {
        match self {
            ReceiptFault::InvalidMonth => "Period month must be between 1 and 12"@,
            ReceiptFault::NegativeAmount => "Rent amounts cannot be negative"@,
            ReceiptFault::TotalTooLarge => "Rent amounts are too large"@,
        }
    }

    /// The validation error that reports this fault.
    pub fn to_app_error(&self) -> (e: AppError)
        ensures
            e matches AppError::Validation(m) && m@ == self.spec_message(),
    {
        match self {
            ReceiptFault::InvalidMonth => AppError::Validation(
                "Period month must be between 1 and 12".to_owned(),
            ),
            ReceiptFault::NegativeAmount => AppError::Validation(
                "Rent amounts cannot be negative".to_owned(),
            ),
            ReceiptFault::TotalTooLarge => AppError::Validation(
                "Rent amounts are too large".to_owned(),
            ),
        }
    }
}

/// The first fault in the fields of a receipt, or none.
pub open spec fn spec_receipt_fault(fields: CreateReceipt) -> Option<ReceiptFault> {
    if fields.period_month < 1 || fields.period_month > 12 {
        Some(ReceiptFault::InvalidMonth)
    } else if fields.base_rent < 0 || fields.charges < 0 {
        Some(ReceiptFault::NegativeAmount)
    } else if fields.base_rent + fields.charges > i64::MAX {
        Some(ReceiptFault::TotalTooLarge)
    } else {
        None
    }
}

/// Checks the fields of a receipt and gives the total of rent and charges.
pub fn check_receipt(fields: &CreateReceipt) -> (r: Result<i64, ReceiptFault>)
    ensures
        match r {
            Ok(total) => spec_receipt_fault(*fields) is None && total == fields.base_rent
                + fields.charges,
            Err(fault) => spec_receipt_fault(*fields) == Some(fault),
        },
{
    if fields.period_month < 1 || fields.period_month > 12 {
        return Err(ReceiptFault::InvalidMonth);
    }
    if fields.base_rent < 0 || fields.charges < 0 {
        return Err(ReceiptFault::NegativeAmount);
    }
    if fields.base_rent > i64::MAX - fields.charges {
        return Err(ReceiptFault::TotalTooLarge);
    }
    Ok(fields.base_rent + fields.charges)
}

/// How the creation of a receipt ends.
#[derive(Clone, Copy, Debug, PartialEq, Eq, Structural)]
pub enum ReceiptOutcome {
    /// The fields are refused.
    Refused(ReceiptFault),
    /// The lease is not there for the caller.
    NoLease,
    /// The lease has a receipt for the period.
    PeriodTaken,
    /// The store refused the receipt.
    StoreRefused,
    /// The receipt is stored.
    Stored,
}

/// How the creation of a receipt ends: the fields are checked first, then
/// the lease, then the period, then the store.
pub open spec fn spec_receipt_outcome(
    portfolio: Portfolio,
    members: Seq<OrganizationMember>,
    caller: Id,
    id: Id,
    fields: CreateReceipt,
) -> ReceiptOutcome {
    if spec_receipt_fault(fields) is Some {
        ReceiptOutcome::Refused(spec_receipt_fault(fields)->Some_0)
    } else if !may_access_lease(
        portfolio.leases@,
        portfolio.properties@,
        members,
        caller,
        fields.lease_id,
    ) {
        ReceiptOutcome::NoLease
    } else if period_taken(
        portfolio.receipts@,
        fields.lease_id,
        fields.period_month,
        fields.period_year,
    ) {
        ReceiptOutcome::PeriodTaken
    } else if has_receipt(portfolio.receipts@, id) {
        ReceiptOutcome::StoreRefused
    } else {
        ReceiptOutcome::Stored
    }
}

/// Whether `e` is the error that reports an outcome other than success.
pub open spec fn spec_receipt_error(outcome: ReceiptOutcome, fields: CreateReceipt, e: AppError)
    -> bool {
    match outcome {
        ReceiptOutcome::Refused(fault) => e matches AppError::Validation(m) && m@
            == fault.spec_message(),
        ReceiptOutcome::NoLease => e matches AppError::NotFound(m) && m@ == "Lease not found"@,
        ReceiptOutcome::PeriodTaken => e matches AppError::Conflict(m) && m@
            == spec_receipt_exists(fields.period_month, fields.period_year),
        ReceiptOutcome::StoreRefused => e == AppError::Database,
        ReceiptOutcome::Stored => false,
    }
}

/// Whether `receipt` is the receipt that a sound request creates: generated,
/// not yet sent, and with the total of rent and charges.
pub open spec fn is_new_receipt(receipt: Receipt, id: Id, fields: CreateReceipt, now: i64)
    -> bool {
    &&& receipt.id == id
    &&& receipt.lease_id == fields.lease_id
    &&& receipt.period_month == fields.period_month
    &&& receipt.period_year == fields.period_year
    &&& receipt.base_rent == fields.base_rent
    &&& receipt.charges == fields.charges
    &&& receipt.total_amount == fields.base_rent + fields.charges
    &&& receipt.payment_date == fields.payment_date
    &&& receipt.status@ == "generated"@
    &&& receipt.email_sent_at is None
    &&& receipt.pdf_path is None
    &&& receipt.created_at == now
    &&& receipt.updated_at == now
}

/// The receipts that `identity` sees: those of the leases it may act on, and
/// only those of the lease `only` where one is named.
pub open spec fn spec_receipts_visible(
    portfolio: Portfolio,
    members: Seq<OrganizationMember>,
    identity: Id,
    only: Option<Id>,
) -> Seq<Receipt> {
    portfolio.receipts@.filter(
        |r: Receipt|
            may_access_lease(
                portfolio.leases@,
                portfolio.properties@,
                members,
                identity,
                r.lease_id,
            ) && (only is None || only == Some(r.lease_id)),
    )
}

impl Portfolio {
    /// Whether `identity` may act on the lease `id`.
    pub fn can_access_lease(&self, members: &Vec<OrganizationMember>, identity: Id, id: Id) -> (r:
        bool)
        ensures
            r == may_access_lease(self.leases@, self.properties@, members@, identity, id),
    {
        self.locate_lease(members, identity, id).is_some()
    }

    /// Whether the lease has a receipt for the period.
    pub fn period_is_taken(&self, lease: Id, month: i32, year: i32) -> (taken: bool)
        ensures
            taken == period_taken(self.receipts@, lease, month, year),
    {
        let mut i: usize = 0;
        while i < self.receipts.len()
            invariant
                i <= self.receipts.len(),
                forall|j: int|
                    0 <= j < i ==> !((#[trigger] self.receipts@[j]).lease_id == lease
                        && self.receipts@[j].period_month == month
                        && self.receipts@[j].period_year == year),
            decreases self.receipts.len() - i,
        {
            if self.receipts[i].lease_id == lease && self.receipts[i].period_month == month
                && self.receipts[i].period_year == year {
                return true;
            }
            i = i + 1;
        }
        false
    }

    /// Whether a receipt has the identifier `id`.
    pub fn receipt_exists(&self, id: Id) -> (found: bool)
        ensures
            found == has_receipt(self.receipts@, id),
    {
        let mut i: usize = 0;
        while i < self.receipts.len()
            invariant
                i <= self.receipts.len(),
                forall|j: int| 0 <= j < i ==> (#[trigger] self.receipts@[j]).id != id,
            decreases self.receipts.len() - i,
        {
            if self.receipts[i].id == id {
                return true;
            }
            i = i + 1;
        }
        false
    }

    /// Where the receipt `id` stands, if `identity` may act on it.
    pub fn locate_receipt(&self, members: &Vec<OrganizationMember>, identity: Id, id: Id) -> (r:
        Option<usize>)
        ensures
            match r {
                Some(at) => at < self.receipts@.len() && self.receipts@[at as int].id == id
                    && may_access_lease(
                    self.leases@,
                    self.properties@,
                    members@,
                    identity,
                    self.receipts@[at as int].lease_id,
                ),
                None => !may_access_receipt(
                    self.receipts@,
                    self.leases@,
                    self.properties@,
                    members@,
                    identity,
                    id,
                ),
            },
    {
        let mut i: usize = 0;
        while i < self.receipts.len()
            invariant
                i <= self.receipts.len(),
                forall|j: int|
                    0 <= j < i ==> !((#[trigger] self.receipts@[j]).id == id && may_access_lease(
                        self.leases@,
                        self.properties@,
                        members@,
                        identity,
                        self.receipts@[j].lease_id,
                    )),
            decreases self.receipts.len() - i,
        {
            if self.receipts[i].id == id && self.can_access_lease(
                members,
                identity,
                self.receipts[i].lease_id,
            ) {
                return Some(i);
            }
            i = i + 1;
        }
        None
    }

    /// The receipts of the leases that the caller may act on, or those of one
    /// such lease where the request names one.
    pub fn list_receipts(&self, members: &Vec<OrganizationMember>, caller: Id, only: Option<Id>)
        -> (listed: Vec<Receipt>)
        ensures
            listed@ == spec_receipts_visible(*self, members@, caller, only),
    {
        let ghost keeps = |r: Receipt|
            may_access_lease(self.leases@, self.properties@, members@, caller, r.lease_id) && (
            only is None || only == Some(r.lease_id));
        let mut listed: Vec<Receipt> = Vec::new();
        let mut i: usize = 0;
        while i < self.receipts.len()
            invariant
                i <= self.receipts.len(),
                keeps == |r: Receipt|
                    may_access_lease(
                        self.leases@,
                        self.properties@,
                        members@,
                        caller,
                        r.lease_id,
                    ) && (only is None || only == Some(r.lease_id)),
                listed@ == self.receipts@.take(i as int).filter(keeps),
            decreases self.receipts.len() - i,
        {
            proof {
                let upto = self.receipts@.take(i as int);
                assert(self.receipts@.take(i + 1) =~= upto.push(self.receipts@[i as int]));
                Seq::lemma_filter_push(upto, self.receipts@[i as int], keeps);
            }
            let wanted: bool = match only {
                None => true,
                Some(lease) => lease == self.receipts[i].lease_id,
            };
            if wanted && self.can_access_lease(members, caller, self.receipts[i].lease_id) {
                listed.push(self.receipts[i].clone());
            }
            i = i + 1;
        }
        proof {
            assert(self.receipts@.take(self.receipts@.len() as int) =~= self.receipts@);
        }
        listed
    }

    /// Creates the receipt of a period under a lease that the caller may act
    /// on. A lease has one receipt for a period at most. The first fault is
    /// reported and nothing is stored.
    pub fn create_receipt(
        &mut self,
        members: &Vec<OrganizationMember>,
        caller: Id,
        id: Id,
        fields: CreateReceipt,
        now: i64,
    ) -> (r: Result<Receipt, AppError>)
        requires
            old(self).wf(),
        ensures
            final(self).wf(),
            final(self).properties@ == old(self).properties@,
            final(self).tenants@ == old(self).tenants@,
            final(self).leases@ == old(self).leases@,
            match spec_receipt_outcome(*old(self), members@, caller, id, fields) {
                ReceiptOutcome::Stored => {
                    &&& r matches Ok(receipt) && is_new_receipt(receipt, id, fields, now)
                    &&& final(self).receipts@ == old(self).receipts@.push(r->Ok_0)
                },
                outcome => {
                    &&& r matches Err(e) && spec_receipt_error(outcome, fields, e)
                    &&& final(self).receipts@ == old(self).receipts@
                },
            },
    {
        let total: i64 = match check_receipt(&fields) {
            Ok(total) => total,
            Err(fault) => {
                return Err(fault.to_app_error());
            },
        };
        let lease: usize = match self.locate_lease(members, caller, fields.lease_id) {
            Some(at) => at,
            None => {
                return Err(AppError::NotFound("Lease not found".to_owned()));
            },
        };
        if self.period_is_taken(fields.lease_id, fields.period_month, fields.period_year) {
            return Err(
                AppError::Conflict(receipt_exists(fields.period_month, fields.period_year)),
            );
        }
        if self.receipt_exists(id) {
            return Err(AppError::Database);
        }
        let receipt = Receipt {
            id,
            lease_id: fields.lease_id,
            period_month: fields.period_month,
            period_year: fields.period_year,
            base_rent: fields.base_rent,
            charges: fields.charges,
            total_amount: total,
            payment_date: fields.payment_date,
            status: "generated".to_owned(),
            email_sent_at: None,
            pdf_path: None,
            created_at: now,
            updated_at: now,
        };
        let copy: Receipt = receipt.clone();
        self.receipts.push(receipt);
        proof {
            assert(self.leases@[lease as int].id == fields.lease_id);
        }
        Ok(copy)
    }

    /// The receipt `id`, if the caller may act on its lease; else "not
    /// found".
    pub fn get_receipt(&self, members: &Vec<OrganizationMember>, caller: Id, id: Id) -> (r: Result<
        &Receipt,
        AppError,
    >)
        ensures
            r is Ok <==> may_access_receipt(
                self.receipts@,
                self.leases@,
                self.properties@,
                members@,
                caller,
                id,
            ),
            match r {
                Ok(receipt) => {
                    &&& receipt.id == id
                    &&& self.receipts@.contains(*receipt)
                    &&& may_access_lease(
                        self.leases@,
                        self.properties@,
                        members@,
                        caller,
                        receipt.lease_id,
                    )
                },
                Err(e) => {
                    &&& !may_access_receipt(
                        self.receipts@,
                        self.leases@,
                        self.properties@,
                        members@,
                        caller,
                        id,
                    )
                    &&& e matches AppError::NotFound(m) && m@ == "Receipt not found"@
                },
            },
    {
        match self.locate_receipt(members, caller, id) {
            Some(at) => Ok(&self.receipts[at]),
            None => Err(AppError::NotFound("Receipt not found".to_owned())),
        }
    }
}

} // verus!
