//! Leases: a lease is visible to whoever may act on its property.

use crate::dates::Date;
use crate::error::AppError;
use crate::ids::Id;
use crate::models::lease::{CreateLease, Lease};
use crate::models::organization::OrganizationMember;
use crate::models::receipt::Receipt;
use crate::portfolio::{
    has_lease, lease_exists, lemma_fewer_receipts, may_access_lease, may_access_property,
    may_access_tenant, receipts_of_leases, spec_receipts_of_leases, Portfolio,
};
use crate::text::{not_found, spec_not_found};
use vstd::prelude::*;

verus! {

/// Why a lease is not created.
#[derive(Clone, Copy, Debug, PartialEq, Eq, Structural)]
pub enum LeaseFault {
    /// The duration is negative, or the lease would end beyond the calendar.
    InvalidDuration,
    /// The property is not there for the caller.
    NoProperty,
    /// The tenant is not there for the caller.
    NoTenant,
    /// The store refused the lease.
    StoreRefused,
}

/// The last day of a lease: its first day moved on by its duration in
/// months, where the duration is not negative and the calendar has the day.
pub open spec fn spec_end_date(start: Date, months: i32) -> Option<Date> {
    if months < 0 {
        None
    } else {
        start.spec_plus_months(months as u32)
    }
}

/// The last day of a lease.
pub fn end_date(start: Date, months: i32) -> (r: Option<Date>)
    ensures
        r == spec_end_date(start, months),
{
    if months < 0 {
        None
    } else {
        start.plus_months(months as u32)
    }
}

/// The first fault of a lease to create, or none.
pub open spec fn spec_lease_fault(
    portfolio: Portfolio,
    members: Seq<OrganizationMember>,
    caller: Id,
    id: Id,
    fields: CreateLease,
) -> Option<LeaseFault> {
    if spec_end_date(fields.start_date, fields.duration_months) is None {
        Some(LeaseFault::InvalidDuration)
    } else if !may_access_property(portfolio.properties@, members, caller, fields.property_id) {
        Some(LeaseFault::NoProperty)
    } else if !may_access_tenant(portfolio.tenants@, caller, fields.tenant_id) {
        Some(LeaseFault::NoTenant)
    } else if has_lease(portfolio.leases@, id) {
        Some(LeaseFault::StoreRefused)
    } else {
        None
    }
}

/// Whether `e` is the error that reports `fault` for the lease to create.
pub open spec fn spec_lease_error(fault: LeaseFault, fields: CreateLease, e: AppError) -> bool {
    match fault {
        LeaseFault::InvalidDuration => e matches AppError::Validation(m) && m@
            == "Invalid lease duration"@,
        LeaseFault::NoProperty => e matches AppError::NotFound(m) && m@ == spec_not_found(
            "Property"@,
            fields.property_id,
        ),
        LeaseFault::NoTenant => e matches AppError::NotFound(m) && m@ == spec_not_found(
            "Tenant"@,
            fields.tenant_id,
        ),
        LeaseFault::StoreRefused => e == AppError::Database,
    }
}

/// The leases that `identity` sees: those of the properties it may act on,
/// and only those of the property `only` where one is named.
pub open spec fn spec_leases_visible(
    portfolio: Portfolio,
    members: Seq<OrganizationMember>,
    identity: Id,
    only: Option<Id>,
) -> Seq<Lease> {
    portfolio.leases@.filter(
        |l: Lease|
            may_access_property(portfolio.properties@, members, identity, l.property_id) && (
            only is None || only == Some(l.property_id)),
    )
}

/// The receipts that stay when the lease `lease` goes.
pub open spec fn spec_receipts_without_lease(receipts: Seq<Receipt>, lease: Id) -> Seq<Receipt> {
    receipts.filter(|r: Receipt| r.lease_id != lease)
}

impl Portfolio {
    /// Whether `identity` may act on the property `id`.
    pub fn can_access_property(&self, members: &Vec<OrganizationMember>, identity: Id, id: Id) -> (r:
        bool)
        ensures
            r == may_access_property(self.properties@, members@, identity, id),
    {
        self.locate_property(members, identity, id).is_some()
    }

    /// Where the lease `id` stands, if `identity` may act on it.
    pub fn locate_lease(&self, members: &Vec<OrganizationMember>, identity: Id, id: Id) -> (r:
        Option<usize>)
        ensures
            match r {
                Some(at) => at < self.leases@.len() && self.leases@[at as int].id == id
                    && may_access_property(
                    self.properties@,
                    members@,
                    identity,
                    self.leases@[at as int].property_id,
                ),
                None => !may_access_lease(self.leases@, self.properties@, members@, identity, id),
            },
    {
        let mut i: usize = 0;
        while i < self.leases.len()
            invariant
                i <= self.leases.len(),
                forall|j: int|
                    0 <= j < i ==> !((#[trigger] self.leases@[j]).id == id && may_access_property(
                        self.properties@,
                        members@,
                        identity,
                        self.leases@[j].property_id,
                    )),
            decreases self.leases.len() - i,
        {
            if self.leases[i].id == id && self.can_access_property(
                members,
                identity,
                self.leases[i].property_id,
            ) {
                return Some(i);
            }
            i = i + 1;
        }
        None
    }

    /// The leases of the properties that the caller may act on, or those of
    /// one such property where the request names one.
    pub fn list_leases(&self, members: &Vec<OrganizationMember>, caller: Id, only: Option<Id>) -> (listed:
        Vec<Lease>)
        ensures
            listed@ == spec_leases_visible(*self, members@, caller, only),
    {
        let ghost keeps = |l: Lease|
            may_access_property(self.properties@, members@, caller, l.property_id) && (only
                is None || only == Some(l.property_id));
        let mut listed: Vec<Lease> = Vec::new();
        let mut i: usize = 0;
        while i < self.leases.len()
            invariant
                i <= self.leases.len(),
                keeps == |l: Lease|
                    may_access_property(self.properties@, members@, caller, l.property_id) && (
                    only is None || only == Some(l.property_id)),
                listed@ == self.leases@.take(i as int).filter(keeps),
            decreases self.leases.len() - i,
        {
            proof {
                let upto = self.leases@.take(i as int);
                assert(self.leases@.take(i + 1) =~= upto.push(self.leases@[i as int]));
                Seq::lemma_filter_push(upto, self.leases@[i as int], keeps);
            }
            let wanted: bool = match only {
                None => true,
                Some(property) => property == self.leases[i].property_id,
            };
            if wanted && self.can_access_property(members, caller, self.leases[i].property_id) {
                listed.push(self.leases[i].clone());
            }
            i = i + 1;
        }
        proof {
            assert(self.leases@.take(self.leases@.len() as int) =~= self.leases@);
        }
        listed
    }

    /// Creates a lease of a property to a tenant, both of which the caller
    /// may act on. The lease is active and ends its duration after its start.
    /// The first fault is reported and nothing is stored.
    pub fn create_lease(
        &mut self,
        members: &Vec<OrganizationMember>,
        caller: Id,
        id: Id,
        fields: CreateLease,
        now: i64,
    ) -> (r: Result<Lease, AppError>)
        requires
            old(self).wf(),
        ensures
            final(self).wf(),
            final(self).properties@ == old(self).properties@,
            final(self).tenants@ == old(self).tenants@,
            final(self).receipts@ == old(self).receipts@,
            match spec_lease_fault(*old(self), members@, caller, id, fields) {
                Some(fault) => {
                    &&& r matches Err(e) && spec_lease_error(fault, fields, e)
                    &&& final(self).leases@ == old(self).leases@
                },
                None => {
                    &&& r matches Ok(lease) && is_new_lease(lease, id, fields, now)
                    &&& final(self).leases@ == old(self).leases@.push(r->Ok_0)
                },
            },
    {
        let end: Date = match end_date(fields.start_date, fields.duration_months) {
            Some(end) => end,
            None => {
                return Err(AppError::Validation("Invalid lease duration".to_owned()));
            },
        };
        if !self.can_access_property(members, caller, fields.property_id) {
            return Err(AppError::NotFound(not_found("Property", fields.property_id)));
        }
        if self.locate_tenant(caller, fields.tenant_id).is_none() {
            return Err(AppError::NotFound(not_found("Tenant", fields.tenant_id)));
        }
        if lease_exists(&self.leases, id) {
            return Err(AppError::Database);
        }
        let lease = Lease {
            id,
            property_id: fields.property_id,
            tenant_id: fields.tenant_id,
            start_date: fields.start_date,
            end_date: Some(end),
            duration_months: fields.duration_months,
            monthly_rent: fields.monthly_rent,
            charges: fields.charges,
            deposit: fields.deposit,
            rent_revision: fields.rent_revision,
            inventory_date: fields.inventory_date,
            status: "active".to_owned(),
            pdf_path: None,
            created_at: Some(now),
            updated_at: Some(now),
        };
        let copy: Lease = lease.clone();
        self.leases.push(lease);
        proof {
            let before = old(self).leases@;
            let after = self.leases@;
            assert forall|i: int| 0 <= i < self.receipts@.len() implies has_lease(
                after,
                (#[trigger] self.receipts@[i]).lease_id,
            ) by {
                let k = choose|k: int|
                    0 <= k < before.len() && (#[trigger] before[k]).id
                        == self.receipts@[i].lease_id;
                assert(after[k].id == self.receipts@[i].lease_id);
            }
        }
        Ok(copy)
    }

    /// The lease `id`, if the caller may act on its property; else "not
    /// found".
    pub fn get_lease(&self, members: &Vec<OrganizationMember>, caller: Id, id: Id) -> (r: Result<
        &Lease,
        AppError,
    >)
        ensures
            r is Ok <==> may_access_lease(self.leases@, self.properties@, members@, caller, id),
            match r {
                Ok(lease) => {
                    &&& lease.id == id
                    &&& self.leases@.contains(*lease)
                    &&& may_access_property(self.properties@, members@, caller, lease.property_id)
                },
                Err(e) => {
                    &&& !may_access_lease(self.leases@, self.properties@, members@, caller, id)
                    &&& e matches AppError::NotFound(m) && m@ == spec_not_found("Lease"@, id)
                },
            },
    {
        match self.locate_lease(members, caller, id) {
            Some(at) => Ok(&self.leases[at]),
            None => Err(AppError::NotFound(not_found("Lease", id))),
        }
    }

    /// Deletes a lease that the caller may act on, with its receipts.
    pub fn delete_lease(&mut self, members: &Vec<OrganizationMember>, caller: Id, id: Id) -> (r:
        Result<(), AppError>)
        requires
            old(self).wf(),
        ensures
            final(self).wf(),
            final(self).properties@ == old(self).properties@,
            final(self).tenants@ == old(self).tenants@,
            match r {
                Ok(()) => exists|at: int|
                    {
                        &&& 0 <= at < old(self).leases@.len()
                        &&& (#[trigger] old(self).leases@[at]).id == id
                        &&& may_access_property(
                            old(self).properties@,
                            members@,
                            caller,
                            old(self).leases@[at].property_id,
                        )
                        &&& final(self).leases@ == old(self).leases@.remove(at)
                        &&& !has_lease(final(self).leases@, id)
                        &&& final(self).receipts@ == spec_receipts_of_leases(
                            old(self).receipts@,
                            final(self).leases@,
                        )
                        &&& final(self).receipts@ == spec_receipts_without_lease(
                            old(self).receipts@,
                            id,
                        )
                    },
                Err(e) => {
                    &&& !may_access_lease(
                        old(self).leases@,
                        old(self).properties@,
                        members@,
                        caller,
                        id,
                    )
                    &&& e matches AppError::NotFound(m) && m@ == spec_not_found("Lease"@, id)
                    &&& final(self).leases@ == old(self).leases@
                    &&& final(self).receipts@ == old(self).receipts@
                },
            },
    {
        let at: usize = match self.locate_lease(members, caller, id) {
            Some(at) => at,
            None => {
                return Err(AppError::NotFound(not_found("Lease", id)));
            },
        };
        self.leases.remove(at);
        let receipts: Vec<Receipt> = receipts_of_leases(&self.receipts, &self.leases);
        proof {
            lemma_fewer_receipts(old(self).receipts@, self.leases@);
            let before = old(self).leases@;
            let after = self.leases@;
            assert forall|x: Id| #[trigger] has_lease(after, x) == (has_lease(before, x) && x != id) by {
                if has_lease(after, x) {
                    let k = choose|k: int| 0 <= k < after.len() && (#[trigger] after[k]).id == x;
                    if k < at {
                        assert(before[k].id == x);
                    } else {
                        assert(before[k + 1].id == x);
                    }
                }
                if has_lease(before, x) && x != id {
                    let k = choose|k: int| 0 <= k < before.len() && (#[trigger] before[k]).id == x;
                    if k < at {
                        assert(after[k].id == x);
                    } else {
                        assert(after[k - 1].id == x);
                    }
                }
            }
            lemma_same_filter(
                old(self).receipts@,
                |r: Receipt| has_lease(after, r.lease_id),
                |r: Receipt| r.lease_id != id,
            );
        }
        self.receipts = receipts;
        Ok(())
    }
}

/// Whether `lease` is the lease that a sound request creates.
pub open spec fn is_new_lease(lease: Lease, id: Id, fields: CreateLease, now: i64) -> bool {
    &&& lease.id == id
    &&& lease.property_id == fields.property_id
    &&& lease.tenant_id == fields.tenant_id
    &&& lease.start_date == fields.start_date
    &&& lease.end_date == spec_end_date(fields.start_date, fields.duration_months)
    &&& lease.duration_months == fields.duration_months
    &&& lease.monthly_rent == fields.monthly_rent
    &&& lease.charges == fields.charges
    &&& lease.deposit == fields.deposit
    &&& lease.rent_revision == fields.rent_revision
    &&& lease.inventory_date == fields.inventory_date
    &&& lease.status@ == "active"@
    &&& lease.pdf_path is None
    &&& lease.created_at == Some(now)
    &&& lease.updated_at == Some(now)
}

/// Two filters that agree on every element of a sequence that is anchored
/// keep the same elements.
proof fn lemma_same_filter(
    receipts: Seq<Receipt>,
    a: spec_fn(Receipt) -> bool,
    b: spec_fn(Receipt) -> bool,
)
    requires
        forall|i: int| 0 <= i < receipts.len() ==> a(#[trigger] receipts[i]) == b(receipts[i]),
    ensures
        receipts.filter(a) == receipts.filter(b),
    decreases receipts.len(),
{
    reveal(Seq::filter);
    if receipts.len() > 0 {
        lemma_same_filter(receipts.drop_last(), a, b);
    }
}

} // verus!
