//! Tenants: kept by, and visible to, the identity that entered them.

use crate::error::AppError;
use crate::ids::Id;
use crate::models::lease::Lease;
use crate::models::receipt::Receipt;
use crate::models::tenant::{CreateTenant, Tenant};
use crate::portfolio::{
    has_tenant, has_tenant_with, lemma_fewer_leases, lemma_fewer_receipts, may_access_tenant, receipts_of_leases,
    spec_leases_without_tenant, spec_receipts_of_leases, Portfolio,
};
use crate::seqs::lemma_filter_source;
use crate::text::{not_found, spec_not_found};
use vstd::prelude::*;

verus! {

/// The tenants of an identity, in the order they were entered.
pub open spec fn spec_tenants_of(tenants: Seq<Tenant>, identity: Id) -> Seq<Tenant> {
    tenants.filter(|t: Tenant| t.user_id == identity)
}

/// The tenant made of the fields given for `owner`.
pub open spec fn spec_tenant(id: Id, owner: Id, fields: CreateTenant, created_at: i64, now: i64)
    -> Tenant {
    Tenant {
        id,
        user_id: owner,
        name: fields.name,
        email: fields.email,
        phone: fields.phone,
        address: fields.address,
        birth_date: fields.birth_date,
        birth_place: fields.birth_place,
        notes: fields.notes,
        created_at,
        updated_at: now,
    }
}

impl Portfolio {
    /// Where the tenant `id` stands, if it is `identity`'s.
    pub fn locate_tenant(&self, identity: Id, id: Id) -> (r: Option<usize>)
        ensures
            match r {
                Some(at) => at < self.tenants@.len() && self.tenants@[at as int].id == id
                    && self.tenants@[at as int].user_id == identity,
                None => !may_access_tenant(self.tenants@, identity, id),
            },
    {
        let mut i: usize = 0;
        while i < self.tenants.len()
            invariant
                i <= self.tenants.len(),
                forall|j: int|
                    0 <= j < i ==> !((#[trigger] self.tenants@[j]).id == id
                        && self.tenants@[j].user_id == identity),
            decreases self.tenants.len() - i,
        {
            if self.tenants[i].id == id && self.tenants[i].user_id == identity {
                return Some(i);
            }
            i = i + 1;
        }
        None
    }

    /// Whether a tenant has the identifier `id`.
    pub fn tenant_exists(&self, id: Id) -> (found: bool)
        ensures
            found == has_tenant(self.tenants@, id),
    {
        has_tenant_with(&self.tenants, id)
    }

    /// The caller's tenants.
    pub fn list_tenants(&self, caller: Id) -> (listed: Vec<Tenant>)
        ensures
            listed@ == spec_tenants_of(self.tenants@, caller),
    {
        let ghost keeps = |t: Tenant| t.user_id == caller;
        let mut listed: Vec<Tenant> = Vec::new();
        let mut i: usize = 0;
        while i < self.tenants.len()
            invariant
                i <= self.tenants.len(),
                keeps == |t: Tenant| t.user_id == caller,
                listed@ == self.tenants@.take(i as int).filter(keeps),
            decreases self.tenants.len() - i,
        {
            proof {
                let upto = self.tenants@.take(i as int);
                assert(self.tenants@.take(i + 1) =~= upto.push(self.tenants@[i as int]));
                Seq::lemma_filter_push(upto, self.tenants@[i as int], keeps);
            }
            if self.tenants[i].user_id == caller {
                listed.push(self.tenants[i].clone());
            }
            i = i + 1;
        }
        proof {
            assert(self.tenants@.take(self.tenants@.len() as int) =~= self.tenants@);
        }
        listed
    }

    /// Enters a tenant for the caller. The store refuses a tenant whose
    /// identifier is taken, and is then unchanged.
    pub fn create_tenant(&mut self, caller: Id, id: Id, fields: CreateTenant, now: i64) -> (r:
        Result<Tenant, AppError>)
        requires
            old(self).wf(),
        ensures
            final(self).wf(),
            final(self).properties@ == old(self).properties@,
            final(self).leases@ == old(self).leases@,
            final(self).receipts@ == old(self).receipts@,
            match r {
                Ok(tenant) => {
                    &&& !has_tenant(old(self).tenants@, id)
                    &&& tenant == spec_tenant(id, caller, fields, now, now)
                    &&& final(self).tenants@ == old(self).tenants@.push(tenant)
                },
                Err(e) => {
                    &&& e == AppError::Database
                    &&& has_tenant(old(self).tenants@, id)
                    &&& final(self).tenants@ == old(self).tenants@
                },
            },
    {
        if self.tenant_exists(id) {
            return Err(AppError::Database);
        }
        let tenant = Tenant {
            id,
            user_id: caller,
            name: fields.name,
            email: fields.email,
            phone: fields.phone,
            address: fields.address,
            birth_date: fields.birth_date,
            birth_place: fields.birth_place,
            notes: fields.notes,
            created_at: now,
            updated_at: now,
        };
        let copy: Tenant = tenant.clone();
        self.tenants.push(tenant);
        proof {
            let before = old(self).tenants@;
            let after = self.tenants@;
            assert forall|i: int| 0 <= i < self.leases@.len() implies has_tenant(
                after,
                (#[trigger] self.leases@[i]).tenant_id,
            ) by {
                let k = choose|k: int|
                    0 <= k < before.len() && (#[trigger] before[k]).id
                        == self.leases@[i].tenant_id;
                assert(after[k].id == self.leases@[i].tenant_id);
            }
        }
        Ok(copy)
    }

    /// The tenant `id`, if it is the caller's; else "not found".
    pub fn get_tenant(&self, caller: Id, id: Id) -> (r: Result<&Tenant, AppError>)
        ensures
            r is Ok <==> may_access_tenant(self.tenants@, caller, id),
            match r {
                Ok(tenant) => {
                    &&& tenant.id == id
                    &&& tenant.user_id == caller
                    &&& self.tenants@.contains(*tenant)
                },
                Err(e) => {
                    &&& !may_access_tenant(self.tenants@, caller, id)
                    &&& e matches AppError::NotFound(m) && m@ == spec_not_found("Tenant"@, id)
                },
            },
    {
        match self.locate_tenant(caller, id) {
            Some(at) => Ok(&self.tenants[at]),
            None => Err(AppError::NotFound(not_found("Tenant", id))),
        }
    }

    /// Replaces the fields of a tenant of the caller's. The tenant stays the
    /// caller's.
    pub fn update_tenant(&mut self, caller: Id, id: Id, fields: CreateTenant, now: i64) -> (r:
        Result<Tenant, AppError>)
        requires
            old(self).wf(),
        ensures
            final(self).wf(),
            final(self).properties@ == old(self).properties@,
            final(self).leases@ == old(self).leases@,
            final(self).receipts@ == old(self).receipts@,
            match r {
                Ok(tenant) => exists|at: int|
                    {
                        &&& 0 <= at < old(self).tenants@.len()
                        &&& (#[trigger] old(self).tenants@[at]).id == id
                        &&& old(self).tenants@[at].user_id == caller
                        &&& tenant == spec_tenant(
                            id,
                            caller,
                            fields,
                            old(self).tenants@[at].created_at,
                            now,
                        )
                        &&& final(self).tenants@ == old(self).tenants@.update(at, tenant)
                    },
                Err(e) => {
                    &&& !may_access_tenant(old(self).tenants@, caller, id)
                    &&& e matches AppError::NotFound(m) && m@ == spec_not_found("Tenant"@, id)
                    &&& final(self).tenants@ == old(self).tenants@
                },
            },
    {
        let at: usize = match self.locate_tenant(caller, id) {
            Some(at) => at,
            None => {
                return Err(AppError::NotFound(not_found("Tenant", id)));
            },
        };
        let tenant = Tenant {
            id,
            user_id: caller,
            name: fields.name,
            email: fields.email,
            phone: fields.phone,
            address: fields.address,
            birth_date: fields.birth_date,
            birth_place: fields.birth_place,
            notes: fields.notes,
            created_at: self.tenants[at].created_at,
            updated_at: now,
        };
        let copy: Tenant = tenant.clone();
        self.tenants.set(at, tenant);
        proof {
            let before = old(self).tenants@;
            let after = self.tenants@;
            assert(before[at as int].id == id);
            assert forall|i: int| 0 <= i < self.leases@.len() implies has_tenant(
                after,
                (#[trigger] self.leases@[i]).tenant_id,
            ) by {
                let k = choose|k: int|
                    0 <= k < before.len() && (#[trigger] before[k]).id
                        == self.leases@[i].tenant_id;
                assert(after[k].id == self.leases@[i].tenant_id);
            }
        }
        Ok(copy)
    }

    /// Deletes a tenant of the caller's, with its leases and their receipts.
    pub fn delete_tenant(&mut self, caller: Id, id: Id) -> (r: Result<(), AppError>)
        requires
            old(self).wf(),
        ensures
            final(self).wf(),
            final(self).properties@ == old(self).properties@,
            match r {
                Ok(()) => exists|at: int|
                    {
                        &&& 0 <= at < old(self).tenants@.len()
                        &&& (#[trigger] old(self).tenants@[at]).id == id
                        &&& old(self).tenants@[at].user_id == caller
                        &&& final(self).tenants@ == old(self).tenants@.remove(at)
                        &&& !has_tenant(final(self).tenants@, id)
                        &&& final(self).leases@ == spec_leases_without_tenant(
                            old(self).leases@,
                            id,
                        )
                        &&& final(self).receipts@ == spec_receipts_of_leases(
                            old(self).receipts@,
                            final(self).leases@,
                        )
                    },
                Err(e) => {
                    &&& !may_access_tenant(old(self).tenants@, caller, id)
                    &&& e matches AppError::NotFound(m) && m@ == spec_not_found("Tenant"@, id)
                    &&& final(self).tenants@ == old(self).tenants@
                    &&& final(self).leases@ == old(self).leases@
                    &&& final(self).receipts@ == old(self).receipts@
                },
            },
    {
        let at: usize = match self.locate_tenant(caller, id) {
            Some(at) => at,
            None => {
                return Err(AppError::NotFound(not_found("Tenant", id)));
            },
        };
        let leases: Vec<Lease> = leases_without_tenant(&self.leases, id);
        let receipts: Vec<Receipt> = receipts_of_leases(&self.receipts, &leases);
        proof {
            lemma_fewer_leases(
                old(self).leases@,
                |l: Lease| l.tenant_id != id,
                old(self).properties@,
                old(self).tenants@,
            );
            lemma_fewer_receipts(old(self).receipts@, leases@);
        }
        self.leases = leases;
        self.receipts = receipts;
        self.tenants.remove(at);
        proof {
            let before = old(self).tenants@;
            let after = self.tenants@;
            assert(!has_tenant(after, id)) by {
                if has_tenant(after, id) {
                    let k = choose|k: int| 0 <= k < after.len() && (#[trigger] after[k]).id == id;
                    if k < at {
                        assert(before[k].id == before[at as int].id);
                    } else {
                        assert(before[k + 1].id == before[at as int].id);
                    }
                }
            }
            assert forall|i: int| 0 <= i < self.leases@.len() implies has_tenant(
                after,
                (#[trigger] self.leases@[i]).tenant_id,
            ) by {
                lemma_filter_source(old(self).leases@, |l: Lease| l.tenant_id != id, i);
                let k = choose|k: int|
                    0 <= k < before.len() && (#[trigger] before[k]).id
                        == self.leases@[i].tenant_id;
                if k < at {
                    assert(after[k].id == self.leases@[i].tenant_id);
                } else {
                    assert(after[k - 1].id == self.leases@[i].tenant_id);
                }
            }
        }
        Ok(())
    }
}

/// The leases that stay when a tenant goes.
fn leases_without_tenant(leases: &Vec<Lease>, tenant: Id) -> (kept: Vec<Lease>)
    ensures
        kept@ == spec_leases_without_tenant(leases@, tenant),
{
    let ghost keeps = |l: Lease| l.tenant_id != tenant;
    let mut kept: Vec<Lease> = Vec::new();
    let mut i: usize = 0;
    while i < leases.len()
        invariant
            i <= leases.len(),
            keeps == |l: Lease| l.tenant_id != tenant,
            kept@ == leases@.take(i as int).filter(keeps),
        decreases leases.len() - i,
    {
        proof {
            let upto = leases@.take(i as int);
            assert(leases@.take(i + 1) =~= upto.push(leases@[i as int]));
            Seq::lemma_filter_push(upto, leases@[i as int], keeps);
        }
        if leases[i].tenant_id != tenant {
            kept.push(leases[i].clone());
        }
        i = i + 1;
    }
    proof {
        assert(leases@.take(leases@.len() as int) =~= leases@);
    }
    kept
}

} // verus!
