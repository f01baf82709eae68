//! The resources of the system and who may act on them.
//!
//! Properties have an owner. Tenants belong to the identity that entered
//! them. A lease inherits the access of its property, and a receipt that of
//! its lease. Deleting a resource deletes what depends on it. To a caller
//! without access a resource is "not found", as if it were absent.

use crate::ids::Id;
use crate::models::lease::Lease;
use crate::models::organization::OrganizationMember;
use crate::models::property::Property;
use crate::models::receipt::Receipt;
use crate::models::tenant::Tenant;
use crate::ownership::may_access;
use crate::seqs::{lemma_filter_keeps_order, lemma_filter_source};
use vstd::prelude::*;

verus! {

/// Whether one of `properties` has the identifier `id`.
pub open spec fn has_property(properties: Seq<Property>, id: Id) -> bool {
    exists|i: int| 0 <= i < properties.len() && (#[trigger] properties[i]).id == id
}

/// Whether one of `tenants` has the identifier `id`.
pub open spec fn has_tenant(tenants: Seq<Tenant>, id: Id) -> bool {
    exists|i: int| 0 <= i < tenants.len() && (#[trigger] tenants[i]).id == id
}

/// Whether one of `leases` has the identifier `id`.
pub open spec fn has_lease(leases: Seq<Lease>, id: Id) -> bool {
    exists|i: int| 0 <= i < leases.len() && (#[trigger] leases[i]).id == id
}

/// Whether one of `receipts` has the identifier `id`.
pub open spec fn has_receipt(receipts: Seq<Receipt>, id: Id) -> bool {
    exists|i: int| 0 <= i < receipts.len() && (#[trigger] receipts[i]).id == id
}

/// Whether one of `receipts` is for the lease and the period given.
pub open spec fn period_taken(receipts: Seq<Receipt>, lease: Id, month: i32, year: i32) -> bool {
    exists|i: int|
        0 <= i < receipts.len() && (#[trigger] receipts[i]).lease_id == lease
            && receipts[i].period_month == month && receipts[i].period_year == year
}

/// Whether `identity` may act on the property `id`: the property exists and
/// the identity owns it, directly or through an organization.
pub open spec fn may_access_property(
    properties: Seq<Property>,
    members: Seq<OrganizationMember>,
    identity: Id,
    id: Id,
) -> bool {
    exists|i: int|
        0 <= i < properties.len() && (#[trigger] properties[i]).id == id && may_access(
            members,
            identity,
            properties[i].owner,
        )
}

/// Whether `identity` may act on the tenant `id`: the tenant exists and is
/// the identity's.
pub open spec fn may_access_tenant(tenants: Seq<Tenant>, identity: Id, id: Id) -> bool {
    exists|i: int|
        0 <= i < tenants.len() && (#[trigger] tenants[i]).id == id && tenants[i].user_id
            == identity
}

/// Whether `identity` may act on the lease `id`: the lease exists and the
/// identity may act on its property.
pub open spec fn may_access_lease(
    leases: Seq<Lease>,
    properties: Seq<Property>,
    members: Seq<OrganizationMember>,
    identity: Id,
    id: Id,
) -> bool {
    exists|i: int|
        0 <= i < leases.len() && (#[trigger] leases[i]).id == id && may_access_property(
            properties,
            members,
            identity,
            leases[i].property_id,
        )
}

/// Whether `identity` may act on the receipt `id`: the receipt exists and the
/// identity may act on its lease.
pub open spec fn may_access_receipt(
    receipts: Seq<Receipt>,
    leases: Seq<Lease>,
    properties: Seq<Property>,
    members: Seq<OrganizationMember>,
    identity: Id,
    id: Id,
) -> bool {
    exists|i: int|
        0 <= i < receipts.len() && (#[trigger] receipts[i]).id == id && may_access_lease(
            leases,
            properties,
            members,
            identity,
            receipts[i].lease_id,
        )
}

/// The leases that stay when the property `property` goes.
pub open spec fn spec_leases_without_property(leases: Seq<Lease>, property: Id) -> Seq<Lease> {
    leases.filter(|l: Lease| l.property_id != property)
}

/// The leases that stay when the tenant `tenant` goes.
pub open spec fn spec_leases_without_tenant(leases: Seq<Lease>, tenant: Id) -> Seq<Lease> {
    leases.filter(|l: Lease| l.tenant_id != tenant)
}

/// The receipts whose lease is among `leases`.
pub open spec fn spec_receipts_of_leases(receipts: Seq<Receipt>, leases: Seq<Lease>) -> Seq<
    Receipt,
> {
    receipts.filter(|r: Receipt| has_lease(leases, r.lease_id))
}

/// Properties, tenants, leases and receipts.
pub struct Portfolio {
    pub properties: Vec<Property>,
    pub tenants: Vec<Tenant>,
    pub leases: Vec<Lease>,
    pub receipts: Vec<Receipt>,
}

/// Whether no two properties share an identifier.
pub open spec fn properties_distinct(properties: Seq<Property>) -> bool {
    forall|i: int, j: int|
        0 <= i < j < properties.len() ==> (#[trigger] properties[i]).id != (
        #[trigger] properties[j]).id
}

/// Whether no two tenants share an identifier.
pub open spec fn tenants_distinct(tenants: Seq<Tenant>) -> bool {
    forall|i: int, j: int|
        0 <= i < j < tenants.len() ==> (#[trigger] tenants[i]).id != (#[trigger] tenants[j]).id
}

/// Whether no two leases share an identifier.
pub open spec fn leases_distinct(leases: Seq<Lease>) -> bool {
    forall|i: int, j: int|
        0 <= i < j < leases.len() ==> (#[trigger] leases[i]).id != (#[trigger] leases[j]).id
}

/// Whether no two receipts share an identifier, nor a lease and a period.
pub open spec fn receipts_distinct(receipts: Seq<Receipt>) -> bool {
    forall|i: int, j: int|
        0 <= i < j < receipts.len() ==> {
            &&& (#[trigger] receipts[i]).id != (#[trigger] receipts[j]).id
            &&& !(receipts[i].lease_id == receipts[j].lease_id && receipts[i].period_month
                == receipts[j].period_month && receipts[i].period_year
                == receipts[j].period_year)
        }
}

/// Whether every lease is one of a property and of a tenant that exist.
pub open spec fn leases_anchored(
    leases: Seq<Lease>,
    properties: Seq<Property>,
    tenants: Seq<Tenant>,
) -> bool {
    forall|i: int|
        0 <= i < leases.len() ==> has_property(properties, (#[trigger] leases[i]).property_id)
            && has_tenant(tenants, leases[i].tenant_id)
}

/// Whether every receipt is one of a lease that exists.
pub open spec fn receipts_anchored(receipts: Seq<Receipt>, leases: Seq<Lease>) -> bool {
    forall|i: int|
        0 <= i < receipts.len() ==> has_lease(leases, (#[trigger] receipts[i]).lease_id)
}

impl Portfolio {
    /// Identifiers are not shared within a kind, a lease has its property
    /// and its tenant, a receipt has its lease, and a lease has at most one
    /// receipt for a period.
    pub open spec fn wf(&self) -> bool {
        &&& properties_distinct(self.properties@)
        &&& tenants_distinct(self.tenants@)
        &&& leases_distinct(self.leases@)
        &&& receipts_distinct(self.receipts@)
        &&& leases_anchored(self.leases@, self.properties@, self.tenants@)
        &&& receipts_anchored(self.receipts@, self.leases@)
    }

    /// A portfolio without resources.
    pub fn new() -> (portfolio: Portfolio)
        ensures
            portfolio.properties@.len() == 0,
            portfolio.tenants@.len() == 0,
            portfolio.leases@.len() == 0,
            portfolio.receipts@.len() == 0,
            portfolio.wf(),
    {
        Portfolio {
            properties: Vec::new(),
            tenants: Vec::new(),
            leases: Vec::new(),
            receipts: Vec::new(),
        }
    }

    /// Whether the portfolio is well formed.
    pub fn is_well_formed(&self) -> (r: bool)
        ensures
            r == self.wf(),
    {
        properties_are_distinct(&self.properties) && tenants_are_distinct(&self.tenants)
            && leases_are_distinct(&self.leases) && receipts_are_distinct(&self.receipts)
            && self.leases_are_anchored() && self.receipts_are_anchored()
    }

    /// Whether every lease has its property and its tenant.
    fn leases_are_anchored(&self) -> (r: bool)
        ensures
            r == leases_anchored(self.leases@, self.properties@, self.tenants@),
    {
        let mut i: usize = 0;
        while i < self.leases.len()
            invariant
                i <= self.leases.len(),
                forall|k: int|
                    0 <= k < i ==> has_property(
                        self.properties@,
                        (#[trigger] self.leases@[k]).property_id,
                    ) && has_tenant(self.tenants@, self.leases@[k].tenant_id),
            decreases self.leases.len() - i,
        {
            if !self.property_exists(self.leases[i].property_id) {
                return false;
            }
            if !has_tenant_with(&self.tenants, self.leases[i].tenant_id) {
                return false;
            }
            i = i + 1;
        }
        true
    }

    /// Whether every receipt has its lease.
    fn receipts_are_anchored(&self) -> (r: bool)
        ensures
            r == receipts_anchored(self.receipts@, self.leases@),
    {
        let mut i: usize = 0;
        while i < self.receipts.len()
            invariant
                i <= self.receipts.len(),
                forall|k: int|
                    0 <= k < i ==> has_lease(self.leases@, (#[trigger] self.receipts@[k]).lease_id),
            decreases self.receipts.len() - i,
        {
            if !lease_exists(&self.leases, self.receipts[i].lease_id) {
                return false;
            }
            i = i + 1;
        }
        true
    }
}

/// Whether one of `tenants` has the identifier `id`.
pub(crate) fn has_tenant_with(tenants: &Vec<Tenant>, id: Id) -> (found: bool)
    ensures
        found == has_tenant(tenants@, id),
{
    let mut i: usize = 0;
    while i < tenants.len()
        invariant
            i <= tenants.len(),
            forall|j: int| 0 <= j < i ==> (#[trigger] tenants@[j]).id != id,
        decreases tenants.len() - i,
    {
        if tenants[i].id == id {
            return true;
        }
        i = i + 1;
    }
    false
}

/// Whether no two properties share an identifier.
fn properties_are_distinct(properties: &Vec<Property>) -> (r: bool)
    ensures
        r == properties_distinct(properties@),
{
    let mut j: usize = 0;
    while j < properties.len()
        invariant
            j <= properties.len(),
            forall|a: int, b: int|
                0 <= a < b < j ==> (#[trigger] properties@[a]).id != (#[trigger] properties@[b]).id,
        decreases properties.len() - j,
    {
        let mut i: usize = 0;
        while i < j
            invariant
                i <= j < properties.len(),
                forall|a: int| 0 <= a < i ==> (#[trigger] properties@[a]).id != properties@[j as int].id,
            decreases j - i,
        {
            if properties[i].id == properties[j].id {
                return false;
            }
            i = i + 1;
        }
        j = j + 1;
    }
    true
}

/// Whether no two tenants share an identifier.
fn tenants_are_distinct(tenants: &Vec<Tenant>) -> (r: bool)
    ensures
        r == tenants_distinct(tenants@),
{
    let mut j: usize = 0;
    while j < tenants.len()
        invariant
            j <= tenants.len(),
            forall|a: int, b: int|
                0 <= a < b < j ==> (#[trigger] tenants@[a]).id != (#[trigger] tenants@[b]).id,
        decreases tenants.len() - j,
    {
        let mut i: usize = 0;
        while i < j
            invariant
                i <= j < tenants.len(),
                forall|a: int| 0 <= a < i ==> (#[trigger] tenants@[a]).id != tenants@[j as int].id,
            decreases j - i,
        {
            if tenants[i].id == tenants[j].id {
                return false;
            }
            i = i + 1;
        }
        j = j + 1;
    }
    true
}

/// Whether no two leases share an identifier.
fn leases_are_distinct(leases: &Vec<Lease>) -> (r: bool)
    ensures
        r == leases_distinct(leases@),
{
    let mut j: usize = 0;
    while j < leases.len()
        invariant
            j <= leases.len(),
            forall|a: int, b: int|
                0 <= a < b < j ==> (#[trigger] leases@[a]).id != (#[trigger] leases@[b]).id,
        decreases leases.len() - j,
    {
        let mut i: usize = 0;
        while i < j
            invariant
                i <= j < leases.len(),
                forall|a: int| 0 <= a < i ==> (#[trigger] leases@[a]).id != leases@[j as int].id,
            decreases j - i,
        {
            if leases[i].id == leases[j].id {
                return false;
            }
            i = i + 1;
        }
        j = j + 1;
    }
    true
}

/// Whether two receipts collide: they share an identifier, or a lease and a
/// period.
pub open spec fn receipts_collide(a: Receipt, b: Receipt) -> bool {
    a.id == b.id || (a.lease_id == b.lease_id && a.period_month == b.period_month
        && a.period_year == b.period_year)
}

/// Whether no two receipts share an identifier, nor a lease and a period.
fn receipts_are_distinct(receipts: &Vec<Receipt>) -> (r: bool)
    ensures
        r == receipts_distinct(receipts@),
{
    let mut j: usize = 0;
    while j < receipts.len()
        invariant
            j <= receipts.len(),
            forall|a: int, b: int|
                0 <= a < b < j ==> !receipts_collide(
                    #[trigger] receipts@[a],
                    #[trigger] receipts@[b],
                ),
        decreases receipts.len() - j,
    {
        let mut i: usize = 0;
        while i < j
            invariant
                i <= j < receipts.len(),
                forall|a: int|
                    0 <= a < i ==> !receipts_collide(#[trigger] receipts@[a], receipts@[j as int]),
            decreases j - i,
        {
            let a = &receipts[i];
            let b = &receipts[j];
            if a.id == b.id || (a.lease_id == b.lease_id && a.period_month == b.period_month
                && a.period_year == b.period_year) {
                assert(receipts_collide(receipts@[i as int], receipts@[j as int]));
                return false;
            }
            i = i + 1;
        }
        j = j + 1;
    }
    assert forall|a: int, b: int| 0 <= a < b < receipts@.len() implies {
        &&& (#[trigger] receipts@[a]).id != (#[trigger] receipts@[b]).id
        &&& !(receipts@[a].lease_id == receipts@[b].lease_id && receipts@[a].period_month
            == receipts@[b].period_month && receipts@[a].period_year
            == receipts@[b].period_year)
    } by {
        assert(!receipts_collide(receipts@[a], receipts@[b]));
    }
    true
}

/// Whether one of `leases` has the identifier `id`.
pub fn lease_exists(leases: &Vec<Lease>, id: Id) -> (found: bool)
    ensures
        found == has_lease(leases@, id),
{
    let mut i: usize = 0;
    while i < leases.len()
        invariant
            i <= leases.len(),
            forall|j: int| 0 <= j < i ==> (#[trigger] leases@[j]).id != id,
        decreases leases.len() - i,
    {
        if leases[i].id == id {
            return true;
        }
        i = i + 1;
    }
    false
}

/// The receipts whose lease is among `leases`.
pub(crate) fn receipts_of_leases(receipts: &Vec<Receipt>, leases: &Vec<Lease>) -> (kept: Vec<
    Receipt,
>)
    ensures
        kept@ == spec_receipts_of_leases(receipts@, leases@),
{
    let ghost keeps = |r: Receipt| has_lease(leases@, r.lease_id);
    let mut kept: Vec<Receipt> = Vec::new();
    let mut i: usize = 0;
    while i < receipts.len()
        invariant
            i <= receipts.len(),
            keeps == |r: Receipt| has_lease(leases@, r.lease_id),
            kept@ == receipts@.take(i as int).filter(keeps),
        decreases receipts.len() - i,
    {
        proof {
            let upto = receipts@.take(i as int);
            assert(receipts@.take(i + 1) =~= upto.push(receipts@[i as int]));
            Seq::lemma_filter_push(upto, receipts@[i as int], keeps);
        }
        if lease_exists(leases, receipts[i].lease_id) {
            kept.push(receipts[i].clone());
        }
        i = i + 1;
    }
    proof {
        assert(receipts@.take(receipts@.len() as int) =~= receipts@);
    }
    kept
}

/// Leases stay anchored when a property is added.
pub(crate) proof fn lemma_more_properties(
    before: Seq<Property>,
    after: Seq<Property>,
    leases: Seq<Lease>,
    tenants: Seq<Tenant>,
)
    requires
        leases_anchored(leases, before, tenants),
        after.len() == before.len() + 1,
        after.drop_last() == before,
    ensures
        leases_anchored(leases, after, tenants),
{
    assert forall|i: int| 0 <= i < leases.len() implies has_property(
        after,
        (#[trigger] leases[i]).property_id,
    ) by {
        let k = choose|k: int|
            0 <= k < before.len() && (#[trigger] before[k]).id == leases[i].property_id;
        assert(after.drop_last()[k] == after[k]);
        assert(after[k].id == leases[i].property_id);
    }
}

/// Filtered leases are distinct and anchored as the leases were.
pub(crate) proof fn lemma_fewer_leases(
    leases: Seq<Lease>,
    keeps: spec_fn(Lease) -> bool,
    properties: Seq<Property>,
    tenants: Seq<Tenant>,
)
    requires
        leases_distinct(leases),
        leases_anchored(leases, properties, tenants),
    ensures
        leases_distinct(leases.filter(keeps)),
        leases_anchored(leases.filter(keeps), properties, tenants),
{
    let kept = leases.filter(keeps);
    assert forall|i: int, j: int| 0 <= i < j < kept.len() implies (#[trigger] kept[i]).id != (
    #[trigger] kept[j]).id by {
        lemma_filter_keeps_order(leases, keeps, i, j);
    }
    assert forall|i: int| 0 <= i < kept.len() implies has_property(
        properties,
        (#[trigger] kept[i]).property_id,
    ) && has_tenant(tenants, kept[i].tenant_id) by {
        lemma_filter_source(leases, keeps, i);
    }
}

/// The receipts of the leases that are left are distinct as the receipts
/// were, and anchored in the leases that are left.
pub(crate) proof fn lemma_fewer_receipts(receipts: Seq<Receipt>, leases: Seq<Lease>)
    requires
        receipts_distinct(receipts),
    ensures
        receipts_distinct(spec_receipts_of_leases(receipts, leases)),
        receipts_anchored(spec_receipts_of_leases(receipts, leases), leases),
{
    let keeps = |r: Receipt| has_lease(leases, r.lease_id);
    let kept = receipts.filter(keeps);
    assert forall|i: int, j: int| 0 <= i < j < kept.len() implies {
        &&& (#[trigger] kept[i]).id != (#[trigger] kept[j]).id
        &&& !(kept[i].lease_id == kept[j].lease_id && kept[i].period_month
            == kept[j].period_month && kept[i].period_year == kept[j].period_year)
    } by {
        lemma_filter_keeps_order(receipts, keeps, i, j);
    }
    assert forall|i: int| 0 <= i < kept.len() implies has_lease(
        leases,
        (#[trigger] kept[i]).lease_id,
    ) by {
        lemma_filter_source(receipts, keeps, i);
    }
}

/// A lease is there for exactly those for whom its property is there.
pub proof fn lease_inherits_access(
    portfolio: Portfolio,
    members: Seq<OrganizationMember>,
    identity: Id,
    at: int,
)
    requires
        portfolio.wf(),
        0 <= at < portfolio.leases@.len(),
    ensures
        may_access_lease(
            portfolio.leases@,
            portfolio.properties@,
            members,
            identity,
            portfolio.leases@[at].id,
        ) == may_access_property(
            portfolio.properties@,
            members,
            identity,
            portfolio.leases@[at].property_id,
        ),
{
    let leases = portfolio.leases@;
    let id = leases[at].id;
    if may_access_lease(leases, portfolio.properties@, members, identity, id) {
        let i = choose|i: int|
            0 <= i < leases.len() && (#[trigger] leases[i]).id == id && may_access_property(
                portfolio.properties@,
                members,
                identity,
                leases[i].property_id,
            );
        assert(i == at);
    }
}

/// A receipt is there for exactly those for whom its lease is there.
pub proof fn receipt_inherits_access(
    portfolio: Portfolio,
    members: Seq<OrganizationMember>,
    identity: Id,
    at: int,
)
    requires
        portfolio.wf(),
        0 <= at < portfolio.receipts@.len(),
    ensures
        may_access_receipt(
            portfolio.receipts@,
            portfolio.leases@,
            portfolio.properties@,
            members,
            identity,
            portfolio.receipts@[at].id,
        ) == may_access_lease(
            portfolio.leases@,
            portfolio.properties@,
            members,
            identity,
            portfolio.receipts@[at].lease_id,
        ),
{
    let receipts = portfolio.receipts@;
    let id = receipts[at].id;
    if may_access_receipt(
        receipts,
        portfolio.leases@,
        portfolio.properties@,
        members,
        identity,
        id,
    ) {
        let i = choose|i: int|
            0 <= i < receipts.len() && (#[trigger] receipts[i]).id == id && may_access_lease(
                portfolio.leases@,
                portfolio.properties@,
                members,
                identity,
                receipts[i].lease_id,
            );
        assert(i == at);
    }
}

/// A property is there for its direct owner, and for the members of the
/// organization that owns it, and for nobody else.
pub proof fn property_follows_the_access_rule(
    portfolio: Portfolio,
    members: Seq<OrganizationMember>,
    identity: Id,
    at: int,
)
    requires
        portfolio.wf(),
        0 <= at < portfolio.properties@.len(),
    ensures
        may_access_property(portfolio.properties@, members, identity, portfolio.properties@[at].id)
            == may_access(members, identity, portfolio.properties@[at].owner),
{
    let properties = portfolio.properties@;
    let id = properties[at].id;
    if may_access_property(properties, members, identity, id) {
        let i = choose|i: int|
            0 <= i < properties.len() && (#[trigger] properties[i]).id == id && may_access(
                members,
                identity,
                properties[i].owner,
            );
        assert(i == at);
    }
}

} // verus!
