//! Properties: a property is there for its owner, and through an
//! organization for the organization's members.

use crate::error::AppError;
use crate::ids::Id;
use crate::models::lease::Lease;
use crate::models::organization::OrganizationMember;
use crate::models::property::{CreateProperty, Owner, Property};
use crate::models::receipt::Receipt;
use crate::ownership::{authorize, may_access, spec_visible, visible_properties, Access};
use crate::portfolio::{
    has_property, lemma_fewer_leases, lemma_fewer_receipts, lemma_more_properties,
    may_access_property, receipts_of_leases, spec_leases_without_property,
    spec_receipts_of_leases, Portfolio,
};
use crate::seqs::lemma_filter_source;
use crate::text::{not_found, spec_not_found};
use vstd::prelude::*;

verus! {

/// The property made of the fields given for `caller`, at `now`.
pub open spec fn spec_property(
    id: Id,
    caller: Id,
    fields: CreateProperty,
    created_at: Option<i64>,
    now: i64,
) -> Property {
    Property {
        id,
        owner: Owner::spec_assign(caller, fields.organization_id),
        address: fields.address,
        property_type: fields.property_type,
        furnished: fields.furnished,
        surface_area: fields.surface_area,
        rooms: fields.rooms,
        max_occupants: fields.max_occupants,
        description: fields.description,
        created_at,
        updated_at: Some(now),
    }
}

impl Portfolio {
    /// Where the property `id` stands, if `identity` may act on it.
    pub fn locate_property(
        &self,
        members: &Vec<OrganizationMember>,
        identity: Id,
        id: Id,
    ) -> (r: Option<usize>)
        ensures
            match r {
                Some(at) => at < self.properties@.len() && self.properties@[at as int].id == id
                    && may_access(members@, identity, self.properties@[at as int].owner),
                None => !may_access_property(self.properties@, members@, identity, id),
            },
    {
        let mut i: usize = 0;
        while i < self.properties.len()
            invariant
                i <= self.properties.len(),
                forall|j: int|
                    0 <= j < i ==> !((#[trigger] self.properties@[j]).id == id && may_access(
                        members@,
                        identity,
                        self.properties@[j].owner,
                    )),
            decreases self.properties.len() - i,
        {
            if self.properties[i].id == id && authorize(members, identity, self.properties[i].owner)
                == Access::Grant {
                return Some(i);
            }
            i = i + 1;
        }
        None
    }

    /// Whether a property has the identifier `id`.
    pub fn property_exists(&self, id: Id) -> (found: bool)
        ensures
            found == has_property(self.properties@, id),
    {
        let mut i: usize = 0;
        while i < self.properties.len()
            invariant
                i <= self.properties.len(),
                forall|j: int| 0 <= j < i ==> (#[trigger] self.properties@[j]).id != id,
            decreases self.properties.len() - i,
        {
            if self.properties[i].id == id {
                return true;
            }
            i = i + 1;
        }
        false
    }

    /// Creates a property. It belongs to the organization that the request
    /// names, or else to the caller. The store refuses a property whose
    /// identifier is taken, and is then unchanged.
    pub fn create_property(&mut self, caller: Id, id: Id, fields: CreateProperty, now: i64) -> (r:
        Result<Property, AppError>)
        requires
            old(self).wf(),
        ensures
            final(self).wf(),
            final(self).tenants@ == old(self).tenants@,
            final(self).leases@ == old(self).leases@,
            final(self).receipts@ == old(self).receipts@,
            match r {
                Ok(property) => {
                    &&& !has_property(old(self).properties@, id)
                    &&& property == spec_property(id, caller, fields, Some(now), now)
                    &&& final(self).properties@ == old(self).properties@.push(property)
                },
                Err(e) => {
                    &&& e == AppError::Database
                    &&& has_property(old(self).properties@, id)
                    &&& final(self).properties@ == old(self).properties@
                },
            },
    {
        if self.property_exists(id) {
            return Err(AppError::Database);
        }
        let property = Property {
            id,
            owner: Owner::assign(caller, fields.organization_id),
            address: fields.address,
            property_type: fields.property_type,
            furnished: fields.furnished,
            surface_area: fields.surface_area,
            rooms: fields.rooms,
            max_occupants: fields.max_occupants,
            description: fields.description,
            created_at: Some(now),
            updated_at: Some(now),
        };
        let copy: Property = property.clone();
        self.properties.push(property);
        proof {
            assert(self.properties@.drop_last() =~= old(self).properties@);
            lemma_more_properties(
                old(self).properties@,
                self.properties@,
                self.leases@,
                self.tenants@,
            );
        }
        Ok(copy)
    }

    /// The property `id`, if the caller may act on it; else "not found".
    pub fn get_property(&self, members: &Vec<OrganizationMember>, caller: Id, id: Id) -> (r: Result<
        &Property,
        AppError,
    >)
        ensures
            r is Ok <==> may_access_property(self.properties@, members@, caller, id),
            match r {
                Ok(property) => {
                    &&& property.id == id
                    &&& self.properties@.contains(*property)
                    &&& may_access(members@, caller, property.owner)
                },
                Err(e) => {
                    &&& !may_access_property(self.properties@, members@, caller, id)
                    &&& e matches AppError::NotFound(m) && m@ == spec_not_found("Property"@, id)
                },
            },
    {
        match self.locate_property(members, caller, id) {
            Some(at) => Ok(&self.properties[at]),
            None => Err(AppError::NotFound(not_found("Property", id))),
        }
    }

    /// The properties that the caller may act on: those it owns directly and
    /// those of its organizations, each once.
    pub fn list_properties(&self, members: &Vec<OrganizationMember>, caller: Id) -> (listed: Vec<
        Property,
    >)
        ensures
            listed@ == spec_visible(self.properties@, members@, caller),
    {
        visible_properties(&self.properties, members, caller)
    }

    /// Replaces the fields of a property that the caller may act on, and
    /// assigns its owner anew: the organization that the request names, or
    /// else the caller.
    pub fn update_property(
        &mut self,
        members: &Vec<OrganizationMember>,
        caller: Id,
        id: Id,
        fields: CreateProperty,
        now: i64,
    ) -> (r: Result<Property, AppError>)
        requires
            old(self).wf(),
        ensures
            final(self).wf(),
            final(self).tenants@ == old(self).tenants@,
            final(self).leases@ == old(self).leases@,
            final(self).receipts@ == old(self).receipts@,
            match r {
                Ok(property) => exists|at: int|
                    {
                        &&& 0 <= at < old(self).properties@.len()
                        &&& (#[trigger] old(self).properties@[at]).id == id
                        &&& may_access(members@, caller, old(self).properties@[at].owner)
                        &&& property == spec_property(
                            id,
                            caller,
                            fields,
                            old(self).properties@[at].created_at,
                            now,
                        )
                        &&& final(self).properties@ == old(self).properties@.update(at, property)
                    },
                Err(e) => {
                    &&& !may_access_property(old(self).properties@, members@, caller, id)
                    &&& e matches AppError::NotFound(m) && m@ == spec_not_found("Property"@, id)
                    &&& final(self).properties@ == old(self).properties@
                },
            },
    {
        let at: usize = match self.locate_property(members, caller, id) {
            Some(at) => at,
            None => {
                return Err(AppError::NotFound(not_found("Property", id)));
            },
        };
        let property = Property {
            id,
            owner: Owner::assign(caller, fields.organization_id),
            address: fields.address,
            property_type: fields.property_type,
            furnished: fields.furnished,
            surface_area: fields.surface_area,
            rooms: fields.rooms,
            max_occupants: fields.max_occupants,
            description: fields.description,
            created_at: self.properties[at].created_at,
            updated_at: Some(now),
        };
        let copy: Property = property.clone();
        self.properties.set(at, property);
        proof {
            let before = old(self).properties@;
            let after = self.properties@;
            assert(before[at as int].id == id);
            assert forall|i: int| 0 <= i < self.leases@.len() implies has_property(
                after,
                (#[trigger] self.leases@[i]).property_id,
            ) by {
                let k = choose|k: int|
                    0 <= k < before.len() && (#[trigger] before[k]).id
                        == self.leases@[i].property_id;
                assert(after[k].id == self.leases@[i].property_id);
            }
        }
        Ok(copy)
    }

    /// Deletes a property that the caller may act on, with its leases and
    /// their receipts.
    pub fn delete_property(&mut self, members: &Vec<OrganizationMember>, caller: Id, id: Id) -> (r:
        Result<(), AppError>)
        requires
            old(self).wf(),
        ensures
            final(self).wf(),
            final(self).tenants@ == old(self).tenants@,
            match r {
                Ok(()) => exists|at: int|
                    {
                        &&& 0 <= at < old(self).properties@.len()
                        &&& (#[trigger] old(self).properties@[at]).id == id
                        &&& may_access(members@, caller, old(self).properties@[at].owner)
                        &&& final(self).properties@ == old(self).properties@.remove(at)
                        &&& !has_property(final(self).properties@, id)
                        &&& final(self).leases@ == spec_leases_without_property(
                            old(self).leases@,
                            id,
                        )
                        &&& final(self).receipts@ == spec_receipts_of_leases(
                            old(self).receipts@,
                            final(self).leases@,
                        )
                    },
                Err(e) => {
                    &&& !may_access_property(old(self).properties@, members@, caller, id)
                    &&& e matches AppError::NotFound(m) && m@ == spec_not_found("Property"@, id)
                    &&& final(self).properties@ == old(self).properties@
                    &&& final(self).leases@ == old(self).leases@
                    &&& final(self).receipts@ == old(self).receipts@
                },
            },
    {
        let at: usize = match self.locate_property(members, caller, id) {
            Some(at) => at,
            None => {
                return Err(AppError::NotFound(not_found("Property", id)));
            },
        };
        let leases: Vec<Lease> = leases_without_property(&self.leases, id);
        let receipts: Vec<Receipt> = receipts_of_leases(&self.receipts, &leases);
        proof {
            lemma_fewer_leases(
                old(self).leases@,
                |l: Lease| l.property_id != id,
                old(self).properties@,
                old(self).tenants@,
            );
            lemma_fewer_receipts(old(self).receipts@, leases@);
        }
        self.leases = leases;
        self.receipts = receipts;
        self.properties.remove(at);
        proof {
            let before = old(self).properties@;
            let after = self.properties@;
            assert(!has_property(after, id)) by {
                if has_property(after, id) {
                    let k = choose|k: int| 0 <= k < after.len() && (#[trigger] after[k]).id == id;
                    if k < at {
                        assert(before[k].id == before[at as int].id);
                    } else {
                        assert(before[k + 1].id == before[at as int].id);
                    }
                }
            }
            assert forall|i: int| 0 <= i < self.leases@.len() implies has_property(
                after,
                (#[trigger] self.leases@[i]).property_id,
            ) by {
                lemma_filter_source(old(self).leases@, |l: Lease| l.property_id != id, i);
                let k = choose|k: int|
                    0 <= k < before.len() && (#[trigger] before[k]).id
                        == self.leases@[i].property_id;
                if k < at {
                    assert(after[k].id == self.leases@[i].property_id);
                } else {
                    assert(after[k - 1].id == self.leases@[i].property_id);
                }
            }
        }
        Ok(())
    }
}

/// The leases that stay when a property goes.
fn leases_without_property(leases: &Vec<Lease>, property: Id) -> (kept: Vec<Lease>)
    ensures
        kept@ == spec_leases_without_property(leases@, property),
{
    let ghost keeps = |l: Lease| l.property_id != property;
    let mut kept: Vec<Lease> = Vec::new();
    let mut i: usize = 0;
    while i < leases.len()
        invariant
            i <= leases.len(),
            keeps == |l: Lease| l.property_id != property,
            kept@ == leases@.take(i as int).filter(keeps),
        decreases leases.len() - i,
    {
        proof {
            let upto = leases@.take(i as int);
            assert(leases@.take(i + 1) =~= upto.push(leases@[i as int]));
            Seq::lemma_filter_push(upto, leases@[i as int], keeps);
        }
        if leases[i].property_id != property {
            kept.push(leases[i].clone());
        }
        i = i + 1;
    }
    proof {
        assert(leases@.take(leases@.len() as int) =~= leases@);
    }
    kept
}

} // verus!
