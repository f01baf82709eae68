//! Properties and who owns them.

use crate::ids::Id;
use vstd::prelude::*;

verus! {

/// The owner of a resource: one identity, or one organization. Never both and
/// never neither.
#[derive(Clone, Copy, Debug, PartialEq, Eq, Structural)]
pub enum Owner {
    Direct(Id),
    Organization(Id),
}

/// A property let to tenants.
#[derive(Debug)]
pub struct Property {
    pub id: Id,
    pub owner: Owner,
    pub address: String,
    pub property_type: String,
    pub furnished: bool,
    /// Square metres, as decimal text.
    pub surface_area: Option<String>,
    pub rooms: Option<i32>,
    pub max_occupants: i32,
    pub description: Option<String>,
    /// Seconds since the epoch.
    pub created_at: Option<i64>,
    pub updated_at: Option<i64>,
}

impl Clone for Property {
    fn clone(&self) -> (copy: Self)
        ensures
            copy == *self,
    {
        Property {
            id: self.id,
            owner: self.owner,
            address: self.address.clone(),
            property_type: self.property_type.clone(),
            furnished: self.furnished,
            surface_area: self.surface_area.clone(),
            rooms: self.rooms,
            max_occupants: self.max_occupants,
            description: self.description.clone(),
            created_at: self.created_at,
            updated_at: self.updated_at,
        }
    }
}

/// The fields of a property to create, or to replace an existing one's with.
#[derive(Debug)]
pub struct CreateProperty {
    /// The organization that is to own the property; absent where the caller
    /// is to own it.
    pub organization_id: Option<Id>,
    pub address: String,
    pub property_type: String,
    pub furnished: bool,
    pub surface_area: Option<String>,
    pub rooms: Option<i32>,
    pub max_occupants: i32,
    pub description: Option<String>,
}

/// The fields of a property to change; an absent field stays as it is.
#[derive(Debug)]
pub struct UpdateProperty {
    pub address: Option<String>,
    pub property_type: Option<String>,
    pub furnished: Option<bool>,
    pub surface_area: Option<String>,
    pub rooms: Option<i32>,
    pub max_occupants: Option<i32>,
    pub description: Option<String>,
}

} // verus!
