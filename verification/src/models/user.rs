//! Identities and what a request says of them.

use crate::dates::Date;
use crate::ids::Id;
use vstd::prelude::*;

verus! {

/// A registered identity.
#[derive(Debug)]
pub struct User {
    pub id: Id,
    /// Lower case; no two identities share one.
    pub email: String,
    /// The password's digest. It is never shown to a caller.
    pub password_hash: String,
    pub name: String,
    pub address: String,
    pub phone: Option<String>,
    pub birth_date: Option<Date>,
    pub birth_place: Option<String>,
    /// Seconds since the epoch.
    pub created_at: Option<i64>,
    pub updated_at: Option<i64>,
}

impl Clone for User {
    fn clone(&self) -> (copy: Self)
        ensures
            copy == *self,
    {
        User {
            id: self.id,
            email: self.email.clone(),
            password_hash: self.password_hash.clone(),
            name: self.name.clone(),
            address: self.address.clone(),
            phone: self.phone.clone(),
            birth_date: self.birth_date,
            birth_place: self.birth_place.clone(),
            created_at: self.created_at,
            updated_at: self.updated_at,
        }
    }
}

/// An identity about to be stored: the checked form of a registration.
#[derive(Debug)]
pub struct CreateUser {
    pub email: String,
    pub password: String,
    pub name: String,
    pub address: String,
    pub phone: Option<String>,
    pub birth_date: Option<Date>,
    pub birth_place: Option<String>,
}

/// What a caller presents to log in.
#[derive(Debug)]
pub struct LoginCredentials {
    pub email: String,
    pub password: String,
}

/// What a caller presents to register.
#[derive(Debug)]
pub struct RegisterRequest {
    pub email: String,
    pub password: String,
    pub name: String,
    pub address: String,
    pub phone: Option<String>,
    /// Year, month and day with hyphens between.
    pub birth_date: Option<String>,
    pub birth_place: Option<String>,
}

/// The answer to a registration or a login.
#[derive(Debug)]
pub struct AuthResponse {
    pub token: String,
    pub user: User,
}

} // verus!
