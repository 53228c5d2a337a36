//! The five record kinds, their roles and the error type of every operation.

use crate::store::Record;
use vstd::prelude::*;

verus! {

/// What a user may do: an administrator may update and delete records.
#[derive(Clone, Copy, Debug, PartialEq, Eq, Structural)]
pub enum Role {
    Admin,
    User,
}

/// Why an operation failed; each carries a readable reason.
#[derive(Clone, Debug, PartialEq, Eq)]
pub enum Error {
    NotFound(String),
    InvalidPayload(String),
    Unauthorized(String),
    InternalError(String),
}

#[derive(Clone, Debug, PartialEq, Eq)]
pub struct User {
    pub id: u64,
    pub name: String,
    pub email: String,
    pub phone_number: String,
    pub role: Role,
    pub created_at: u64,
}

#[derive(Clone, Debug, PartialEq, Eq)]
pub struct Plot {
    pub id: u64,
    pub owner_id: u64,
    pub size: String,
    pub location: String,
    pub reserved_until: String,
    pub created_at: u64,
}

#[derive(Clone, Debug, PartialEq, Eq)]
pub struct Activity {
    pub id: u64,
    pub plot_id: u64,
    pub description: String,
    pub date: String,
    pub created_at: u64,
}

#[derive(Clone, Debug, PartialEq, Eq)]
pub struct Resource {
    pub id: u64,
    pub name: String,
    pub quantity: u32,
    pub available: bool,
    pub created_at: u64,
}

#[derive(Clone, Debug, PartialEq, Eq)]
pub struct Event {
    pub id: u64,
    pub title: String,
    pub description: String,
    pub date: String,
    pub location: String,
    pub created_at: u64,
}

impl Record for User {
    open spec fn key_of(&self) -> u64 {
        self.id
    }

    fn key(&self) -> (k: u64) {
        self.id
    }

    fn duplicate(&self) -> (r: Self) {
        User {
            id: self.id,
            name: self.name.clone(),
            email: self.email.clone(),
            phone_number: self.phone_number.clone(),
            role: self.role,
            created_at: self.created_at,
        }
    }
}

impl Record for Plot {
    open spec fn key_of(&self) -> u64 {
        self.id
    }

    fn key(&self) -> (k: u64) {
        self.id
    }

    fn duplicate(&self) -> (r: Self) {
        Plot {
            id: self.id,
            owner_id: self.owner_id,
            size: self.size.clone(),
            location: self.location.clone(),
            reserved_until: self.reserved_until.clone(),
            created_at: self.created_at,
        }
    }
}

impl Record for Activity {
    open spec fn key_of(&self) -> u64 {
        self.id
    }

    fn key(&self) -> (k: u64) {
        self.id
    }

    fn duplicate(&self) -> (r: Self) {
        Activity {
            id: self.id,
            plot_id: self.plot_id,
            description: self.description.clone(),
            date: self.date.clone(),
            created_at: self.created_at,
        }
    }
}

impl Record for Resource {
    open spec fn key_of(&self) -> u64 {
        self.id
    }

    fn key(&self) -> (k: u64) {
        self.id
    }

    fn duplicate(&self) -> (r: Self) {
        Resource {
            id: self.id,
            name: self.name.clone(),
            quantity: self.quantity,
            available: self.available,
            created_at: self.created_at,
        }
    }
}

impl Record for Event {
    open spec fn key_of(&self) -> u64 {
        self.id
    }

    fn key(&self) -> (k: u64) {
        self.id
    }

    fn duplicate(&self) -> (r: Self) {
        Event {
            id: self.id,
            title: self.title.clone(),
            description: self.description.clone(),
            date: self.date.clone(),
            location: self.location.clone(),
            created_at: self.created_at,
        }
    }
}

} // verus!
