//! Shared resources: created with a positive quantity; administrator-only
//! update and delete.

use crate::records::{Error, Resource};
use crate::registry::{
    amended, deleted, fetched, keys_at_most, lemma_fresh_key, lemma_removed_at_most,
    lemma_upserted_at_most, listed, or_keep, Registry,
};
use crate::store::{lemma_lookup_at, Record};
use vstd::prelude::*;

verus! {

/// `x` with each field that the update gives replaced.
pub open spec fn resource_amended(
    x: Resource,
    name: Option<String>,
    quantity: Option<u32>,
    available: Option<bool>,
) -> Resource {
    Resource {
        id: x.id,
        name: or_keep(name, x.name),
        quantity: or_keep(quantity, x.quantity),
        available: or_keep(available, x.available),
        created_at: x.created_at,
    }
}

impl Registry {
    /// Records a resource; its quantity must be above zero.
    pub fn create_resource(&mut self, name: String, quantity: u32, available: bool, now: u64) -> (r:
        Result<Resource, Error>)
        requires
            old(self).wf(),
            old(self).can_issue(),
        ensures
            final(self).wf(),
            quantity == 0 ==> (r matches Err(Error::InvalidPayload(_)) && *final(self) == *old(
                self,
            )),
            quantity > 0 ==> ({
                let x = Resource {
                    id: (old(self).last_id + 1) as u64,
                    name,
                    quantity,
                    available,
                    created_at: now,
                };
                &&& r == Ok::<Resource, Error>(x)
                &&& final(self).resources@ == old(self).resources@.push(x)
                &&& final(self).last_id == x.id
                &&& final(self).same_but_resources(old(self))
            }),
    {
        if quantity == 0 {
            return Err(Error::InvalidPayload("Quantity must be greater than zero".to_string()));
        }
        let ghost pre = *self;
        let id = self.next_id();
        let x = Resource { id, name, quantity, available, created_at: now };
        proof {
            lemma_fresh_key(pre.resources@, pre.last_id, x);
        }
        let out = x.duplicate();
        self.resources.insert(x);
        proof {
            assert(keys_at_most(self.users@, self.last_id));
            assert(keys_at_most(self.plots@, self.last_id));
            assert(keys_at_most(self.activities@, self.last_id));
            assert(keys_at_most(self.events@, self.last_id));
        }
        Ok(out)
    }

    /// The resource with identifier `id`.
    pub fn get_resource(&self, id: u64) -> (r: Result<Resource, Error>)
        requires
            self.wf(),
        ensures
            fetched(self.resources@, id, r),
    {
        match self.resources.get(id) {
            Some(x) => Ok(x),
            None => Err(Error::NotFound("Resource not found".to_string())),
        }
    }

    /// Every resource in store order; `NotFound` where there is none.
    pub fn get_all_resources(&self) -> (r: Result<Vec<Resource>, Error>)
        ensures
            listed(self.resources@, r),
    {
        if self.resources.len() == 0 {
            return Err(Error::NotFound("No resources found".to_string()));
        }
        Ok(self.resources.list_all())
    }

    /// Updates the fields of the resource keyed `id` that are given; the
    /// caller must be an administrator. A quantity may drop to zero here.
    pub fn update_resource(
        &mut self,
        id: u64,
        name: Option<String>,
        quantity: Option<u32>,
        available: Option<bool>,
        caller: u64,
    ) -> (r: Result<Resource, Error>)
        requires
            old(self).wf(),
        ensures
            final(self).wf(),
            amended(
                old(self).admin(caller),
                old(self).resources@,
                final(self).resources@,
                id,
                |x: Resource| resource_amended(x, name, quantity, available),
                r,
            ),
            final(self).last_id == old(self).last_id,
            final(self).same_but_resources(old(self)),
    {
        if !self.is_admin(caller) {
            return Err(Error::Unauthorized("Only admins can update resources.".to_string()));
        }
        let i = match self.resources.position(id) {
            Some(i) => i,
            None => {
                return Err(Error::NotFound("Resource not found".to_string()));
            },
        };
        proof {
            lemma_lookup_at(self.resources@, i as int);
        }
        let x = self.resources.at(i);
        let v = Resource {
            id: x.id,
            name: match name {
                Some(n) => n,
                None => x.name.clone(),
            },
            quantity: match quantity {
                Some(q) => q,
                None => x.quantity,
            },
            available: match available {
                Some(b) => b,
                None => x.available,
            },
            created_at: x.created_at,
        };
        proof {
            lemma_upserted_at_most(self.resources@, self.last_id, v);
        }
        let out = v.duplicate();
        self.resources.insert(v);
        Ok(out)
    }

    /// Removes the resource keyed `id` and hands it back; the caller must be
    /// an administrator.
    pub fn delete_resource(&mut self, id: u64, caller: u64) -> (r: Result<Resource, Error>)
        requires
            old(self).wf(),
        ensures
            final(self).wf(),
            deleted(old(self).admin(caller), old(self).resources@, final(self).resources@, id, r),
            final(self).last_id == old(self).last_id,
            final(self).same_but_resources(old(self)),
    {
        if !self.is_admin(caller) {
            return Err(Error::Unauthorized("Only admins can delete resources.".to_string()));
        }
        proof {
            lemma_removed_at_most(self.resources@, self.last_id, id);
        }
        match self.resources.remove(id) {
            Some(x) => Ok(x),
            None => Err(Error::NotFound("Resource not found".to_string())),
        }
    }
}

} // verus!
