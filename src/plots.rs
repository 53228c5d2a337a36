//! Plots: each created for an existing user; administrator-only update and
//! delete.

use crate::records::{Error, Plot};
use crate::registry::{
    amended, deleted, fetched, keys_at_most, lemma_fresh_key, lemma_removed_at_most,
    lemma_upserted_at_most, listed, or_keep, Registry,
};
use crate::store::{has_key, lemma_lookup_at, Record};
use vstd::prelude::*;

verus! {

/// `p` with each field that the update gives replaced.
pub open spec fn plot_amended(
    p: Plot,
    owner_id: Option<u64>,
    size: Option<String>,
    location: Option<String>,
    reserved_until: Option<String>,
) -> Plot {
    Plot {
        id: p.id,
        owner_id: or_keep(owner_id, p.owner_id),
        size: or_keep(size, p.size),
        location: or_keep(location, p.location),
        reserved_until: or_keep(reserved_until, p.reserved_until),
        created_at: p.created_at,
    }
}

impl Registry {
    /// Creates a plot owned by the user keyed `owner_id`, which must exist.
    pub fn create_plot(
        &mut self,
        owner_id: u64,
        size: String,
        location: String,
        reserved_until: String,
        now: u64,
    ) -> (r: Result<Plot, Error>)
        requires
            old(self).wf(),
            old(self).can_issue(),
        ensures
            final(self).wf(),
            !has_key(old(self).users@, owner_id) ==> (r matches Err(Error::InvalidPayload(_))
                && *final(self) == *old(self)),
            has_key(old(self).users@, owner_id) ==> ({
                let p = Plot {
                    id: (old(self).last_id + 1) as u64,
                    owner_id,
                    size,
                    location,
                    reserved_until,
                    created_at: now,
                };
                &&& r == Ok::<Plot, Error>(p)
                &&& final(self).plots@ == old(self).plots@.push(p)
                &&& final(self).last_id == p.id
                &&& final(self).same_but_plots(old(self))
            }),
    {
        if !self.users.contains(owner_id) {
            return Err(Error::InvalidPayload("Owner not found".to_string()));
        }
        let ghost pre = *self;
        let id = self.next_id();
        let p = Plot { id, owner_id, size, location, reserved_until, created_at: now };
        proof {
            lemma_fresh_key(pre.plots@, pre.last_id, p);
        }
        let out = p.duplicate();
        self.plots.insert(p);
        proof {
            assert(keys_at_most(self.users@, self.last_id));
            assert(keys_at_most(self.activities@, self.last_id));
            assert(keys_at_most(self.resources@, self.last_id));
            assert(keys_at_most(self.events@, self.last_id));
        }
        Ok(out)
    }

    /// The plot with identifier `id`.
    pub fn get_plot(&self, id: u64) -> (r: Result<Plot, Error>)
        requires
            self.wf(),
        ensures
            fetched(self.plots@, id, r),
    {
        match self.plots.get(id) {
            Some(p) => Ok(p),
            None => Err(Error::NotFound("Plot not found".to_string())),
        }
    }

    /// Every plot in store order; `NotFound` where there is none.
    pub fn get_all_plots(&self) -> (r: Result<Vec<Plot>, Error>)
        ensures
            listed(self.plots@, r),
    {
        if self.plots.len() == 0 {
            return Err(Error::NotFound("No plots found".to_string()));
        }
        Ok(self.plots.list_all())
    }

    /// Updates the fields of the plot keyed `id` that are given; the caller
    /// must be an administrator.
    pub fn update_plot(
        &mut self,
        id: u64,
        owner_id: Option<u64>,
        size: Option<String>,
        location: Option<String>,
        reserved_until: Option<String>,
        caller: u64,
    ) -> (r: Result<Plot, Error>)
        requires
            old(self).wf(),
        ensures
            final(self).wf(),
            amended(
                old(self).admin(caller),
                old(self).plots@,
                final(self).plots@,
                id,
                |p: Plot| plot_amended(p, owner_id, size, location, reserved_until),
                r,
            ),
            final(self).last_id == old(self).last_id,
            final(self).same_but_plots(old(self)),
    {
        if !self.is_admin(caller) {
            return Err(Error::Unauthorized("Only admins can update plots.".to_string()));
        }
        let i = match self.plots.position(id) {
            Some(i) => i,
            None => {
                return Err(Error::NotFound("Plot not found".to_string()));
            },
        };
        proof {
            lemma_lookup_at(self.plots@, i as int);
        }
        let p = self.plots.at(i);
        let v = Plot {
            id: p.id,
            owner_id: match owner_id {
                Some(x) => x,
                None => p.owner_id,
            },
            size: match size {
                Some(x) => x,
                None => p.size.clone(),
            },
            location: match location {
                Some(x) => x,
                None => p.location.clone(),
            },
            reserved_until: match reserved_until {
                Some(x) => x,
                None => p.reserved_until.clone(),
            },
            created_at: p.created_at,
        };
        proof {
            lemma_upserted_at_most(self.plots@, self.last_id, v);
        }
        let out = v.duplicate();
        self.plots.insert(v);
        Ok(out)
    }

    /// Removes the plot keyed `id` and hands it back; the caller must be an
    /// administrator. Activities on the plot are kept.
    pub fn delete_plot(&mut self, id: u64, caller: u64) -> (r: Result<Plot, Error>)
        requires
            old(self).wf(),
        ensures
            final(self).wf(),
            deleted(old(self).admin(caller), old(self).plots@, final(self).plots@, id, r),
            final(self).last_id == old(self).last_id,
            final(self).same_but_plots(old(self)),
    {
        if !self.is_admin(caller) {
            return Err(Error::Unauthorized("Only admins can delete plots.".to_string()));
        }
        proof {
            lemma_removed_at_most(self.plots@, self.last_id, id);
        }
        match self.plots.remove(id) {
            Some(p) => Ok(p),
            None => Err(Error::NotFound("Plot not found".to_string())),
        }
    }
}

} // verus!
