//! Activities: each logged against an existing plot; administrator-only
//! update and delete.

use crate::records::{Activity, Error};
use crate::registry::{
    amended, deleted, fetched, keys_at_most, lemma_fresh_key, lemma_removed_at_most,
    lemma_upserted_at_most, listed, or_keep, Registry,
};
use crate::store::{has_key, lemma_lookup_at, Record};
use vstd::prelude::*;

verus! {

/// `a` with each field that the update gives replaced.
pub open spec fn activity_amended(
    a: Activity,
    plot_id: Option<u64>,
    description: Option<String>,
    date: Option<String>,
) -> Activity {
    Activity {
        id: a.id,
        plot_id: or_keep(plot_id, a.plot_id),
        description: or_keep(description, a.description),
        date: or_keep(date, a.date),
        created_at: a.created_at,
    }
}

impl Registry {
    /// Logs an activity on the plot keyed `plot_id`, which must exist.
    pub fn create_activity(&mut self, plot_id: u64, description: String, date: String, now: u64) -> (r:
        Result<Activity, Error>)
        requires
            old(self).wf(),
            old(self).can_issue(),
        ensures
            final(self).wf(),
            !has_key(old(self).plots@, plot_id) ==> (r matches Err(Error::InvalidPayload(_))
                && *final(self) == *old(self)),
            has_key(old(self).plots@, plot_id) ==> ({
                let a = Activity {
                    id: (old(self).last_id + 1) as u64,
                    plot_id,
                    description,
                    date,
                    created_at: now,
                };
                &&& r == Ok::<Activity, Error>(a)
                &&& final(self).activities@ == old(self).activities@.push(a)
                &&& final(self).last_id == a.id
                &&& final(self).same_but_activities(old(self))
            }),
    {
        if !self.plots.contains(plot_id) {
            return Err(Error::InvalidPayload("Plot not found".to_string()));
        }
        let ghost pre = *self;
        let id = self.next_id();
        let a = Activity { id, plot_id, description, date, created_at: now };
        proof {
            lemma_fresh_key(pre.activities@, pre.last_id, a);
        }
        let out = a.duplicate();
        self.activities.insert(a);
        proof {
            assert(keys_at_most(self.users@, self.last_id));
            assert(keys_at_most(self.plots@, self.last_id));
            assert(keys_at_most(self.resources@, self.last_id));
            assert(keys_at_most(self.events@, self.last_id));
        }
        Ok(out)
    }

    /// The activity with identifier `id`.
    pub fn get_activity(&self, id: u64) -> (r: Result<Activity, Error>)
        requires
            self.wf(),
        ensures
            fetched(self.activities@, id, r),
    {
        match self.activities.get(id) {
            Some(a) => Ok(a),
            None => Err(Error::NotFound("Activity not found".to_string())),
        }
    }

    /// Every activity in store order; `NotFound` where there is none.
    pub fn get_all_activities(&self) -> (r: Result<Vec<Activity>, Error>)
        ensures
            listed(self.activities@, r),
    {
        if self.activities.len() == 0 {
            return Err(Error::NotFound("No activities found".to_string()));
        }
        Ok(self.activities.list_all())
    }

    /// Updates the fields of the activity keyed `id` that are given; the
    /// caller must be an administrator.
    pub fn update_activity(
        &mut self,
        id: u64,
        plot_id: Option<u64>,
        description: Option<String>,
        date: Option<String>,
        caller: u64,
    ) -> (r: Result<Activity, Error>)
        requires
            old(self).wf(),
        ensures
            final(self).wf(),
            amended(
                old(self).admin(caller),
                old(self).activities@,
                final(self).activities@,
                id,
                |a: Activity| activity_amended(a, plot_id, description, date),
                r,
            ),
            final(self).last_id == old(self).last_id,
            final(self).same_but_activities(old(self)),
    {
        if !self.is_admin(caller) {
            return Err(Error::Unauthorized("Only admins can update activities.".to_string()));
        }
        let i = match self.activities.position(id) {
            Some(i) => i,
            None => {
                return Err(Error::NotFound("Activity not found".to_string()));
            },
        };
        proof {
            lemma_lookup_at(self.activities@, i as int);
        }
        let a = self.activities.at(i);
        let v = Activity {
            id: a.id,
            plot_id: match plot_id {
                Some(x) => x,
                None => a.plot_id,
            },
            description: match description {
                Some(x) => x,
                None => a.description.clone(),
            },
            date: match date {
                Some(x) => x,
                None => a.date.clone(),
            },
            created_at: a.created_at,
        };
        proof {
            lemma_upserted_at_most(self.activities@, self.last_id, v);
        }
        let out = v.duplicate();
        self.activities.insert(v);
        Ok(out)
    }

    /// Removes the activity keyed `id` and hands it back; the caller must be
    /// an administrator.
    pub fn delete_activity(&mut self, id: u64, caller: u64) -> (r: Result<Activity, Error>)
        requires
            old(self).wf(),
        ensures
            final(self).wf(),
            deleted(old(self).admin(caller), old(self).activities@, final(self).activities@, id, r),
            final(self).last_id == old(self).last_id,
            final(self).same_but_activities(old(self)),
    {
        if !self.is_admin(caller) {
            return Err(Error::Unauthorized("Only admins can delete activities.".to_string()));
        }
        proof {
            lemma_removed_at_most(self.activities@, self.last_id, id);
        }
        match self.activities.remove(id) {
            Some(a) => Ok(a),
            None => Err(Error::NotFound("Activity not found".to_string())),
        }
    }
}

} // verus!
