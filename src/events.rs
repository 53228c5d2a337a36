//! Community events: title, description, date and location are never empty;
//! administrator-only update and delete.

use crate::records::{Error, Event};
use crate::registry::{
    amended, deleted, fetched, keys_at_most, lemma_fresh_key, lemma_removed_at_most,
    lemma_upserted_at_most, listed, or_keep, Registry,
};
use crate::store::{lemma_lookup_at, Record};
use vstd::prelude::*;

verus! {

/// Whether an update gives this field, and gives it empty.
pub open spec fn given_empty(o: Option<String>) -> bool {
    match o {
        Some(s) => s@.len() == 0,
        None => false,
    }
}

/// `e` with each field that the update gives replaced.
pub open spec fn event_amended(
    e: Event,
    title: Option<String>,
    description: Option<String>,
    date: Option<String>,
    location: Option<String>,
) -> Event {
    Event {
        id: e.id,
        title: or_keep(title, e.title),
        description: or_keep(description, e.description),
        date: or_keep(date, e.date),
        location: or_keep(location, e.location),
        created_at: e.created_at,
    }
}

/// Whether an update gives a field, and gives it empty.
fn is_given_empty(o: &Option<String>) -> (r: bool)
    ensures
        r == given_empty(*o),
{
    match o {
        Some(s) => s.as_str().is_empty(),
        None => false,
    }
}

impl Registry {
    /// Announces an event; none of its four fields may be empty.
    pub fn create_event(
        &mut self,
        title: String,
        description: String,
        date: String,
        location: String,
        now: u64,
    ) -> (r: Result<Event, Error>)
        requires
            old(self).wf(),
            old(self).can_issue(),
        ensures
            final(self).wf(),
            title@.len() == 0 || description@.len() == 0 || date@.len() == 0 || location@.len()
                == 0 ==> (r matches Err(Error::InvalidPayload(_)) && *final(self) == *old(self)),
            title@.len() > 0 && description@.len() > 0 && date@.len() > 0 && location@.len() > 0
                ==> ({
                let e = Event {
                    id: (old(self).last_id + 1) as u64,
                    title,
                    description,
                    date,
                    location,
                    created_at: now,
                };
                &&& r == Ok::<Event, Error>(e)
                &&& final(self).events@ == old(self).events@.push(e)
                &&& final(self).last_id == e.id
                &&& final(self).same_but_events(old(self))
            }),
    {
        if title.as_str().is_empty() || description.as_str().is_empty() || date.as_str().is_empty()
            || location.as_str().is_empty() {
            return Err(Error::InvalidPayload("Event fields must not be empty".to_string()));
        }
        let ghost pre = *self;
        let id = self.next_id();
        let e = Event { id, title, description, date, location, created_at: now };
        proof {
            lemma_fresh_key(pre.events@, pre.last_id, e);
        }
        let out = e.duplicate();
        self.events.insert(e);
        proof {
            assert(keys_at_most(self.users@, self.last_id));
            assert(keys_at_most(self.plots@, self.last_id));
            assert(keys_at_most(self.activities@, self.last_id));
            assert(keys_at_most(self.resources@, self.last_id));
        }
        Ok(out)
    }

    /// The event with identifier `id`.
    pub fn get_event(&self, id: u64) -> (r: Result<Event, Error>)
        requires
            self.wf(),
        ensures
            fetched(self.events@, id, r),
    {
        match self.events.get(id) {
            Some(e) => Ok(e),
            None => Err(Error::NotFound("Event not found".to_string())),
        }
    }

    /// Every event in store order; `NotFound` where there is none.
    pub fn get_all_events(&self) -> (r: Result<Vec<Event>, Error>)
        ensures
            listed(self.events@, r),
    {
        if self.events.len() == 0 {
            return Err(Error::NotFound("No events found".to_string()));
        }
        Ok(self.events.list_all())
    }

    /// Updates the fields of the event keyed `id` that are given; the caller
    /// must be an administrator. A field that is given must not be empty;
    /// that check comes first.
    pub fn update_event(
        &mut self,
        id: u64,
        title: Option<String>,
        description: Option<String>,
        date: Option<String>,
        location: Option<String>,
        caller: u64,
    ) -> (r: Result<Event, Error>)
        requires
            old(self).wf(),
        ensures
            final(self).wf(),
            given_empty(title) || given_empty(description) || given_empty(date) || given_empty(
                location,
            ) ==> (r matches Err(Error::InvalidPayload(_)) && *final(self) == *old(self)),
            !(given_empty(title) || given_empty(description) || given_empty(date) || given_empty(
                location,
            )) ==> amended(
                old(self).admin(caller),
                old(self).events@,
                final(self).events@,
                id,
                |e: Event| event_amended(e, title, description, date, location),
                r,
            ),
            final(self).last_id == old(self).last_id,
            final(self).same_but_events(old(self)),
    {
        if is_given_empty(&title) || is_given_empty(&description) || is_given_empty(&date)
            || is_given_empty(&location) {
            return Err(Error::InvalidPayload("Event fields must not be empty".to_string()));
        }
        if !self.is_admin(caller) {
            return Err(Error::Unauthorized("Only admins can update events.".to_string()));
        }
        let i = match self.events.position(id) {
            Some(i) => i,
            None => {
                return Err(Error::NotFound("Event not found".to_string()));
            },
        };
        proof {
            lemma_lookup_at(self.events@, i as int);
        }
        let e = self.events.at(i);
        let v = Event {
            id: e.id,
            title: match title {
                Some(x) => x,
                None => e.title.clone(),
            },
            description: match description {
                Some(x) => x,
                None => e.description.clone(),
            },
            date: match date {
                Some(x) => x,
                None => e.date.clone(),
            },
            location: match location {
                Some(x) => x,
                None => e.location.clone(),
            },
            created_at: e.created_at,
        };
        proof {
            lemma_upserted_at_most(self.events@, self.last_id, v);
        }
        let out = v.duplicate();
        self.events.insert(v);
        Ok(out)
    }

    /// Removes the event keyed `id` and hands it back; the caller must be an
    /// administrator.
    pub fn delete_event(&mut self, id: u64, caller: u64) -> (r: Result<Event, Error>)
        requires
            old(self).wf(),
        ensures
            final(self).wf(),
            deleted(old(self).admin(caller), old(self).events@, final(self).events@, id, r),
            final(self).last_id == old(self).last_id,
            final(self).same_but_events(old(self)),
    {
        if !self.is_admin(caller) {
            return Err(Error::Unauthorized("Only admins can delete events.".to_string()));
        }
        proof {
            lemma_removed_at_most(self.events@, self.last_id, id);
        }
        match self.events.remove(id) {
            Some(e) => Ok(e),
            None => Err(Error::NotFound("Event not found".to_string())),
        }
    }
}

} // verus!
