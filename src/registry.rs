//! The application state: one store per record kind and the identifier
//! counter that all kinds share, with the administrator gate.

use crate::records::{Activity, Error, Event, Plot, Resource, Role, User};
use crate::store::{has_key, index_of, lookup, removed, upserted, Record, Store};
use vstd::prelude::*;

verus! {

/// Every key of `s` is at most `n`.
pub open spec fn keys_at_most<R: Record>(s: Seq<R>, n: u64) -> bool {
    forall|i: int| 0 <= i < s.len() ==> (#[trigger] s[i]).key_of() <= n
}

/// No two users of `s` share an email address.
pub open spec fn emails_unique(s: Seq<User>) -> bool {
    forall|i: int, j: int|
        0 <= i < s.len() && 0 <= j < s.len() && i != j ==> (#[trigger] s[i]).email@ != (
        #[trigger] s[j]).email@
}

/// Whether a user of `s` other than the one keyed `except` has email `email`.
pub open spec fn email_taken(s: Seq<User>, email: Seq<char>, except: Option<u64>) -> bool {
    exists|i: int|
        0 <= i < s.len() && (#[trigger] s[i]).email@ == email && except != Some(s[i].id)
}

/// `v` where `o` is `None`, else what `o` holds.
pub open spec fn or_keep<T>(o: Option<T>, v: T) -> T {
    match o {
        Some(x) => x,
        None => v,
    }
}

/// A key above every key of `s` is not in `s`, and storing a record under it
/// appends the record.
pub proof fn lemma_fresh_key<R: Record>(s: Seq<R>, n: u64, r: R)
    requires
        keys_at_most(s, n),
        r.key_of() > n,
    ensures
        !has_key(s, r.key_of()),
        upserted(s, r) == s.push(r),
        keys_at_most(s.push(r), r.key_of()),
{
    if has_key(s, r.key_of()) {
        let i = index_of(s, r.key_of());
        assert(s[i].key_of() <= n);
    }
    let t = s.push(r);
    assert forall|i: int| 0 <= i < t.len() implies (#[trigger] t[i]).key_of() <= r.key_of() by {
        if i < s.len() {
            assert(t[i] == s[i]);
        }
    }
}

/// Storing a record whose key is at most `n` keeps every key at most `n`.
pub proof fn lemma_upserted_at_most<R: Record>(s: Seq<R>, n: u64, r: R)
    requires
        keys_at_most(s, n),
        r.key_of() <= n,
    ensures
        keys_at_most(upserted(s, r), n),
{
    let t = upserted(s, r);
    if has_key(s, r.key_of()) {
        let p = index_of(s, r.key_of());
        assert forall|i: int| 0 <= i < t.len() implies (#[trigger] t[i]).key_of() <= n by {
            if i != p {
                assert(t[i] == s[i]);
            }
        }
    } else {
        assert forall|i: int| 0 <= i < t.len() implies (#[trigger] t[i]).key_of() <= n by {
            if i < s.len() {
                assert(t[i] == s[i]);
            }
        }
    }
}

/// Removing a record keeps every key at most `n`.
pub proof fn lemma_removed_at_most<R: Record>(s: Seq<R>, n: u64, k: u64)
    requires
        keys_at_most(s, n),
    ensures
        keys_at_most(removed(s, k), n),
{
    let t = removed(s, k);
    if has_key(s, k) {
        let p = index_of(s, k);
        assert forall|i: int| 0 <= i < t.len() implies (#[trigger] t[i]).key_of() <= n by {
            if i < p {
                assert(t[i] == s[i]);
            } else {
                assert(t[i] == s[i + 1]);
            }
        }
    }
}

/// What a lookup by identifier returns: the record, or `NotFound`.
pub open spec fn fetched<R: Record>(s: Seq<R>, id: u64, r: Result<R, Error>) -> bool {
    match lookup(s, id) {
        Some(x) => r == Ok::<R, Error>(x),
        None => r matches Err(Error::NotFound(_)),
    }
}

/// What a listing returns: every record in store order, or `NotFound` where
/// there is none.
pub open spec fn listed<R: Record>(s: Seq<R>, r: Result<Vec<R>, Error>) -> bool {
    if s.len() == 0 {
        r matches Err(Error::NotFound(_))
    } else {
        r matches Ok(v) && v@ == s
    }
}

/// What an update of the record keyed `id` does once its fields have passed
/// their checks: `Unauthorized` unless the caller is an administrator, then
/// `NotFound` unless the record is there, both leaving the store unchanged;
/// else the record becomes `amend` of it, in place.
pub open spec fn amended<R: Record>(
    admin: bool,
    before: Seq<R>,
    after: Seq<R>,
    id: u64,
    amend: spec_fn(R) -> R,
    r: Result<R, Error>,
) -> bool {
    if !admin {
        &&& r matches Err(Error::Unauthorized(_))
        &&& after == before
    } else {
        match lookup(before, id) {
            None => {
                &&& r matches Err(Error::NotFound(_))
                &&& after == before
            },
            Some(x) => {
                &&& r == Ok::<R, Error>(amend(x))
                &&& after == upserted(before, amend(x))
            },
        }
    }
}

/// What a delete of the record keyed `id` does: `Unauthorized` unless the
/// caller is an administrator, then `NotFound` unless the record is there,
/// both leaving the store unchanged; else the record leaves the store and is
/// handed back.
pub open spec fn deleted<R: Record>(
    admin: bool,
    before: Seq<R>,
    after: Seq<R>,
    id: u64,
    r: Result<R, Error>,
) -> bool {
    if !admin {
        &&& r matches Err(Error::Unauthorized(_))
        &&& after == before
    } else {
        match lookup(before, id) {
            None => {
                &&& r matches Err(Error::NotFound(_))
                &&& after == before
            },
            Some(x) => {
                &&& r == Ok::<R, Error>(x)
                &&& after == removed(before, id)
            },
        }
    }
}

/// The shared state of every record kind.
pub struct Registry {
    pub users: Store<User>,
    pub plots: Store<Plot>,
    pub activities: Store<Activity>,
    pub resources: Store<Resource>,
    pub events: Store<Event>,
    /// The last identifier handed out; zero before the first.
    pub last_id: u64,
}

/// Whether `u` has email `email` and is not the user keyed `except`.
fn email_matches(u: &User, email: &String, except: Option<u64>) -> (b: bool)
    ensures
        b == (u.email@ == email@ && except != Some(u.id)),
{
    let other = match except {
        Some(k) => k != u.id,
        None => true,
    };
    other && u.email.eq(email)
}

impl Registry {
    /// Stores with unique keys, none above the last identifier handed out, and
    /// no two users with one email address.
    pub open spec fn wf(&self) -> bool {
        &&& self.users.wf()
        &&& self.plots.wf()
        &&& self.activities.wf()
        &&& self.resources.wf()
        &&& self.events.wf()
        &&& keys_at_most(self.users@, self.last_id)
        &&& keys_at_most(self.plots@, self.last_id)
        &&& keys_at_most(self.activities@, self.last_id)
        &&& keys_at_most(self.resources@, self.last_id)
        &&& keys_at_most(self.events@, self.last_id)
        &&& emails_unique(self.users@)
    }

    /// Whether another identifier can still be handed out.
    pub open spec fn can_issue(&self) -> bool {
        self.last_id < u64::MAX
    }

    /// Whether `caller` is the identifier of an administrator.
    pub open spec fn admin(&self, caller: u64) -> bool {
        match lookup(self.users@, caller) {
            Some(u) => u.role == Role::Admin,
            None => false,
        }
    }

    /// All stores but the users are as in `o`.
    pub open spec fn same_but_users(&self, o: &Registry) -> bool {
        self.plots == o.plots && self.activities == o.activities && self.resources
            == o.resources && self.events == o.events
    }

    /// All stores but the plots are as in `o`.
    pub open spec fn same_but_plots(&self, o: &Registry) -> bool {
        self.users == o.users && self.activities == o.activities && self.resources
            == o.resources && self.events == o.events
    }

    /// All stores but the activities are as in `o`.
    pub open spec fn same_but_activities(&self, o: &Registry) -> bool {
        self.users == o.users && self.plots == o.plots && self.resources == o.resources
            && self.events == o.events
    }

    /// All stores but the resources are as in `o`.
    pub open spec fn same_but_resources(&self, o: &Registry) -> bool {
        self.users == o.users && self.plots == o.plots && self.activities == o.activities
            && self.events == o.events
    }

    /// All stores but the events are as in `o`.
    pub open spec fn same_but_events(&self, o: &Registry) -> bool {
        self.users == o.users && self.plots == o.plots && self.activities == o.activities
            && self.resources == o.resources
    }

    /// Empty stores; no identifier handed out yet.
    pub fn new() -> (r: Registry)
        ensures
            r.wf(),
            r.last_id == 0,
            r.users@ == Seq::<User>::empty(),
            r.plots@ == Seq::<Plot>::empty(),
            r.activities@ == Seq::<Activity>::empty(),
            r.resources@ == Seq::<Resource>::empty(),
            r.events@ == Seq::<Event>::empty(),
    {
        Registry {
            users: Store::new(),
            plots: Store::new(),
            activities: Store::new(),
            resources: Store::new(),
            events: Store::new(),
            last_id: 0,
        }
    }

    /// Whether another identifier can still be handed out.
    pub fn can_issue_id(&self) -> (r: bool)
        ensures
            r == self.can_issue(),
    {
        self.last_id < u64::MAX
    }

    /// Hands out the next identifier: one above the last, for every kind alike.
    pub fn next_id(&mut self) -> (r: u64)
        requires
            old(self).can_issue(),
        ensures
            r == old(self).last_id + 1,
            final(self).last_id == r,
            final(self).users == old(self).users,
            final(self).same_but_users(old(self)),
    {
        self.last_id = self.last_id + 1;
        self.last_id
    }

    /// Whether `caller` is the identifier of an administrator.
    pub fn is_admin(&self, caller: u64) -> (r: bool)
        requires
            self.wf(),
        ensures
            r == self.admin(caller),
    {
        match self.users.position(caller) {
            Some(i) => {
                proof {
                    crate::store::lemma_lookup_at(self.users@, i as int);
                }
                self.users.at(i).role == Role::Admin
            },
            None => false,
        }
    }

    /// Whether a user other than the one keyed `except` has email `email`.
    pub fn email_in_use(&self, email: &String, except: Option<u64>) -> (r: bool)
        ensures
            r == email_taken(self.users@, email@, except),
    {
        let same_email = |u: &User| -> (b: bool)
            ensures
                b == (u.email@ == email@ && except != Some(u.id)),
            { email_matches(u, email, except) };
        let found = self.users.find_by(same_email);
        proof {
            match &found {
                Some(x) => {
                    let i = choose|i: int|
                        0 <= i < self.users@.len() && self.users@[i] == x && same_email.ensures(
                            (&self.users@[i],),
                            true,
                        );
                    assert(self.users@[i].email@ == email@ && except != Some(self.users@[i].id));
                },
                None => {
                    assert forall|i: int| 0 <= i < self.users@.len() implies !((
                    #[trigger] self.users@[i]).email@ == email@ && except != Some(
                        self.users@[i].id,
                    )) by {
                        assert(same_email.ensures((&self.users@[i],), false));
                    }
                },
            }
        }
        found.is_some()
    }
}

} // verus!
