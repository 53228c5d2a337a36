//! Properties that hold across operations, stated over the same predicates
//! that the operations' contracts use.

use crate::records::{Error, Role, User};
use crate::registry::{amended, deleted, email_taken, fetched, keys_at_most, Registry};
use crate::store::{has_key, keys_unique, lemma_lookup_at, lemma_removed, lookup, Record};
use crate::users::{email_clash, user_creation, user_update};
use vstd::prelude::*;

verus! {

/// A record that a create appended under the next identifier is what a lookup
/// of that identifier returns afterwards: `get` after `create` yields the
/// created record.
pub proof fn lemma_get_after_create<R: Record>(before: Seq<R>, last_id: u64, rec: R)
    requires
        keys_unique(before),
        keys_at_most(before, last_id),
        rec.key_of() == last_id + 1,
    ensures
        fetched(before.push(rec), rec.key_of(), Ok::<R, Error>(rec)),
{
    let t = before.push(rec);
    if has_key(before, rec.key_of()) {
        let i = choose|i: int| 0 <= i < before.len() && (#[trigger] before[i]).key_of() == rec.key_of();
        assert(before[i].key_of() <= last_id);
    }
    assert forall|i: int, j: int|
        0 <= i < t.len() && 0 <= j < t.len() && i != j implies (#[trigger] t[i]).key_of() != (
        #[trigger] t[j]).key_of() by {
        if i < before.len() && j < before.len() {
            assert(t[i] == before[i] && t[j] == before[j]);
        } else if i < before.len() {
            assert(t[i] == before[i]);
            assert(before[i].key_of() <= last_id);
        } else {
            assert(t[j] == before[j]);
            assert(before[j].key_of() <= last_id);
        }
    }
    lemma_lookup_at(t, before.len() as int);
}

/// Identifiers of successive creations strictly increase, whatever kinds they
/// are of: the first create leaves the counter at its identifier, no operation
/// in between lowers the counter, and the second create takes one above it.
pub proof fn lemma_ids_increase(first: u64, after_first: Registry, before_second: Registry, second: u64)
    requires
        after_first.last_id == first,
        after_first.last_id <= before_second.last_id,
        second == before_second.last_id + 1,
    ensures
        first < second,
{
}

/// The identifier that a create takes is above every identifier already
/// stored, in every store.
pub proof fn lemma_next_id_is_fresh(s: Registry)
    requires
        s.wf(),
        s.can_issue(),
    ensures
        !has_key(s.users@, (s.last_id + 1) as u64),
        !has_key(s.plots@, (s.last_id + 1) as u64),
        !has_key(s.activities@, (s.last_id + 1) as u64),
        !has_key(s.resources@, (s.last_id + 1) as u64),
        !has_key(s.events@, (s.last_id + 1) as u64),
{
    let k = (s.last_id + 1) as u64;
    if has_key(s.users@, k) {
        let i = choose|i: int| 0 <= i < s.users@.len() && (#[trigger] s.users@[i]).key_of() == k;
        assert(s.users@[i].key_of() <= s.last_id);
    }
    if has_key(s.plots@, k) {
        let i = choose|i: int| 0 <= i < s.plots@.len() && (#[trigger] s.plots@[i]).key_of() == k;
        assert(s.plots@[i].key_of() <= s.last_id);
    }
    if has_key(s.activities@, k) {
        let i = choose|i: int|
            0 <= i < s.activities@.len() && (#[trigger] s.activities@[i]).key_of() == k;
        assert(s.activities@[i].key_of() <= s.last_id);
    }
    if has_key(s.resources@, k) {
        let i = choose|i: int|
            0 <= i < s.resources@.len() && (#[trigger] s.resources@[i]).key_of() == k;
        assert(s.resources@[i].key_of() <= s.last_id);
    }
    if has_key(s.events@, k) {
        let i = choose|i: int| 0 <= i < s.events@.len() && (#[trigger] s.events@[i]).key_of() == k;
        assert(s.events@[i].key_of() <= s.last_id);
    }
}

/// No two stored users share an email address.
pub proof fn lemma_emails_distinct(s: Registry, i: int, j: int)
    requires
        s.wf(),
        0 <= i < s.users@.len(),
        0 <= j < s.users@.len(),
        i != j,
    ensures
        s.users@[i].email@ != s.users@[j].email@,
{
}

/// Creating a user with the email of a stored user fails with
/// `InvalidPayload` and changes nothing.
pub proof fn lemma_duplicate_email_refused(
    pre: Registry,
    post: Registry,
    name: String,
    email: String,
    phone_number: String,
    role: Role,
    now: u64,
    email_ok: bool,
    phone_ok: bool,
    r: Result<User, Error>,
    i: int,
)
    requires
        user_creation(pre, post, name, email, phone_number, role, now, email_ok, phone_ok, r),
        0 <= i < pre.users@.len(),
        pre.users@[i].email@ == email@,
    ensures
        r matches Err(Error::InvalidPayload(_)),
        post == pre,
{
    assert(email_taken(pre.users@, email@, None));
}

/// An update by a caller who is no administrator fails with `Unauthorized`
/// and leaves the store as it was, so every lookup answers as before.
pub proof fn lemma_update_needs_admin<R: Record>(
    before: Seq<R>,
    after: Seq<R>,
    id: u64,
    amend: spec_fn(R) -> R,
    r: Result<R, Error>,
)
    requires
        amended(false, before, after, id, amend, r),
    ensures
        r matches Err(Error::Unauthorized(_)),
        forall|k: u64| lookup(after, k) == lookup(before, k),
{
}

/// A user update by a caller who is no administrator changes nothing; once
/// the given fields pass their checks it fails with `Unauthorized`.
pub proof fn lemma_user_update_needs_admin(
    pre: Registry,
    post: Registry,
    id: u64,
    name: Option<String>,
    email: Option<String>,
    phone_number: Option<String>,
    role: Option<Role>,
    caller: u64,
    email_ok: bool,
    phone_ok: bool,
    r: Result<User, Error>,
)
    requires
        user_update(
            pre,
            post,
            id,
            name,
            email,
            phone_number,
            role,
            caller,
            email_ok,
            phone_ok,
            r,
        ),
        !pre.admin(caller),
    ensures
        post == pre,
        r is Err,
        email_ok && phone_ok && !email_clash(pre, id, email) ==> r matches Err(
            Error::Unauthorized(_),
        ),
{
}

/// A delete by a caller who is no administrator fails with `Unauthorized`
/// and leaves the store as it was, so every lookup answers as before.
pub proof fn lemma_delete_needs_admin<R: Record>(
    before: Seq<R>,
    after: Seq<R>,
    id: u64,
    r: Result<R, Error>,
)
    requires
        deleted(false, before, after, id, r),
    ensures
        r matches Err(Error::Unauthorized(_)),
        forall|k: u64| lookup(after, k) == lookup(before, k),
{
}

/// Deleting an identifier that is not stored fails with `NotFound`; so does
/// deleting it a second time after a first delete of it succeeded.
pub proof fn lemma_delete_twice<R: Record>(
    s0: Seq<R>,
    s1: Seq<R>,
    s2: Seq<R>,
    id: u64,
    r1: Result<R, Error>,
    r2: Result<R, Error>,
)
    requires
        keys_unique(s0),
        deleted(true, s0, s1, id, r1),
        deleted(true, s1, s2, id, r2),
    ensures
        !has_key(s0, id) ==> r1 matches Err(Error::NotFound(_)),
        r2 matches Err(Error::NotFound(_)),
        s2 == s1,
{
    lemma_removed(s0, id);
}

} // verus!
