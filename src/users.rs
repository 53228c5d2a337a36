//! Users: self-registration with checked email and phone, globally unique
//! email addresses, and administrator-only update and delete.

use crate::pattern::{valid_email, valid_phone, validate_email, validate_phone_number};
use crate::records::{Error, Role, User};
use crate::registry::{
    deleted, email_taken, emails_unique, fetched, keys_at_most, lemma_fresh_key,
    lemma_removed_at_most, lemma_upserted_at_most, listed, or_keep, Registry,
};
use crate::store::{has_key, index_of, keys_unique, lemma_lookup_at, lookup, removed, upserted, Record};
use vstd::prelude::*;

verus! {

/// Appending a user whose email no stored user has keeps emails unique.
pub proof fn lemma_emails_push(s: Seq<User>, u: User)
    requires
        emails_unique(s),
        !email_taken(s, u.email@, None),
    ensures
        emails_unique(s.push(u)),
{
    let t = s.push(u);
    assert forall|i: int, j: int|
        0 <= i < t.len() && 0 <= j < t.len() && i != j implies (#[trigger] t[i]).email@ != (
        #[trigger] t[j]).email@ by {
        if i < s.len() && j < s.len() {
            assert(t[i] == s[i] && t[j] == s[j]);
        } else if i < s.len() {
            assert(t[i] == s[i]);
        } else {
            assert(t[j] == s[j]);
        }
    }
}

/// Replacing the user keyed `u.id` by `u`, whose email no other user has,
/// keeps emails unique.
pub proof fn lemma_emails_replace(s: Seq<User>, u: User)
    requires
        emails_unique(s),
        keys_unique(s),
        has_key(s, u.id),
        !email_taken(s, u.email@, Some(u.id)),
    ensures
        emails_unique(upserted(s, u)),
{
    let t = upserted(s, u);
    let p = index_of(s, u.id);
    assert(s[p].id == u.id);
    assert forall|i: int, j: int|
        0 <= i < t.len() && 0 <= j < t.len() && i != j implies (#[trigger] t[i]).email@ != (
        #[trigger] t[j]).email@ by {
        if i != p && j != p {
            assert(t[i] == s[i] && t[j] == s[j]);
        } else if i == p {
            assert(t[j] == s[j]);
            assert(s[j].id != s[p].id);
        } else {
            assert(t[i] == s[i]);
            assert(s[i].id != s[p].id);
        }
    }
}

/// Removing a user keeps emails unique.
pub proof fn lemma_emails_remove(s: Seq<User>, k: u64)
    requires
        emails_unique(s),
    ensures
        emails_unique(removed(s, k)),
{
    let t = removed(s, k);
    if has_key(s, k) {
        let p = index_of(s, k);
        assert forall|i: int, j: int|
            0 <= i < t.len() && 0 <= j < t.len() && i != j implies (#[trigger] t[i]).email@ != (
            #[trigger] t[j]).email@ by {
            let si = if i < p { i } else { i + 1 };
            let sj = if j < p { j } else { j + 1 };
            assert(t[i] == s[si] && t[j] == s[sj]);
        }
    }
}

/// What a user creation does, given whether the email and the phone number
/// have the right shape: an `InvalidPayload` with nothing changed where either
/// has not or the email is taken; else a new user under the next identifier.
pub open spec fn user_creation(
    pre: Registry,
    post: Registry,
    name: String,
    email: String,
    phone_number: String,
    role: Role,
    now: u64,
    email_ok: bool,
    phone_ok: bool,
    r: Result<User, Error>,
) -> bool {
    if !email_ok || !phone_ok || email_taken(pre.users@, email@, None) {
        &&& r matches Err(Error::InvalidPayload(_))
        &&& post == pre
    } else {
        let u = User {
            id: (pre.last_id + 1) as u64,
            name,
            email,
            phone_number,
            role,
            created_at: now,
        };
        &&& r == Ok::<User, Error>(u)
        &&& post.users@ == pre.users@.push(u)
        &&& post.last_id == u.id
        &&& post.same_but_users(&pre)
    }
}

/// `u` with each field that the update gives replaced.
pub open spec fn user_amended(
    u: User,
    name: Option<String>,
    email: Option<String>,
    phone_number: Option<String>,
    role: Option<Role>,
) -> User {
    User {
        id: u.id,
        name: or_keep(name, u.name),
        email: or_keep(email, u.email),
        phone_number: or_keep(phone_number, u.phone_number),
        role: or_keep(role, u.role),
        created_at: u.created_at,
    }
}

/// Whether an update of the user keyed `id` gives an email that another user has.
pub open spec fn email_clash(pre: Registry, id: u64, email: Option<String>) -> bool {
    match email {
        Some(e) => email_taken(pre.users@, e@, Some(id)),
        None => false,
    }
}

/// What a user update does, given whether the email and the phone number that
/// it gives have the right shape. Checks run in this order, and the first that
/// fails leaves everything unchanged: field shapes (`InvalidPayload`), email
/// taken by another user (`InvalidPayload`), caller an administrator
/// (`Unauthorized`), user present (`NotFound`). The user may keep its own email.
pub open spec fn user_update(
    pre: Registry,
    post: Registry,
    id: u64,
    name: Option<String>,
    email: Option<String>,
    phone_number: Option<String>,
    role: Option<Role>,
    caller: u64,
    email_ok: bool,
    phone_ok: bool,
    r: Result<User, Error>,
) -> bool {
    if (email is Some && !email_ok) || (phone_number is Some && !phone_ok) || email_clash(
        pre,
        id,
        email,
    ) {
        &&& r matches Err(Error::InvalidPayload(_))
        &&& post == pre
    } else if !pre.admin(caller) {
        &&& r matches Err(Error::Unauthorized(_))
        &&& post == pre
    } else {
        match lookup(pre.users@, id) {
            None => {
                &&& r matches Err(Error::NotFound(_))
                &&& post == pre
            },
            Some(u) => {
                let v = user_amended(u, name, email, phone_number, role);
                &&& r == Ok::<User, Error>(v)
                &&& post.users@ == upserted(pre.users@, v)
                &&& post.last_id == pre.last_id
                &&& post.same_but_users(&pre)
            },
        }
    }
}

impl Registry {
    /// Creates a user once the shapes of its email and phone number are known:
    /// `email_ok` and `phone_ok` say whether they passed.
    pub fn admit_user(
        &mut self,
        name: String,
        email: String,
        phone_number: String,
        role: Role,
        now: u64,
        email_ok: bool,
        phone_ok: bool,
    ) -> (r: Result<User, Error>)
        requires
            old(self).wf(),
            old(self).can_issue(),
        ensures
            final(self).wf(),
            user_creation(
                *old(self),
                *final(self),
                name,
                email,
                phone_number,
                role,
                now,
                email_ok,
                phone_ok,
                r,
            ),
    {
        if !email_ok {
            return Err(Error::InvalidPayload("Invalid email format".to_string()));
        }
        if !phone_ok {
            return Err(Error::InvalidPayload("Invalid phone number format".to_string()));
        }
        if self.email_in_use(&email, None) {
            return Err(Error::InvalidPayload("Email already in use".to_string()));
        }
        let ghost pre = *self;
        let id = self.next_id();
        let u = User { id, name, email, phone_number, role, created_at: now };
        proof {
            lemma_fresh_key(pre.users@, pre.last_id, u);
            lemma_emails_push(pre.users@, u);
        }
        let out = u.duplicate();
        self.users.insert(u);
        proof {
            assert(keys_at_most(self.plots@, self.last_id));
            assert(keys_at_most(self.activities@, self.last_id));
            assert(keys_at_most(self.resources@, self.last_id));
            assert(keys_at_most(self.events@, self.last_id));
        }
        Ok(out)
    }

    /// Registers a user. The email must have the shape of an address and be
    /// used by no other user, and the phone number must have the shape of one.
    pub fn create_user(
        &mut self,
        name: String,
        email: String,
        phone_number: String,
        role: Role,
        now: u64,
    ) -> (r: Result<User, Error>)
        requires
            old(self).wf(),
            old(self).can_issue(),
        ensures
            final(self).wf(),
            user_creation(
                *old(self),
                *final(self),
                name,
                email,
                phone_number,
                role,
                now,
                valid_email(email@),
                valid_phone(phone_number@),
                r,
            ),
    {
        let email_ok = validate_email(email.as_str());
        let phone_ok = validate_phone_number(phone_number.as_str());
        self.admit_user(name, email, phone_number, role, now, email_ok, phone_ok)
    }

    /// The user with identifier `id`.
    pub fn get_user(&self, id: u64) -> (r: Result<User, Error>)
        requires
            self.wf(),
        ensures
            fetched(self.users@, id, r),
    {
        match self.users.get(id) {
            Some(u) => Ok(u),
            None => Err(Error::NotFound("User not found".to_string())),
        }
    }

    /// Every user in store order; `NotFound` where there is none.
    pub fn get_all_users(&self) -> (r: Result<Vec<User>, Error>)
        ensures
            listed(self.users@, r),
    {
        if self.users.len() == 0 {
            return Err(Error::NotFound("No users found".to_string()));
        }
        Ok(self.users.list_all())
    }

    /// Updates the user keyed `id` once the shapes of the email and phone
    /// number that the update gives are known: `email_ok` and `phone_ok` say
    /// whether they passed, and count only where the field is given.
    pub fn amend_user(
        &mut self,
        id: u64,
        name: Option<String>,
        email: Option<String>,
        phone_number: Option<String>,
        role: Option<Role>,
        caller: u64,
        email_ok: bool,
        phone_ok: bool,
    ) -> (r: Result<User, Error>)
        requires
            old(self).wf(),
        ensures
            final(self).wf(),
            user_update(
                *old(self),
                *final(self),
                id,
                name,
                email,
                phone_number,
                role,
                caller,
                email_ok,
                phone_ok,
                r,
            ),
    {
        if email.is_some() && !email_ok {
            return Err(Error::InvalidPayload("Invalid email format".to_string()));
        }
        if phone_number.is_some() && !phone_ok {
            return Err(Error::InvalidPayload("Invalid phone number format".to_string()));
        }
        let clash = match &email {
            Some(e) => self.email_in_use(e, Some(id)),
            None => false,
        };
        if clash {
            return Err(Error::InvalidPayload("Email already in use".to_string()));
        }
        if !self.is_admin(caller) {
            return Err(Error::Unauthorized("Only admins can update users.".to_string()));
        }
        let i = match self.users.position(id) {
            Some(i) => i,
            None => {
                return Err(Error::NotFound("User not found".to_string()));
            },
        };
        let ghost pre = *self;
        proof {
            lemma_lookup_at(pre.users@, i as int);
        }
        let u = self.users.at(i);
        let v = User {
            id: u.id,
            name: match name {
                Some(x) => x,
                None => u.name.clone(),
            },
            email: match email {
                Some(x) => x,
                None => u.email.clone(),
            },
            phone_number: match phone_number {
                Some(x) => x,
                None => u.phone_number.clone(),
            },
            role: match role {
                Some(x) => x,
                None => u.role,
            },
            created_at: u.created_at,
        };
        proof {
            if !email_taken(pre.users@, v.email@, Some(id)) {
                lemma_emails_replace(pre.users@, v);
            } else {
                let j = choose|j: int|
                    0 <= j < pre.users@.len() && (#[trigger] pre.users@[j]).email@ == v.email@
                        && Some(id) != Some(pre.users@[j].id);
                assert(j != i);
                assert(pre.users@[j].email@ != pre.users@[i as int].email@);
            }
            lemma_upserted_at_most(pre.users@, pre.last_id, v);
        }
        let out = v.duplicate();
        self.users.insert(v);
        Ok(out)
    }

    /// Updates the fields of the user keyed `id` that are given; the caller
    /// must be an administrator. A given email must have the shape of an
    /// address and belong to no other user; a given phone number must have
    /// the shape of one.
    pub fn update_user(
        &mut self,
        id: u64,
        name: Option<String>,
        email: Option<String>,
        phone_number: Option<String>,
        role: Option<Role>,
        caller: u64,
    ) -> (r: Result<User, Error>)
        requires
            old(self).wf(),
        ensures
            final(self).wf(),
            user_update(
                *old(self),
                *final(self),
                id,
                name,
                email,
                phone_number,
                role,
                caller,
                match email {
                    Some(e) => valid_email(e@),
                    None => true,
                },
                match phone_number {
                    Some(p) => valid_phone(p@),
                    None => true,
                },
                r,
            ),
    {
        let email_ok = match &email {
            Some(e) => validate_email(e.as_str()),
            None => true,
        };
        let phone_ok = match &phone_number {
            Some(p) => validate_phone_number(p.as_str()),
            None => true,
        };
        self.amend_user(id, name, email, phone_number, role, caller, email_ok, phone_ok)
    }

    /// Removes the user keyed `id` and hands it back; the caller must be an
    /// administrator. Records that refer to the user are kept.
    pub fn delete_user(&mut self, id: u64, caller: u64) -> (r: Result<User, Error>)
        requires
            old(self).wf(),
        ensures
            final(self).wf(),
            deleted(old(self).admin(caller), old(self).users@, final(self).users@, id, r),
            final(self).last_id == old(self).last_id,
            final(self).same_but_users(old(self)),
    {
        if !self.is_admin(caller) {
            return Err(Error::Unauthorized("Only admins can delete users.".to_string()));
        }
        proof {
            lemma_emails_remove(self.users@, id);
            lemma_removed_at_most(self.users@, self.last_id, id);
        }
        match self.users.remove(id) {
            Some(u) => Ok(u),
            None => Err(Error::NotFound("User not found".to_string())),
        }
    }
}

} // verus!
