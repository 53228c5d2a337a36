//! A keyed record store: records in insertion order, one per key.

use vstd::prelude::*;

verus! {

/// A record that carries its own 64-bit key.
pub trait Record: Sized {
    spec fn key_of(&self) -> u64;

    fn key(&self) -> (k: u64)
        ensures
            k == self.key_of(),
    ;

    /// An owned copy equal to `self`.
    fn duplicate(&self) -> (r: Self)
        ensures
            r == *self,
    ;
}

/// Whether some record of `s` has key `k`.
pub open spec fn has_key<R: Record>(s: Seq<R>, k: u64) -> bool {
    exists|i: int| 0 <= i < s.len() && (#[trigger] s[i]).key_of() == k
}

/// No two records of `s` share a key.
pub open spec fn keys_unique<R: Record>(s: Seq<R>) -> bool {
    forall|i: int, j: int|
        0 <= i < s.len() && 0 <= j < s.len() && i != j ==> (#[trigger] s[i]).key_of() != (
        #[trigger] s[j]).key_of()
}

/// The position of the record with key `k`, where there is one.
pub open spec fn index_of<R: Record>(s: Seq<R>, k: u64) -> int {
    choose|i: int| 0 <= i < s.len() && (#[trigger] s[i]).key_of() == k
}

/// The record with key `k`, if any.
pub open spec fn lookup<R: Record>(s: Seq<R>, k: u64) -> Option<R> {
    if has_key(s, k) {
        Some(s[index_of(s, k)])
    } else {
        None
    }
}

/// `s` after storing `r` under its key: in place where the key is present,
/// at the end otherwise.
pub open spec fn upserted<R: Record>(s: Seq<R>, r: R) -> Seq<R> {
    if has_key(s, r.key_of()) {
        s.update(index_of(s, r.key_of()), r)
    } else {
        s.push(r)
    }
}

/// `s` without the record with key `k`; the others keep their order.
pub open spec fn removed<R: Record>(s: Seq<R>, k: u64) -> Seq<R> {
    if has_key(s, k) {
        s.remove(index_of(s, k))
    } else {
        s
    }
}

/// With unique keys, the record at a position is the one found by its key.
pub proof fn lemma_lookup_at<R: Record>(s: Seq<R>, i: int)
    requires
        keys_unique(s),
        0 <= i < s.len(),
    ensures
        has_key(s, s[i].key_of()),
        index_of(s, s[i].key_of()) == i,
        lookup(s, s[i].key_of()) == Some(s[i]),
{
    let k = s[i].key_of();
    assert(has_key(s, k));
    let j = index_of(s, k);
    assert(s[j].key_of() == k);
}

/// Storing a record keeps keys unique, and a lookup of its key then finds it.
pub proof fn lemma_upserted<R: Record>(s: Seq<R>, r: R)
    requires
        keys_unique(s),
    ensures
        keys_unique(upserted(s, r)),
        lookup(upserted(s, r), r.key_of()) == Some(r),
        forall|k: u64| k != r.key_of() ==> lookup(upserted(s, r), k) == lookup(s, k),
{
    let t = upserted(s, r);
    let kr = r.key_of();
    if has_key(s, kr) {
        let p = index_of(s, kr);
        assert(s[p].key_of() == kr);
        assert forall|i: int, j: int|
            0 <= i < t.len() && 0 <= j < t.len() && i != j implies (#[trigger] t[i]).key_of() != (
            #[trigger] t[j]).key_of() by {
            if i != p && j != p {
                assert(t[i] == s[i] && t[j] == s[j]);
            } else if i == p {
                assert(t[j] == s[j]);
                assert(s[p].key_of() != s[j].key_of());
            } else {
                assert(t[i] == s[i]);
                assert(s[p].key_of() != s[i].key_of());
            }
        }
        lemma_lookup_at(t, p);
        assert forall|k: u64| k != kr implies lookup(t, k) == lookup(s, k) by {
            if has_key(s, k) {
                let q = index_of(s, k);
                assert(q != p);
                assert(t[q] == s[q]);
                lemma_lookup_at(t, q);
            } else if has_key(t, k) {
                let q = index_of(t, k);
                assert(q != p);
                assert(t[q] == s[q]);
            }
        }
    } else {
        assert forall|i: int, j: int|
            0 <= i < t.len() && 0 <= j < t.len() && i != j implies (#[trigger] t[i]).key_of() != (
            #[trigger] t[j]).key_of() by {
            if i < s.len() && j < s.len() {
                assert(t[i] == s[i] && t[j] == s[j]);
            } else if i < s.len() {
                assert(t[i] == s[i]);
            } else {
                assert(t[j] == s[j]);
            }
        }
        lemma_lookup_at(t, s.len() as int);
        assert forall|k: u64| k != kr implies lookup(t, k) == lookup(s, k) by {
            if has_key(s, k) {
                let q = index_of(s, k);
                assert(t[q] == s[q]);
                lemma_lookup_at(t, q);
            } else if has_key(t, k) {
                let q = index_of(t, k);
                if q < s.len() {
                    assert(t[q] == s[q]);
                }
            }
        }
    }
}

/// Removing a key keeps keys unique, leaves no record under that key, and
/// leaves every other key's record as it was.
pub proof fn lemma_removed<R: Record>(s: Seq<R>, k: u64)
    requires
        keys_unique(s),
    ensures
        keys_unique(removed(s, k)),
        lookup(removed(s, k), k) == None::<R>,
        forall|k2: u64| k2 != k ==> lookup(removed(s, k), k2) == lookup(s, k2),
{
    let t = removed(s, k);
    if has_key(s, k) {
        let p = index_of(s, k);
        assert(s[p].key_of() == k);
        assert forall|i: int| 0 <= i < t.len() implies #[trigger] t[i] == (if i < p {
            s[i]
        } else {
            s[i + 1]
        }) by {}
        assert forall|i: int, j: int|
            0 <= i < t.len() && 0 <= j < t.len() && i != j implies (#[trigger] t[i]).key_of() != (
            #[trigger] t[j]).key_of() by {
            let si = if i < p { i } else { i + 1 };
            let sj = if j < p { j } else { j + 1 };
            assert(t[i] == s[si] && t[j] == s[sj]);
        }
        if has_key(t, k) {
            let q = index_of(t, k);
            let sq = if q < p { q } else { q + 1 };
            assert(t[q] == s[sq]);
            assert(false);
        }
        assert forall|k2: u64| k2 != k implies lookup(t, k2) == lookup(s, k2) by {
            if has_key(s, k2) {
                let q = index_of(s, k2);
                assert(q != p);
                let tq = if q < p { q } else { q - 1 };
                assert(t[tq] == s[q]);
                lemma_lookup_at(t, tq);
            } else if has_key(t, k2) {
                let q = index_of(t, k2);
                let sq = if q < p { q } else { q + 1 };
                assert(t[q] == s[sq]);
            }
        }
    }
}

/// Records kept in insertion order, at most one per key.
pub struct Store<R> {
    pub entries: Vec<R>,
}

impl<R: Record> View for Store<R> {
    type V = Seq<R>;

    open spec fn view(&self) -> Seq<R> {
        self.entries@
    }
}

impl<R: Record> Store<R> {
    pub open spec fn wf(&self) -> bool {
        keys_unique(self@)
    }

    pub fn new() -> (s: Self)
        ensures
            s@ == Seq::<R>::empty(),
            s.wf(),
    {
        Store { entries: Vec::new() }
    }

    pub fn len(&self) -> (n: usize)
        ensures
            n == self@.len(),
    {
        self.entries.len()
    }

    /// The record at position `i` of the store order.
    pub fn at(&self, i: usize) -> (r: &R)
        requires
            i < self@.len(),
        ensures
            *r == self@[i as int],
    {
        &self.entries[i]
    }

    /// The position of the record with key `k`, if any.
    pub fn position(&self, k: u64) -> (r: Option<usize>)
        requires
            self.wf(),
        ensures
            match r {
                Some(i) => has_key(self@, k) && i as int == index_of(self@, k) && i < self@.len(),
                None => !has_key(self@, k),
            },
    {
        let n = self.entries.len();
        let mut i: usize = 0;
        while i < n
            invariant
                self.wf(),
                n == self@.len(),
                0 <= i <= n,
                forall|j: int| 0 <= j < i ==> (#[trigger] self@[j]).key_of() != k,
            decreases n - i,
        {
            if self.entries[i].key() == k {
                proof {
                    lemma_lookup_at(self@, i as int);
                }
                return Some(i);
            }
            i = i + 1;
        }
        None
    }

    /// Exact-key lookup.
    pub fn get(&self, k: u64) -> (r: Option<R>)
        requires
            self.wf(),
        ensures
            r == lookup(self@, k),
    {
        match self.position(k) {
            Some(i) => Some(self.entries[i].duplicate()),
            None => None,
        }
    }

    /// Whether a record with key `k` is stored.
    pub fn contains(&self, k: u64) -> (r: bool)
        requires
            self.wf(),
        ensures
            r == has_key(self@, k),
    {
        self.position(k).is_some()
    }

    /// The first record, in store order, on which `pred` holds.
    pub fn find_by<F: Fn(&R) -> bool>(&self, pred: F) -> (r: Option<R>)
        requires
            forall|x: &R| #[trigger] pred.requires((x,)),
        ensures
            match r {
                Some(x) => exists|i: int|
                    0 <= i < self@.len() && self@[i] == x && pred.ensures((&self@[i],), true)
                        && forall|j: int|
                        0 <= j < i ==> #[trigger] pred.ensures((&self@[j],), false),
                None => forall|i: int|
                    0 <= i < self@.len() ==> #[trigger] pred.ensures((&self@[i],), false),
            },
    {
        let n = self.entries.len();
        let mut i: usize = 0;
        while i < n
            invariant
                n == self@.len(),
                0 <= i <= n,
                forall|x: &R| #[trigger] pred.requires((x,)),
                forall|j: int| 0 <= j < i ==> #[trigger] pred.ensures((&self@[j],), false),
            decreases n - i,
        {
            let x = &self.entries[i];
            if pred(x) {
                return Some(x.duplicate());
            }
            i = i + 1;
        }
        None
    }

    /// Every record, in store order.
    pub fn list_all(&self) -> (r: Vec<R>)
        ensures
            r@ == self@,
    {
        let n = self.entries.len();
        let mut out: Vec<R> = Vec::new();
        let mut i: usize = 0;
        while i < n
            invariant
                n == self@.len(),
                0 <= i <= n,
                out@ == self@.subrange(0, i as int),
            decreases n - i,
        {
            out.push(self.entries[i].duplicate());
            i = i + 1;
        }
        assert(out@ =~= self@);
        out
    }

    /// Stores `r` under its key, replacing any record already there.
    pub fn insert(&mut self, r: R)
        requires
            old(self).wf(),
        ensures
            final(self)@ == upserted(old(self)@, r),
            final(self).wf(),
            lookup(final(self)@, r.key_of()) == Some(r),
            forall|k: u64| k != r.key_of() ==> lookup(final(self)@, k) == lookup(old(self)@, k),
    {
        proof {
            lemma_upserted(self@, r);
        }
        let k = r.key();
        match self.position(k) {
            Some(i) => {
                self.entries.set(i, r);
            },
            None => {
                self.entries.push(r);
            },
        }
    }

    /// Removes the record with key `k` and hands it back, if there was one.
    pub fn remove(&mut self, k: u64) -> (r: Option<R>)
        requires
            old(self).wf(),
        ensures
            r == lookup(old(self)@, k),
            r is None ==> *final(self) == *old(self),
            final(self)@ == removed(old(self)@, k),
            final(self).wf(),
            lookup(final(self)@, k) == None::<R>,
            forall|k2: u64| k2 != k ==> lookup(final(self)@, k2) == lookup(old(self)@, k2),
    {
        proof {
            lemma_removed(self@, k);
        }
        match self.position(k) {
            Some(i) => Some(self.entries.remove(i)),
            None => None,
        }
    }
}

} // verus!
