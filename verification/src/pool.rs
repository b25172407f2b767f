//! Interning pools for identifiers and for literal byte strings.
//!
//! Each pool deduplicates its contents and hands out a stable 32-bit id per
//! distinct entry. Identifiers are valid text; literals may hold arbitrary
//! bytes, so a second pool stores byte strings.

use vstd::prelude::*;

verus! {

/// ID associated to each identifier in the identifiers pool.
#[derive(Clone, Copy, PartialEq, Eq, Structural, Debug)]
pub struct IdentId(pub u32);

/// ID associated to each literal byte string in the literals pool.
#[derive(Clone, Copy, PartialEq, Eq, Structural, Debug)]
pub struct LiteralId(pub u32);

/// No two distinct ids of the pool map to equal content.
pub open spec fn pool_wf<T>(v: Seq<T>) -> bool {
    forall|i: int, j: int| 0 <= i < j < v.len() ==> v[i] != v[j]
}

/// Whether some entry of the pool holds exactly `s`.
pub open spec fn pool_has<T>(v: Seq<T>, s: T) -> bool {
    exists|i: int| 0 <= i < v.len() && v[i] == s
}

/// The id of `s` in the pool; meaningful only when `pool_has(v, s)` and,
/// under `pool_wf`, unique.
pub open spec fn pool_id<T>(v: Seq<T>, s: T) -> int {
    choose|i: int| 0 <= i < v.len() && v[i] == s
}

/// The pool and id that interning `s` yields: an existing entry is reused,
/// otherwise `s` is appended.
pub open spec fn intern_spec<T>(v: Seq<T>, s: T) -> (Seq<T>, int) {
    if pool_has(v, s) {
        (v, pool_id(v, s))
    } else {
        (v.push(s), v.len() as int)
    }
}

/// Interning is idempotent: a second interning of the same content changes
/// nothing and returns the same id, and the pool maps that id back to the
/// content.
pub proof fn lemma_interning_idempotent<T>(v: Seq<T>, s: T)
    requires
        pool_wf(v),
    ensures
        ({
            let (v1, id1) = intern_spec(v, s);
            let (v2, id2) = intern_spec(v1, s);
            &&& v2 == v1
            &&& id2 == id1
            &&& 0 <= id1 < v1.len()
            &&& v1[id1] == s
        }),
{
    if pool_has(v, s) {
        let i = pool_id(v, s);
        assert(0 <= i < v.len() && v[i] == s);
    } else {
        let v1 = v.push(s);
        assert(v1[v.len() as int] == s);
        assert(pool_has(v1, s));
        let j = pool_id(v1, s);
        assert(0 <= j < v1.len() && v1[j] == s);
        if j != v.len() as int {
            assert(v[j] == s);
            assert(pool_has(v, s));
            assert(false);
        }
    }
}

/// Deduplicated store of identifiers. Grows only; never shrinks.
pub struct StringPool {
    items: Vec<String>,
}

impl View for StringPool {
    type V = Seq<Seq<char>>;

    closed spec fn view(&self) -> Seq<Seq<char>> {
        self.items@.map_values(|s: String| s@)
    }
}

impl StringPool {
    /// Well-formed: no two distinct ids map to equal content.
    pub open spec fn wf(&self) -> bool {
        pool_wf(self@)
    }

    /// Creates an empty pool.
    pub fn new() -> (r: Self)
        ensures
            r@ == Seq::<Seq<char>>::empty(),
            r.wf(),
    {
        let r = StringPool { items: Vec::new() };
        proof {
            assert(r@ =~= Seq::<Seq<char>>::empty());
        }
        r
    }

    /// Number of distinct entries interned so far.
    pub fn len(&self) -> (n: usize)
        ensures
            n == self@.len(),
    {
        self.items.len()
    }

    /// Returns the existing id of `s` if it was seen before, else allocates
    /// the next id for it.
    pub fn get_or_intern(&mut self, s: &String) -> (id: IdentId)
        requires
            old(self).wf(),
            old(self)@.len() < u32::MAX,
        ensures
            final(self).wf(),
            (final(self)@, id.0 as int) == intern_spec(old(self)@, s@),
            0 <= id.0 < final(self)@.len(),
            final(self)@[id.0 as int] == s@,
            old(self)@.len() <= final(self)@.len() <= old(self)@.len() + 1,
            forall|i: int| 0 <= i < old(self)@.len() ==> final(self)@[i] == old(self)@[i],
    {
        let ghost v0 = self@;
        let n = self.items.len();
        for i in 0..n
            invariant
                n == self@.len(),
                self@ == v0,
                self.wf(),
                v0.len() < u32::MAX,
                forall|j: int| 0 <= j < i ==> self@[j] != s@,
        {
            if self.items[i] == *s {
                proof {
                    assert(self@[i as int] == s@);
                    assert(pool_has(v0, s@));
                    let k = pool_id(v0, s@);
                    assert(0 <= k < v0.len() && v0[k] == s@);
                    if k != i as int {
                        assert(v0[k] != v0[i as int]);
                    }
                }
                return IdentId(i as u32);
            }
        }
        proof {
            assert(!pool_has(v0, s@));
        }
        let id = IdentId(self.items.len() as u32);
        self.items.push(s.clone());
        proof {
            assert(self@ =~= v0.push(s@));
            assert forall|i: int, j: int| 0 <= i < j < self@.len() implies self@[i]
                != self@[j] by {
                if j == v0.len() as int {
                    assert(!pool_has(v0, s@));
                    assert(self@[j] == s@);
                }
            }
        }
        id
    }

    /// Given an id previously returned, returns the interned identifier.
    pub fn get(&self, id: IdentId) -> (r: &String)
        requires
            (id.0 as int) < self@.len(),
        ensures
            r@ == self@[id.0 as int],
    {
        &self.items[id.0 as usize]
    }
}

/// Exact byte-for-byte equality of two byte vectors.
fn bytes_eq(a: &Vec<u8>, b: &Vec<u8>) -> (r: bool)
    ensures
        r == (a@ == b@),
{
    if a.len() != b.len() {
        proof {
            assert(a@.len() != b@.len());
        }
        return false;
    }
    let n = a.len();
    for i in 0..n
        invariant
            n == a@.len(),
            n == b@.len(),
            forall|j: int| 0 <= j < i ==> a@[j] == b@[j],
    {
        if a[i] != b[i] {
            return false;
        }
    }
    proof {
        assert(a@ =~= b@);
    }
    true
}

/// Deduplicated store of literal byte strings. Literals in rule source are
/// not guaranteed to be valid text, so arbitrary bytes are accepted.
pub struct BStringPool {
    items: Vec<Vec<u8>>,
}

impl View for BStringPool {
    type V = Seq<Seq<u8>>;

    closed spec fn view(&self) -> Seq<Seq<u8>> {
        self.items@.map_values(|s: Vec<u8>| s@)
    }
}

impl BStringPool {
    /// Well-formed: no two distinct ids map to equal content.
    pub open spec fn wf(&self) -> bool {
        pool_wf(self@)
    }

    /// Creates an empty pool.
    pub fn new() -> (r: Self)
        ensures
            r@ == Seq::<Seq<u8>>::empty(),
            r.wf(),
    {
        let r = BStringPool { items: Vec::new() };
        proof {
            assert(r@ =~= Seq::<Seq<u8>>::empty());
        }
        r
    }

    /// Number of distinct entries interned so far.
    pub fn len(&self) -> (n: usize)
        ensures
            n == self@.len(),
    {
        self.items.len()
    }

    /// Returns the existing id of `s` if it was seen before, else allocates
    /// the next id for it.
    pub fn get_or_intern(&mut self, s: &Vec<u8>) -> (id: LiteralId)
        requires
            old(self).wf(),
            old(self)@.len() < u32::MAX,
        ensures
            final(self).wf(),
            (final(self)@, id.0 as int) == intern_spec(old(self)@, s@),
            0 <= id.0 < final(self)@.len(),
            final(self)@[id.0 as int] == s@,
            old(self)@.len() <= final(self)@.len() <= old(self)@.len() + 1,
            forall|i: int| 0 <= i < old(self)@.len() ==> final(self)@[i] == old(self)@[i],
    {
        let ghost v0 = self@;
        let n = self.items.len();
        for i in 0..n
            invariant
                n == self@.len(),
                self@ == v0,
                self.wf(),
                v0.len() < u32::MAX,
                forall|j: int| 0 <= j < i ==> self@[j] != s@,
        {
            if bytes_eq(&self.items[i], s) {
                proof {
                    assert(self@[i as int] == s@);
                    assert(pool_has(v0, s@));
                    let k = pool_id(v0, s@);
                    assert(0 <= k < v0.len() && v0[k] == s@);
                    if k != i as int {
                        assert(v0[k] != v0[i as int]);
                    }
                }
                return LiteralId(i as u32);
            }
        }
        proof {
            assert(!pool_has(v0, s@));
        }
        let id = LiteralId(self.items.len() as u32);
        self.items.push(s.clone());
        proof {
            assert(self@ =~= v0.push(s@));
            assert forall|i: int, j: int| 0 <= i < j < self@.len() implies self@[i]
                != self@[j] by {
                if j == v0.len() as int {
                    assert(!pool_has(v0, s@));
                    assert(self@[j] == s@);
                }
            }
        }
        id
    }

    /// Given an id previously returned, returns the interned bytes.
    pub fn get(&self, id: LiteralId) -> (r: &Vec<u8>)
        requires
            (id.0 as int) < self@.len(),
        ensures
            r@ == self@[id.0 as int],
    {
        &self.items[id.0 as usize]
    }
}

} // verus!
