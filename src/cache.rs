//! A cache of server-side prepared statements, keyed by query text and the
//! declared parameter types.
use vstd::prelude::*;

verus! {

/// A server-side prepared statement of the network driver, carried as an
/// opaque value.
#[verifier::external_type_specification]
#[verifier::external_body]
pub struct ExStatement(postgres::Statement);

/// Relies on `<postgres::Statement as Clone>::clone`: the type is a derived
/// `Clone` over a single `Arc` of the statement's data, so the clone is a
/// handle to the same prepared statement, with nothing of its own.
#[verifier::external_body]
fn share(s: &postgres::Statement) -> (r: postgres::Statement)
    ensures
        r == *s,
{
    s.clone()
}

/// What identifies a prepared statement: its SQL text and the object ids of
/// the parameter types it was prepared with.
pub type CacheKey = (Seq<char>, Seq<u32>);

struct CacheEntry {
    query: String,
    types: Vec<u32>,
    statement: postgres::Statement,
}

impl CacheEntry {
    spec fn key(&self) -> CacheKey {
        (self.query@, self.types@)
    }
}

/// Prepared statements by key. Entries are added and never evicted.
pub struct Cache {
    entries: Vec<CacheEntry>,
    /// How many times a statement was prepared on behalf of the cache.
    calls: Ghost<nat>,
}

fn same_types(a: &[u32], b: &[u32]) -> (r: bool)
    ensures
        r == (a@ == b@),
{
    if a.len() != b.len() {
        return false;
    }
    let mut i: usize = 0;
    while i < a.len()
        invariant
            a@.len() == b@.len(),
            i <= a@.len(),
            a@.subrange(0, i as int) == b@.subrange(0, i as int),
        decreases a@.len() - i,
    {
        if a[i] != b[i] {
            assert(a@[i as int] != b@[i as int]);
            return false;
        }
        assert(a@.subrange(0, i + 1) == a@.subrange(0, i as int).push(a@[i as int]));
        assert(b@.subrange(0, i + 1) == b@.subrange(0, i as int).push(b@[i as int]));
        i = i + 1;
    }
    assert(a@ == a@.subrange(0, a@.len() as int));
    assert(b@ == b@.subrange(0, b@.len() as int));
    true
}

impl Cache {
    /// No two entries share a key.
    pub closed spec fn wf(&self) -> bool {
        forall|i: int, j: int|
            0 <= i < j < self.entries@.len() ==> #[trigger] self.entries@[i].key()
                != #[trigger] self.entries@[j].key()
    }

    pub closed spec fn view(&self) -> Map<CacheKey, postgres::Statement> {
        Map::new(
            |k: CacheKey| exists|i: int| 0 <= i < self.entries@.len() && self.entries@[i].key() == k,
            |k: CacheKey|
                self.entries@[choose|i: int| 0 <= i < self.entries@.len() && self.entries@[i].key() == k].statement,
        )
    }

    /// How many times the cache has called a `prepare` it was handed.
    pub closed spec fn prepare_calls(&self) -> nat {
        self.calls@
    }

    pub fn new() -> (r: Cache)
        ensures
            r.wf(),
            r@ == Map::<CacheKey, postgres::Statement>::empty(),
            r.prepare_calls() == 0,
    {
        let r = Cache { entries: Vec::new(), calls: Ghost(0) };
        assert(r@ =~= Map::<CacheKey, postgres::Statement>::empty());
        r
    }

    fn find(&self, query: &String, types: &[u32]) -> (r: Option<usize>)
        requires
            self.wf(),
        ensures
            match r {
                Some(i) => i < self.entries@.len() && self.entries@[i as int].key() == (query@, types@),
                None => forall|i: int|
                    0 <= i < self.entries@.len() ==> #[trigger] self.entries@[i].key() != (query@, types@),
            },
    {
        let mut i: usize = 0;
        while i < self.entries.len()
            invariant
                i <= self.entries@.len(),
                forall|j: int| 0 <= j < i ==> #[trigger] self.entries@[j].key() != (query@, types@),
            decreases self.entries@.len() - i,
        {
            let e = &self.entries[i];
            if e.query == *query && same_types(e.types.as_slice(), types) {
                return Some(i);
            }
            i = i + 1;
        }
        None
    }

    proof fn lemma_view_at(&self, i: int)
        requires
            self.wf(),
            0 <= i < self.entries@.len(),
        ensures
            self@.contains_key(self.entries@[i].key()),
            self@[self.entries@[i].key()] == self.entries@[i].statement,
    {
        let k = self.entries@[i].key();
        assert(self@.dom().contains(k));
        let j = choose|j: int| 0 <= j < self.entries@.len() && self.entries@[j].key() == k;
        assert(j == i) by {
            if j < i {
                assert(self.entries@[j].key() != self.entries@[i].key());
            } else if i < j {
                assert(self.entries@[i].key() != self.entries@[j].key());
            }
        }
    }

    /// The statement for `query` prepared with parameter types `types`
    /// (given by their object ids). On a hit the cached statement is handed
    /// out and `prepare` is not called; on a miss `prepare` is called once
    /// with `query` and `types`, and a statement it returns is stored.
    pub fn prepare_typed<E, F>(&mut self, query: &str, types: &[u32], prepare: F) -> (r: Result<
        postgres::Statement,
        E,
    >) where F: FnOnce(&str, &[u32]) -> Result<postgres::Statement, E>
        requires
            old(self).wf(),
            !old(self)@.contains_key((query@, types@)) ==> prepare.requires((query, types)),
        ensures
            final(self).wf(),
            old(self)@.contains_key((query@, types@)) ==> r == Ok::<postgres::Statement, E>(
                old(self)@[(query@, types@)],
            ) && final(self)@ == old(self)@ && final(self).prepare_calls() == old(self).prepare_calls(),
            !old(self)@.contains_key((query@, types@)) ==> final(self).prepare_calls() == old(self).prepare_calls() + 1,
            r matches Ok(s) ==> s == request(old(self)@, (query@, types@), s).0 && final(self)@ == request(
                old(self)@,
                (query@, types@),
                s,
            ).1 && final(self).prepare_calls() == old(self).prepare_calls() + if request(
                old(self)@,
                (query@, types@),
                s,
            ).2 {
                1nat
            } else {
                0nat
            },
            !old(self)@.contains_key((query@, types@)) ==> prepare.ensures((query, types), r) && match r {
                Ok(s) => final(self)@ == old(self)@.insert((query@, types@), s),
                Err(_) => final(self)@ == old(self)@,
            },
    {
        let q = String::from_str(query);
        match self.find(&q, types) {
            Some(i) => {
                proof {
                    self.lemma_view_at(i as int);
                }
                Ok(share(&self.entries[i].statement))
            },
            None => {
                proof {
                    if self@.contains_key((query@, types@)) {
                        let j = choose|j: int| 0 <= j < self.entries@.len() && self.entries@[j].key() == (query@, types@);
                        assert(self.entries@[j].key() != (query@, types@));
                    }
                }
                let r = prepare(query, types);
                self.calls = Ghost(self.calls@ + 1);
                match r {
                    Ok(s) => {
                        let ghost before = *self;
                        let kept = share(&s);
                        self.entries.push(CacheEntry { query: q, types: vstd::slice::slice_to_vec(types), statement: kept });
                        proof {
                            let n = before.entries@.len() as int;
                            assert(self.entries@[n].key() == (query@, types@));
                            assert forall|i: int, j: int| 0 <= i < j < self.entries@.len() implies
                                #[trigger] self.entries@[i].key() != #[trigger] self.entries@[j].key() by {
                                if j < n {
                                    assert(before.entries@[i] == self.entries@[i]);
                                    assert(before.entries@[j] == self.entries@[j]);
                                } else {
                                    assert(before.entries@[i] == self.entries@[i]);
                                }
                            }
                            let m = before@.insert((query@, types@), s);
                            self.lemma_view_at(n);
                            assert forall|k: CacheKey| #[trigger] m.contains_key(k) implies self@.contains_key(k) && self@[k] == m[k] by {
                                if k != (query@, types@) {
                                    let j = choose|j: int| 0 <= j < before.entries@.len() && before.entries@[j].key() == k;
                                    before.lemma_view_at(j);
                                    assert(self.entries@[j] == before.entries@[j]);
                                    self.lemma_view_at(j);
                                }
                            }
                            assert forall|k: CacheKey| #[trigger] self@.contains_key(k) implies m.contains_key(k) by {
                                let j = choose|j: int| 0 <= j < self.entries@.len() && self.entries@[j].key() == k;
                                if j < n {
                                    assert(before.entries@[j] == self.entries@[j]);
                                    assert(before@.contains_key(k));
                                }
                            }
                            assert(self@ =~= m);
                        }
                        Ok(s)
                    },
                    Err(e) => Err(e),
                }
            },
        }
    }

    /// `prepare_typed` with no declared parameter types.
    pub fn prepare<E, F>(&mut self, query: &str, prepare: F) -> (r: Result<postgres::Statement, E>) where
        F: FnOnce(&str, &[u32]) -> Result<postgres::Statement, E>
        requires
            old(self).wf(),
            !old(self)@.contains_key((query@, Seq::<u32>::empty())) ==> forall|t: &[u32]|
                t@.len() == 0 ==> #[trigger] prepare.requires((query, t)),
        ensures
            final(self).wf(),
            old(self)@.contains_key((query@, Seq::<u32>::empty())) ==> r == Ok::<postgres::Statement, E>(
                old(self)@[(query@, Seq::<u32>::empty())],
            ) && final(self)@ == old(self)@ && final(self).prepare_calls() == old(self).prepare_calls(),
            !old(self)@.contains_key((query@, Seq::<u32>::empty())) ==> final(self).prepare_calls() == old(self).prepare_calls() + 1,
            r matches Ok(s) ==> s == request(old(self)@, (query@, Seq::<u32>::empty()), s).0 && final(self)@
                == request(old(self)@, (query@, Seq::<u32>::empty()), s).1,
            !old(self)@.contains_key((query@, Seq::<u32>::empty())) ==> (exists|t: &[u32]|
                t@.len() == 0 && #[trigger] prepare.ensures((query, t), r)) && match r {
                Ok(s) => final(self)@ == old(self)@.insert((query@, Seq::<u32>::empty()), s),
                Err(_) => final(self)@ == old(self)@,
            },
    {
        let none: Vec<u32> = Vec::new();
        let types = none.as_slice();
        assert(types@ == Seq::<u32>::empty());
        self.prepare_typed(query, types, prepare)
    }
}


/// What a request for `key` does to a cache whose statements are `m`, when
/// `fresh` is what preparing it would give: the statement handed out, the
/// statements afterwards, and whether `prepare` was called.
pub open spec fn request(m: Map<CacheKey, postgres::Statement>, key: CacheKey, fresh: postgres::Statement) -> (
    postgres::Statement,
    Map<CacheKey, postgres::Statement>,
    bool,
) {
    if m.contains_key(key) {
        (m[key], m, false)
    } else {
        (fresh, m.insert(key, fresh), true)
    }
}

/// Two requests with equal text and types give the same statement, and
/// only the first can call `prepare`; a request with the same text and other
/// types is a key of its own, which calls `prepare` unless it was cached
/// before.
pub proof fn prepared_once(
    m: Map<CacheKey, postgres::Statement>,
    key: CacheKey,
    other: Seq<u32>,
    fresh1: postgres::Statement,
    fresh2: postgres::Statement,
)
    requires
        other != key.1,
    ensures
        request(request(m, key, fresh1).1, key, fresh2).0 == request(m, key, fresh1).0,
        !request(request(m, key, fresh1).1, key, fresh2).2,
        request(request(m, key, fresh1).1, (key.0, other), fresh2).2 == !m.contains_key((key.0, other)),
{
    assert(key != (key.0, other));
}

} // verus!
