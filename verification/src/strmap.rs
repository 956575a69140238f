//! An insertion-ordered map from names to values, both strings.
//!
//! Headers, path parameters and query parameters all live in such a map:
//! writing an existing name replaces its value in place (last write wins),
//! writing a new name appends it, and iteration follows insertion order so
//! that serialization is deterministic.

use vstd::prelude::*;
use vstd::string::*;

verus! {

/// The value stored under `k`, if any: the first pair whose name is `k`.
pub open spec fn spec_lookup(pairs: Seq<(Seq<char>, Seq<char>)>, k: Seq<char>) -> Option<
    Seq<char>,
>
    decreases pairs.len(),
{
    if pairs.len() == 0 {
        None
    } else if pairs[0].0 == k {
        Some(pairs[0].1)
    } else {
        spec_lookup(pairs.drop_first(), k)
    }
}

/// `pairs` with `v` stored under `k`: the first pair named `k` is replaced in
/// place, or a new pair is appended when the name is absent.
pub open spec fn spec_store(
    pairs: Seq<(Seq<char>, Seq<char>)>,
    k: Seq<char>,
    v: Seq<char>,
) -> Seq<(Seq<char>, Seq<char>)>
    decreases pairs.len(),
{
    if pairs.len() == 0 {
        seq![(k, v)]
    } else if pairs[0].0 == k {
        seq![(k, v)] + pairs.drop_first()
    } else {
        seq![pairs[0]] + spec_store(pairs.drop_first(), k, v)
    }
}

/// No two pairs carry the same name.
pub open spec fn spec_keys_unique(pairs: Seq<(Seq<char>, Seq<char>)>) -> bool {
    forall|i: int, j: int| 0 <= i < j < pairs.len() ==> pairs[i].0 != pairs[j].0
}

/// A lookup misses exactly when no pair carries the name.
pub proof fn lemma_lookup_none(pairs: Seq<(Seq<char>, Seq<char>)>, k: Seq<char>)
    ensures
        (spec_lookup(pairs, k) == None::<Seq<char>>) <==> (forall|i: int|
            0 <= i < pairs.len() ==> pairs[i].0 != k),
    decreases pairs.len(),
{
    if pairs.len() > 0 {
        let rest = pairs.drop_first();
        assert(forall|i: int| #![trigger rest[i]] 0 <= i < rest.len() ==> rest[i] == pairs[i + 1]);
        lemma_lookup_none(rest, k);
        if pairs[0].0 == k {
            assert(!(0 <= 0 < pairs.len() ==> pairs[0].0 != k));
        } else {
            if forall|i: int| 0 <= i < rest.len() ==> rest[i].0 != k {
                assert forall|i: int| 0 <= i < pairs.len() implies pairs[i].0 != k by {
                    if i > 0 {
                        assert(rest[i - 1] == pairs[i]);
                    }
                }
            } else {
                let w = choose|i: int| !(0 <= i < rest.len() ==> rest[i].0 != k);
                assert(pairs[w + 1].0 == k);
                assert(!(0 <= w + 1 < pairs.len() ==> pairs[w + 1].0 != k));
            }
        }
    }
}

/// A lookup hit returns the value of the first pair carrying the name.
pub proof fn lemma_lookup_found(pairs: Seq<(Seq<char>, Seq<char>)>, k: Seq<char>, j: int)
    requires
        0 <= j < pairs.len(),
        pairs[j].0 == k,
        forall|i: int| 0 <= i < j ==> pairs[i].0 != k,
    ensures
        spec_lookup(pairs, k) == Some(pairs[j].1),
    decreases pairs.len(),
{
    if j > 0 {
        assert(forall|i: int|
            0 <= i < pairs.drop_first().len() ==> pairs.drop_first()[i] == pairs[i + 1]);
        lemma_lookup_found(pairs.drop_first(), k, j - 1);
    }
}

/// Storing under a name that is present replaces that pair and nothing else.
pub proof fn lemma_store_found(pairs: Seq<(Seq<char>, Seq<char>)>, k: Seq<char>, v: Seq<char>, j: int)
    requires
        0 <= j < pairs.len(),
        pairs[j].0 == k,
        forall|i: int| 0 <= i < j ==> pairs[i].0 != k,
    ensures
        spec_store(pairs, k, v).len() == pairs.len(),
        spec_store(pairs, k, v)[j] == (k, v),
        forall|i: int| 0 <= i < pairs.len() && i != j ==> spec_store(pairs, k, v)[i] == pairs[i],
    decreases pairs.len(),
{
    let rest = pairs.drop_first();
    assert(forall|i: int| #![trigger rest[i]] 0 <= i < rest.len() ==> rest[i] == pairs[i + 1]);
    if j == 0 {
        let res = seq![(k, v)] + rest;
        assert(spec_store(pairs, k, v) == res);
        assert forall|i: int| 0 <= i < pairs.len() && i != 0 implies res[i] == pairs[i] by {
            assert(res[i] == rest[i - 1]);
        }
    } else {
        assert(rest[j - 1] == pairs[j]);
        assert forall|i: int| 0 <= i < j - 1 implies rest[i].0 != k by {
            assert(rest[i] == pairs[i + 1]);
        }
        lemma_store_found(rest, k, v, j - 1);
        let res = seq![pairs[0]] + spec_store(rest, k, v);
        assert(pairs[0].0 != k);
        assert(spec_store(pairs, k, v) == res);
        assert(res[j] == spec_store(rest, k, v)[j - 1]);
        assert forall|i: int| 0 <= i < pairs.len() && i != j implies res[i] == pairs[i] by {
            if i > 0 {
                assert(res[i] == spec_store(rest, k, v)[i - 1]);
                assert(spec_store(rest, k, v)[i - 1] == rest[i - 1]);
                assert(rest[i - 1] == pairs[i]);
            }
        }
    }
}

/// Storing under an absent name appends one pair and keeps the rest.
pub proof fn lemma_store_absent(pairs: Seq<(Seq<char>, Seq<char>)>, k: Seq<char>, v: Seq<char>)
    requires
        forall|i: int| 0 <= i < pairs.len() ==> pairs[i].0 != k,
    ensures
        spec_store(pairs, k, v) == pairs.push((k, v)),
    decreases pairs.len(),
{
    if pairs.len() == 0 {
        assert(spec_store(pairs, k, v) =~= pairs.push((k, v)));
    } else {
        assert(forall|i: int|
            0 <= i < pairs.drop_first().len() ==> pairs.drop_first()[i] == pairs[i + 1]);
        lemma_store_absent(pairs.drop_first(), k, v);
        assert(spec_store(pairs, k, v) =~= pairs.push((k, v)));
    }
}

/// Wherever a pair carries `k`, some first pair carries `k`.
pub proof fn lemma_first_occurrence_from(pairs: Seq<(Seq<char>, Seq<char>)>, k: Seq<char>, j: int)
    requires
        0 <= j < pairs.len(),
        pairs[j].0 == k,
    ensures
        exists|j0: int|
            0 <= j0 < pairs.len() && #[trigger] pairs[j0].0 == k && (forall|i: int|
                0 <= i < j0 ==> pairs[i].0 != k),
    decreases j,
{
    if forall|i: int| 0 <= i < j ==> pairs[i].0 != k {
        assert(0 <= j < pairs.len() && pairs[j].0 == k && (forall|i: int|
            0 <= i < j ==> pairs[i].0 != k));
    } else {
        let j2 = choose|i: int| !(0 <= i < j ==> pairs[i].0 != k);
        lemma_first_occurrence_from(pairs, k, j2);
    }
}

/// Storing keeps names unique.
pub proof fn lemma_store_keys_unique(pairs: Seq<(Seq<char>, Seq<char>)>, k: Seq<char>, v: Seq<char>)
    requires
        spec_keys_unique(pairs),
    ensures
        spec_keys_unique(spec_store(pairs, k, v)),
{
    if forall|i: int| 0 <= i < pairs.len() ==> pairs[i].0 != k {
        lemma_store_absent(pairs, k, v);
        let res = pairs.push((k, v));
        assert forall|i: int, j: int| 0 <= i < j < res.len() implies res[i].0 != res[j].0 by {
            if j < pairs.len() {
            } else {
                assert(res[j] == (k, v));
            }
        }
    } else {
        let w = choose|i: int| !(0 <= i < pairs.len() ==> pairs[i].0 != k);
        lemma_first_occurrence_from(pairs, k, w);
        let j0 = choose|j0: int|
            0 <= j0 < pairs.len() && #[trigger] pairs[j0].0 == k && (forall|i: int|
                0 <= i < j0 ==> pairs[i].0 != k);
        lemma_store_found(pairs, k, v, j0);
        let res = spec_store(pairs, k, v);
        assert forall|i: int, j: int| 0 <= i < j < res.len() implies res[i].0 != res[j].0 by {
            assert(res[j0] == (k, v));
            assert(pairs[j0].0 == k);
            if i != j0 {
                assert(res[i] == pairs[i]);
            }
            if j != j0 {
                assert(res[j] == pairs[j]);
            }
        }
    }
}

/// Looking up the name just stored yields the value just stored.
pub proof fn lemma_lookup_after_store(
    pairs: Seq<(Seq<char>, Seq<char>)>,
    k: Seq<char>,
    v: Seq<char>,
)
    ensures
        spec_lookup(spec_store(pairs, k, v), k) == Some(v),
    decreases pairs.len(),
{
    if pairs.len() > 0 && pairs[0].0 != k {
        lemma_lookup_after_store(pairs.drop_first(), k, v);
        assert(spec_store(pairs, k, v).drop_first() =~= spec_store(pairs.drop_first(), k, v));
    }
}

/// Looking up any other name is unaffected by a store.
pub proof fn lemma_lookup_other_store(
    pairs: Seq<(Seq<char>, Seq<char>)>,
    k: Seq<char>,
    v: Seq<char>,
    k2: Seq<char>,
)
    requires
        k2 != k,
    ensures
        spec_lookup(spec_store(pairs, k, v), k2) == spec_lookup(pairs, k2),
    decreases pairs.len(),
{
    if pairs.len() == 0 {
        assert(spec_store(pairs, k, v) == seq![(k, v)]);
        assert(spec_lookup(spec_store(pairs, k, v), k2) == spec_lookup(
            seq![(k, v)].drop_first(),
            k2,
        ));
        assert(seq![(k, v)].drop_first() =~= Seq::<(Seq<char>, Seq<char>)>::empty());
    } else if pairs[0].0 == k {
        let res = seq![(k, v)] + pairs.drop_first();
        assert(spec_store(pairs, k, v) == res);
        assert(res[0] == (k, v));
        assert(res.drop_first() =~= pairs.drop_first());
        assert(spec_lookup(res, k2) == spec_lookup(pairs.drop_first(), k2));
    } else {
        lemma_lookup_other_store(pairs.drop_first(), k, v, k2);
        let res = seq![pairs[0]] + spec_store(pairs.drop_first(), k, v);
        assert(spec_store(pairs, k, v) == res);
        assert(res[0] == pairs[0]);
        assert(res.drop_first() =~= spec_store(pairs.drop_first(), k, v));
        if pairs[0].0 == k2 {
            assert(spec_lookup(res, k2) == Some(res[0].1));
        } else {
            assert(spec_lookup(res, k2) == spec_lookup(res.drop_first(), k2));
        }
    }
}

/// An insertion-ordered name/value map.
#[derive(Debug)]
pub struct StrMap {
    pairs: Vec<(String, String)>,
}

impl View for StrMap {
    type V = Seq<(Seq<char>, Seq<char>)>;

    closed spec fn view(&self) -> Seq<(Seq<char>, Seq<char>)> {
        Seq::new(self.pairs@.len(), |i: int| (self.pairs@[i].0@, self.pairs@[i].1@))
    }
}

impl StrMap {
    /// The empty map.
    pub fn new() -> (r: Self)
        ensures
            r@ == Seq::<(Seq<char>, Seq<char>)>::empty(),
    {
        let r = StrMap { pairs: Vec::new() };
        proof {
            assert(r@ =~= Seq::<(Seq<char>, Seq<char>)>::empty());
        }
        r
    }

    /// How many names are stored.
    pub fn len(&self) -> (n: usize)
        ensures
            n == self@.len(),
    {
        self.pairs.len()
    }

    /// The name and value of the pair at position `i`, in insertion order.
    pub fn pair_at(&self, i: usize) -> (r: (&String, &String))
        requires
            i < self@.len(),
        ensures
            r.0@ == self@[i as int].0,
            r.1@ == self@[i as int].1,
    {
        let p = &self.pairs[i];
        (&p.0, &p.1)
    }

    /// The value stored under `name`, if any, as a fresh string.
    pub fn get(&self, name: &str) -> (r: Option<String>)
        ensures
            match r {
                Some(v) => spec_lookup(self@, name@) == Some(v@),
                None => spec_lookup(self@, name@) == None::<Seq<char>>,
            },
    {
        let key = name.to_owned();
        let n = self.pairs.len();
        let mut i: usize = 0;
        while i < n
            invariant
                n == self@.len(),
                0 <= i <= n,
                key@ == name@,
                forall|j: int| 0 <= j < i ==> self@[j].0 != name@,
        decreases n - i,
        {
            if self.pairs[i].0 == key {
                proof {
                    lemma_lookup_found(self@, name@, i as int);
                }
                return Some(self.pairs[i].1.clone());
            }
            i = i + 1;
        }
        proof {
            lemma_lookup_none(self@, name@);
        }
        None
    }

    /// Store `value` under `name`, replacing in place or appending.
    pub fn insert(&mut self, name: &str, value: &str)
        ensures
            final(self)@ == spec_store(old(self)@, name@, value@),
    {
        let key = name.to_owned();
        let val = value.to_owned();
        let n = self.pairs.len();
        let mut i: usize = 0;
        while i < n
            invariant
                n == self@.len(),
                0 <= i <= n,
                *self == *old(self),
                key@ == name@,
                val@ == value@,
                forall|j: int| 0 <= j < i ==> self@[j].0 != name@,
        decreases n - i,
        {
            if self.pairs[i].0 == key {
                let mut rebuilt: Vec<(String, String)> = Vec::new();
                let mut j: usize = 0;
                while j < n
                    invariant
                        n == self@.len(),
                        *self == *old(self),
                        0 <= j <= n,
                        i < n,
                        key@ == name@,
                        val@ == value@,
                        self@[i as int].0 == name@,
                        forall|m: int| 0 <= m < i ==> self@[m].0 != name@,
                        rebuilt@.len() == j,
                        forall|m: int|
                            0 <= m < j && m != i ==> (rebuilt@[m].0@, rebuilt@[m].1@) == self@[m],
                        i < j ==> (rebuilt@[i as int].0@, rebuilt@[i as int].1@) == (
                            name@,
                            value@,
                        ),
                    decreases n - j,
                {
                    if j == i {
                        rebuilt.push((key.clone(), val.clone()));
                    } else {
                        rebuilt.push((self.pairs[j].0.clone(), self.pairs[j].1.clone()));
                    }
                    j = j + 1;
                }
                proof {
                    lemma_store_found(old(self)@, name@, value@, i as int);
                }
                let ghost target = spec_store(old(self)@, name@, value@);
                self.pairs = rebuilt;
                proof {
                    assert forall|m: int| 0 <= m < n implies self@[m] == target[m] by {
                        if m == i as int {
                            assert(spec_store(old(self)@, name@, value@)[m] == (name@, value@));
                        } else {
                            assert(spec_store(old(self)@, name@, value@)[m] == old(self)@[m]);
                        }
                    }
                    assert(self@ =~= target);
                }
                return ;
            }
            i = i + 1;
        }
        proof {
            lemma_store_absent(self@, name@, value@);
        }
        self.pairs.push((key, val));
        proof {
            assert(self@ =~= old(self)@.push((name@, value@)));
        }
    }

    /// A deep copy with the same contents.
    pub fn duplicate(&self) -> (r: Self)
        ensures
            r@ == self@,
    {
        let n = self.pairs.len();
        let mut out: Vec<(String, String)> = Vec::new();
        let mut i: usize = 0;
        while i < n
            invariant
                n == self@.len(),
                0 <= i <= n,
                out@.len() == i,
                forall|j: int| 0 <= j < i ==> (out@[j].0@, out@[j].1@) == self@[j],
            decreases n - i,
        {
            out.push((self.pairs[i].0.clone(), self.pairs[i].1.clone()));
            i = i + 1;
        }
        let r = StrMap { pairs: out };
        proof {
            assert(r@ =~= self@);
        }
        r
    }
}

} // verus!
