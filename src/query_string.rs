use vstd::prelude::*;

use crate::text::{chars_of, find_char, first_char, lemma_first_char, same_text, substring};

verus! {

/// The key–value pairs of `s` from position `from` on. `s` splits at each
/// `&` into components; a component with an `=` gives what stands before its
/// first `=` as key and what stands after as value; one without gives none.
pub open spec fn query_pairs(s: Seq<char>, from: int) -> Seq<(Seq<char>, Seq<char>)>
    decreases s.len() - from,
{
    if from < 0 || from > s.len() {
        seq![]
    } else {
        proof {
            lemma_first_char(s, '&', from, s.len() as int);
        }
        let end = first_char(s, '&', from, s.len() as int);
        let eq = first_char(s, '=', from, end);
        let pair = if eq < end {
            seq![(s.subrange(from, eq), s.subrange(eq + 1, end))]
        } else {
            seq![]
        };
        if end < s.len() {
            pair + query_pairs(s, end + 1)
        } else {
            pair
        }
    }
}

/// The values that `pairs` holds under `key`, in the order of the pairs.
pub open spec fn values_for(pairs: Seq<(Seq<char>, Seq<char>)>, key: Seq<char>) -> Seq<Seq<char>>
    decreases pairs.len(),
{
    if pairs.len() == 0 {
        seq![]
    } else {
        let before = values_for(pairs.drop_last(), key);
        if pairs.last().0 == key {
            before.push(pairs.last().1)
        } else {
            before
        }
    }
}

/// Each key that occurs in `pairs`, with its values in order.
pub open spec fn pairs_map(pairs: Seq<(Seq<char>, Seq<char>)>) -> Map<Seq<char>, Seq<Seq<char>>> {
    Map::new(|k: Seq<char>| values_for(pairs, k).len() > 0, |k: Seq<char>| values_for(pairs, k))
}

/// What a query string maps each of its keys to.
pub open spec fn query_map(s: Seq<char>) -> Map<Seq<char>, Seq<Seq<char>>> {
    pairs_map(query_pairs(s, 0))
}

/// A parsed query string: each key with the values given for it, in order.
/// The entries are kept in a vector in the order their keys first came, and
/// no key is held twice.
#[derive(Debug)]
pub struct QueryString {
    data: Vec<(String, Vec<String>)>,
}

impl QueryString {
    /// No key is held twice.
    #[verifier::type_invariant]
    spec fn keys_unique(self) -> bool {
        forall|i: int, j: int|
            0 <= i < self.data@.len() && 0 <= j < self.data@.len() && i != j
                ==> #[trigger] self.data@[i].0@ != #[trigger] self.data@[j].0@
    }

    pub closed spec fn view(self) -> Map<Seq<char>, Seq<Seq<char>>> {
        Map::new(
            |k: Seq<char>| exists|i: int| 0 <= i < self.data@.len() && self.data@[i].0@ == k,
            |k: Seq<char>|
                self.data@[choose|i: int| 0 <= i < self.data@.len() && self.data@[i].0@
                    == k].1.deep_view(),
        )
    }

    /// Parses a query string. No form decoding is done; components without
    /// an `=` are dropped.
    pub fn parse(s: &str) -> (r: QueryString)
        ensures
            r@ == query_map(s@),
    {
        let cs = chars_of(s);
        let n = cs.len();
        let mut data: Vec<(String, Vec<String>)> = Vec::new();
        let mut from: usize = 0;
        let ghost mut done: Seq<(Seq<char>, Seq<char>)> = seq![];
        loop
            invariant_except_break
                query_pairs(s@, 0) == done + query_pairs(s@, from as int),
            invariant
                cs@ == s@,
                n == s@.len(),
                from <= n,
                entries_hold(data@, done),
            ensures
                query_pairs(s@, 0) == done,
                entries_hold(data@, done),
            decreases n - from,
        {
            let end = find_char(&cs, '&', from, n);
            proof {
                lemma_first_char(s@, '&', from as int, n as int);
            }
            let eq = find_char(&cs, '=', from, end);
            proof {
                lemma_first_char(s@, '=', from as int, end as int);
            }
            let ghost before = done;
            if eq < end {
                let key = substring(s, from, eq);
                let val = substring(s, eq + 1, end);
                proof {
                    done = done.push((key@, val@));
                }
                add_pair(&mut data, key, val, Ghost(before));
            }
            proof {
                let pair = if eq < end {
                    seq![(s@.subrange(from as int, eq as int), s@.subrange(eq + 1, end as int))]
                } else {
                    seq![]
                };
                assert(done == before + pair);
                if end < n {
                    assert(query_pairs(s@, from as int) == pair + query_pairs(s@, end + 1));
                    assert(before + (pair + query_pairs(s@, end + 1)) == done + query_pairs(
                        s@,
                        end + 1,
                    ));
                } else {
                    assert(query_pairs(s@, from as int) == pair);
                }
            }
            if end == n {
                break;
            }
            from = end + 1;
        }
        let r = QueryString { data };
        proof {
            assert(r@ =~= query_map(s@));
        }
        r
    }

    /// The values given for `key`, in the order they came.
    pub fn get(&self, key: &str) -> (r: Option<&Vec<String>>)
        ensures
            r is Some <==> self@.contains_key(key@),
            r matches Some(v) ==> v.deep_view() == self@[key@],
    {
        let mut i: usize = 0;
        while i < self.data.len()
            invariant
                i <= self.data@.len(),
                forall|j: int| 0 <= j < i ==> self.data@[j].0@ != key@,
            decreases self.data@.len() - i,
        {
            if same_text(self.data[i].0.as_str(), key) {
                proof {
                    use_type_invariant(self);
                    let j = choose|j: int| 0 <= j < self.data@.len() && self.data@[j].0@ == key@;
                    assert(self.data@[i as int].0@ == key@);
                    assert(self.data@[j].0@ == key@);
                    assert(j == i);
                }
                return Some(&self.data[i].1);
            }
            i += 1;
        }
        None
    }
}

/// Each entry holds its key's values in `done`, no key is held twice, and
/// every key of `done` is held.
spec fn entries_hold(data: Seq<(String, Vec<String>)>, done: Seq<(Seq<char>, Seq<char>)>) -> bool {
    &&& forall|i: int, j: int|
        0 <= i < data.len() && 0 <= j < data.len() && i != j ==> #[trigger] data[i].0@
            != #[trigger] data[j].0@
    &&& forall|i: int| 0 <= i < data.len() ==> #[trigger] data[i].1.deep_view() == values_for(done, data[i].0@)
    &&& forall|k: Seq<char>|
        #![trigger values_for(done, k)]
        values_for(done, k).len() > 0 <==> exists|i: int| 0 <= i < data.len() && data[i].0@ == k
}

proof fn lemma_values_for_push(pairs: Seq<(Seq<char>, Seq<char>)>, p: (Seq<char>, Seq<char>), k: Seq<char>)
    ensures
        values_for(pairs.push(p), k) == if p.0 == k {
            values_for(pairs, k).push(p.1)
        } else {
            values_for(pairs, k)
        },
{
    assert(pairs.push(p).drop_last() == pairs);
}

/// Adds a value under a key, after the values already held for it.
fn add_pair(
    data: &mut Vec<(String, Vec<String>)>,
    key: String,
    val: String,
    Ghost(done): Ghost<Seq<(Seq<char>, Seq<char>)>>,
)
    requires
        entries_hold(old(data)@, done),
    ensures
        entries_hold(final(data)@, done.push((key@, val@))),
{
    let ghost p = (key@, val@);
    let ghost now = done.push(p);
    let mut i: usize = 0;
    while i < data.len()
        invariant
            i <= data@.len(),
            forall|j: int| 0 <= j < i ==> data@[j].0@ != key@,
        ensures
            i <= data@.len(),
            forall|j: int| 0 <= j < i ==> data@[j].0@ != key@,
            i < data@.len() ==> data@[i as int].0@ == key@,
        decreases data@.len() - i,
    {
        if data[i].0 == key {
            break;
        }
        i += 1;
    }
    let ghost prev = data@;
    if i < data.len() {
        let ghost vals = data@[i as int].1;
        data[i].1.push(val);
        proof {
            assert(data@[i as int].1.deep_view() =~= vals.deep_view().push(p.1));
            assert(data@[i as int].0 == prev[i as int].0);
            assert forall|j: int| 0 <= j < data@.len() && j != i implies data@[j] == prev[j] by {}
            assert(data@.len() == prev.len());
        }
    } else {
        let v = vec![val];
        proof {
            assert(v.deep_view() =~= seq![p.1]);
        }
        data.push((key, v));
        proof {
            assert(data@ == prev.push((key, v)));
        }
    }
    assert forall|i: int, j: int|
        0 <= i < data@.len() && 0 <= j < data@.len() && i != j implies #[trigger] data@[i].0@
        != #[trigger] data@[j].0@ by {}
    assert forall|j: int| 0 <= j < data@.len() implies #[trigger] data@[j].1.deep_view() == values_for(now, data@[j].0@) by {
        lemma_values_for_push(done, p, data@[j].0@);
    }
    assert forall|k: Seq<char>| #[trigger] values_for(now, k).len() > 0 implies exists|j: int|
        0 <= j < data@.len() && data@[j].0@ == k by {
        lemma_values_for_push(done, p, k);
        if k == p.0 {
            if i < prev.len() {
                assert(data@[i as int].0@ == k);
            } else {
                assert(data@[prev.len() as int].0@ == k);
            }
        } else {
            let w = choose|w: int| 0 <= w < prev.len() && prev[w].0@ == k;
            assert(data@[w].0@ == k);
        }
    }
    assert forall|k: Seq<char>| (exists|i: int| 0 <= i < data@.len() && data@[i].0@ == k) implies #[trigger] values_for(now, k).len() > 0 by {
        lemma_values_for_push(done, p, k);
    }
}

} // verus!
