use vstd::prelude::*;

verus! {

/// Whether two strings hold the same characters.
pub(crate) fn same_text(a: &str, b: &str) -> (r: bool)
    ensures
        r == (a@ == b@),
{
    let x = chars_of(a);
    let y = chars_of(b);
    if x.len() != y.len() {
        return false;
    }
    let mut i: usize = 0;
    while i < x.len()
        invariant
            x@ == a@,
            y@ == b@,
            x@.len() == y@.len(),
            i <= x@.len(),
            forall|j: int| 0 <= j < i ==> x@[j] == y@[j],
        decreases x@.len() - i,
    {
        if x[i] != y[i] {
            return false;
        }
        i += 1;
    }
    assert(a@ =~= b@);
    true
}

} // verus!

verus! {

/// The characters of a string, in order.
pub(crate) fn chars_of(s: &str) -> (r: Vec<char>)
    ensures
        r@ == s@,
{
    let mut out: Vec<char> = Vec::new();
    for c in it: s.chars()
        invariant
            out@ == it.seq().take(it.index() as int),
    {
        out.push(c);
    }
    out
}

} // verus!

verus! {

/// The first position in `from..to` that holds `c`, or `to` when none does.
pub open spec fn first_char(s: Seq<char>, c: char, from: int, to: int) -> int
    decreases to - from,
{
    if from >= to {
        to
    } else if s[from] == c {
        from
    } else {
        first_char(s, c, from + 1, to)
    }
}

pub proof fn lemma_first_char(s: Seq<char>, c: char, from: int, to: int)
    requires
        from <= to,
    ensures
        from <= first_char(s, c, from, to) <= to,
        forall|i: int| from <= i < first_char(s, c, from, to) ==> s[i] != c,
        first_char(s, c, from, to) < to ==> s[first_char(s, c, from, to)] == c,
    decreases to - from,
{
    if from < to && s[from] != c {
        lemma_first_char(s, c, from + 1, to);
    }
}

/// Searching a part of a sequence finds what searching the sequence over
/// the same positions finds.
pub proof fn lemma_first_char_subrange(s: Seq<char>, c: char, a: int, b: int, from: int)
    requires
        0 <= a <= from <= b <= s.len(),
    ensures
        first_char(s.subrange(a, b), c, from - a, b - a) == first_char(s, c, from, b) - a,
    decreases b - from,
{
    if from < b && s[from] != c {
        lemma_first_char_subrange(s, c, a, b, from + 1);
    }
}

/// Finds the first position in `from..to` that holds `c`.
pub(crate) fn find_char(s: &Vec<char>, c: char, from: usize, to: usize) -> (r: usize)
    requires
        from <= to <= s@.len(),
    ensures
        r == first_char(s@, c, from as int, to as int),
{
    let mut i = from;
    while i < to
        invariant
            from <= i <= to <= s@.len(),
            first_char(s@, c, from as int, to as int) == first_char(s@, c, i as int, to as int),
        decreases to - i,
    {
        if s[i] == c {
            return i;
        }
        i += 1;
    }
    i
}

/// The part of a string's characters between two positions, as a new string.
pub(crate) fn substring(s: &str, from: usize, to: usize) -> (r: String)
    requires
        from <= to <= s@.len(),
    ensures
        r@ == s@.subrange(from as int, to as int),
{
    s.substring_char(from, to).to_owned()
}

} // verus!
