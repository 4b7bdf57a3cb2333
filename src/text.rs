//! Small verified operations on text.
use vstd::prelude::*;

verus! {

/// Whether two strings hold the same characters.
pub fn same_text(a: &str, b: &str) -> (r: bool)
    ensures
        r == (a@ == b@),
{
    let n = a.unicode_len();
    if n != b.unicode_len() {
        return false;
    }
    let mut i: usize = 0;
    while i < n
        invariant
            n == a@.len(),
            n == b@.len(),
            i <= n,
            forall|j: int| 0 <= j < i ==> a@[j] == b@[j],
        decreases n - i,
    {
        if a.get_char(i) != b.get_char(i) {
            return false;
        }
        i = i + 1;
    }
    proof {
        assert(a@ =~= b@);
    }
    true
}

/// Where the first `c` of `s` stands, or the length of `s` where it has none.
pub open spec fn first_or_end(s: Seq<char>, c: char) -> int {
    match s.index_of_first(c) {
        Some(i) => i,
        None => s.len() as int,
    }
}

/// The index of the first `c` in `s`, or its length where it has none.
pub fn find_char(s: &str, c: char) -> (r: usize)
    ensures
        r as int == first_or_end(s@, c),
        r <= s@.len(),
{
    proof {
        s@.index_of_first_ensures(c);
    }
    let n = s.unicode_len();
    let mut i: usize = 0;
    while i < n
        invariant
            n == s@.len(),
            i <= n,
            forall|j: int| 0 <= j < i ==> s@[j] != c,
            match s@.index_of_first(c) {
                Some(index) => {
                    &&& s@.contains(c)
                    &&& 0 <= index < s@.len()
                    &&& s@[index] == c
                    &&& forall|j: int| 0 <= j < index < s@.len() ==> s@[j] != c
                },
                None => { !s@.contains(c) },
            },
        decreases n - i,
    {
        if s.get_char(i) == c {
            return i;
        }
        i = i + 1;
    }
    proof {
        if s@.contains(c) {
            let k = choose|k: int| 0 <= k < s@.len() && s@[k] == c;
            assert(s@[k] != c);
        }
    }
    n
}

/// Whether `c` occurs among the first `upto` characters of `s`.
pub fn has_char_before(s: &str, upto: usize, c: char) -> (r: bool)
    requires
        upto <= s@.len(),
    ensures
        r == s@.subrange(0, upto as int).contains(c),
{
    let mut i: usize = 0;
    while i < upto
        invariant
            upto <= s@.len(),
            i <= upto,
            forall|j: int| 0 <= j < i ==> s@[j] != c,
        decreases upto - i,
    {
        if s.get_char(i) == c {
            proof {
                assert(s@.subrange(0, upto as int)[i as int] == c);
            }
            return true;
        }
        i = i + 1;
    }
    proof {
        if s@.subrange(0, upto as int).contains(c) {
            let k = choose|k: int| 0 <= k < upto && s@.subrange(0, upto as int)[k] == c;
            assert(s@[k] == c);
        }
    }
    false
}

} // verus!
