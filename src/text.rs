//! Searching for a separator in text, as `str::split` and `str::split_once`
//! do with a string pattern.
use vstd::prelude::*;
use vstd::string::StrSliceExecFns;

verus! {

/// Whether `sep` occurs in `s` at position `i`.
pub open spec fn occurs_at(s: Seq<char>, sep: Seq<char>, i: int) -> bool {
    0 <= i && i + sep.len() <= s.len() && s.subrange(i, i + sep.len()) == sep
}

/// The position of the leftmost occurrence of `sep` in `s`.
pub open spec fn find_sep(s: Seq<char>, sep: Seq<char>) -> Option<int>
    decreases s.len(),
{
    if s.len() < sep.len() {
        None
    } else if s.take(sep.len() as int) == sep {
        Some(0)
    } else if s.len() == 0 {
        None
    } else {
        match find_sep(s.drop_first(), sep) {
            Some(k) => Some(k + 1),
            None => None,
        }
    }
}

/// The pieces of `s` between the occurrences of `sep`, taken leftmost first
/// without overlap; there is always at least one.
pub open spec fn split_pieces(s: Seq<char>, sep: Seq<char>) -> Seq<Seq<char>>
    decreases s.len(),
{
    match find_sep(s, sep) {
        Some(k) => if sep.len() > 0 && 0 <= k && k + sep.len() <= s.len() {
            seq![s.take(k)] + split_pieces(s.skip(k + sep.len()), sep)
        } else {
            seq![s]
        },
        None => seq![s],
    }
}

/// `s` cut at the leftmost occurrence of `sep`, which is left out.
pub open spec fn split_once(s: Seq<char>, sep: Seq<char>) -> Option<(Seq<char>, Seq<char>)> {
    match find_sep(s, sep) {
        Some(k) => Some((s.take(k), s.skip(k + sep.len()))),
        None => None,
    }
}

/// `find_sep` is `j`, given that `sep` does not occur before `j` and occurs
/// at `j` (or `j` is past the last place where it could).
pub proof fn lemma_find_sep(s: Seq<char>, sep: Seq<char>, j: int)
    requires
        0 <= j,
        sep.len() > 0,
        j + sep.len() <= s.len() + 1,
        forall|i: int| 0 <= i < j ==> !occurs_at(s, sep, i),
        j + sep.len() <= s.len() ==> occurs_at(s, sep, j),
    ensures
        find_sep(s, sep) == (if j + sep.len() <= s.len() {
            Some(j)
        } else {
            None::<int>
        }),
    decreases s.len(),
{
    if s.len() < sep.len() {
    } else if j == 0 {
        assert(s.take(sep.len() as int) =~= s.subrange(0, sep.len() as int));
    } else {
        assert(!occurs_at(s, sep, 0));
        assert(s.take(sep.len() as int) =~= s.subrange(0, sep.len() as int));
        let t = s.drop_first();
        assert forall|i: int| 0 <= i < j - 1 implies !occurs_at(t, sep, i) by {
            assert(!occurs_at(s, sep, i + 1));
            assert(t.subrange(i, i + sep.len()) =~= s.subrange(i + 1, i + 1 + sep.len()));
        }
        if j + sep.len() <= s.len() {
            assert(t.subrange(j - 1, j - 1 + sep.len()) =~= s.subrange(j, j + sep.len()));
        }
        lemma_find_sep(t, sep, j - 1);
    }
}

/// Whether `sep` occurs in `v` at `i`.
fn occurs_at_exec(v: &Vec<char>, sep: &Vec<char>, i: usize, hi: usize) -> (r: bool)
    requires
        i <= hi <= v@.len(),
    ensures
        r == (i + sep@.len() <= hi && v@.subrange(i as int, i + sep@.len()) == sep@),
{
    if sep.len() > hi - i {
        return false;
    }
    let mut j: usize = 0;
    while j < sep.len()
        invariant
            i + sep@.len() <= hi <= v@.len(),
            j <= sep@.len(),
            forall|k: int| 0 <= k < j ==> v@[i + k] == sep@[k],
        decreases sep@.len() - j,
    {
        if v[i + j] != sep[j] {
            assert(v@.subrange(i as int, i + sep@.len())[j as int] != sep@[j as int]);
            return false;
        }
        j = j + 1;
    }
    assert(v@.subrange(i as int, i + sep@.len()) =~= sep@);
    true
}

/// The position of the leftmost occurrence of `sep` in `v[lo..hi]`.
pub fn find_sep_in(v: &Vec<char>, lo: usize, hi: usize, sep: &Vec<char>) -> (r: Option<usize>)
    requires
        lo <= hi <= v@.len(),
        sep@.len() > 0,
    ensures
        match r {
            Some(k) => lo <= k && k + sep@.len() <= hi && find_sep(
                v@.subrange(lo as int, hi as int),
                sep@,
            ) == Some(k - lo),
            None => find_sep(v@.subrange(lo as int, hi as int), sep@) is None,
        },
{
    let ghost s = v@.subrange(lo as int, hi as int);
    let mut i = lo;
    while i < hi && sep.len() <= hi - i
        invariant
            lo <= i <= hi <= v@.len(),
            sep@.len() > 0,
            s == v@.subrange(lo as int, hi as int),
            forall|j: int| 0 <= j < i - lo ==> !occurs_at(s, sep@, j),
        decreases hi - i,
    {
        let found = occurs_at_exec(v, sep, i, hi);
        proof {
            if i + sep@.len() <= hi {
                assert(s.subrange(i - lo, i - lo + sep@.len()) =~= v@.subrange(
                    i as int,
                    i + sep@.len(),
                ));
            }
        }
        if found {
            proof {
                lemma_find_sep(s, sep@, i - lo);
            }
            return Some(i);
        }
        i = i + 1;
    }
    proof {
        assert forall|j: int| 0 <= j < s.len() - sep@.len() + 1 implies !occurs_at(s, sep@, j) by {
            if j >= i - lo {
                assert(!(j + sep@.len() <= s.len()));
            }
        }
        if s.len() >= sep@.len() {
            lemma_find_sep(s, sep@, s.len() - sep@.len() + 1);
        }
    }
    None
}

/// Whether `a` and `b` hold the same characters.
pub fn str_eq(a: &str, b: &str) -> (r: bool)
    ensures
        r == (a@ == b@),
{
    let n = a.unicode_len();
    if n != b.unicode_len() {
        return false;
    }
    let mut i: usize = 0;
    while i < n
        invariant
            n == a@.len() == b@.len(),
            i <= n,
            forall|k: int| 0 <= k < i ==> a@[k] == b@[k],
        decreases n - i,
    {
        if a.get_char(i) != b.get_char(i) {
            return false;
        }
        i = i + 1;
    }
    assert(a@ =~= b@);
    true
}

} // verus!
