use vstd::prelude::*;

verus! {

/// `p` occurs in `t` starting at character index `i`.
pub open spec fn occurs_at(t: Seq<char>, p: Seq<char>, i: int) -> bool {
    0 <= i && i + p.len() <= t.len() && t.subrange(i, i + p.len()) == p
}

/// `p` is a contiguous part of `t` (the empty sequence is part of everything).
pub open spec fn is_substring(p: Seq<char>, t: Seq<char>) -> bool {
    exists|i: int| occurs_at(t, p, i)
}

/// `i` is the index of the first occurrence of `p` in `t`.
pub open spec fn is_first_occurrence(t: Seq<char>, p: Seq<char>, i: int) -> bool {
    occurs_at(t, p, i) && forall|j: int| 0 <= j < i ==> !occurs_at(t, p, j)
}

/// The index of the first occurrence of `p` in `t`, if any.
pub open spec fn first_occurrence(t: Seq<char>, p: Seq<char>) -> Option<int> {
    if exists|i: int| is_first_occurrence(t, p, i) {
        Some(choose|i: int| is_first_occurrence(t, p, i))
    } else {
        None
    }
}

/// Text with leading and trailing whitespace removed, as `str::trim` gives it.
pub uninterp spec fn trim_of(s: Seq<char>) -> Seq<char>;

/// Text in lower case, as `str::to_lowercase` gives it.
pub uninterp spec fn lower_of(s: Seq<char>) -> Seq<char>;

/// Relies on `str::trim`: the result depends on the characters alone.
#[verifier::external_body]
pub(crate) fn trimmed(s: &str) -> (r: String)
    ensures
        r@ == trim_of(s@),
{
    s.trim().to_string()
}

/// Relies on `str::to_lowercase`: the result depends on the characters alone,
/// and empty text stays empty.
#[verifier::external_body]
pub(crate) fn lowercase(s: &str) -> (r: String)
    ensures
        r@ == lower_of(s@),
        s@.len() == 0 ==> r@.len() == 0,
{
    s.to_lowercase()
}

/// Two minimal first occurrences are the same index.
pub(crate) proof fn lemma_first_occurrence_unique(t: Seq<char>, p: Seq<char>, i: int)
    requires
        is_first_occurrence(t, p, i),
    ensures
        first_occurrence(t, p) == Some(i),
{
    let k = choose|k: int| is_first_occurrence(t, p, k);
    assert(is_first_occurrence(t, p, k));
    if k < i {
        assert(!occurs_at(t, p, k));
    } else if i < k {
        assert(!occurs_at(t, p, i));
    }
}

/// Whether `p` occurs in `t` at character index `i`, for `i + |p| <= |t|`.
fn matches_at(t: &str, p: &str, i: usize) -> (r: bool)
    requires
        i + p@.len() <= t@.len(),
    ensures
        r == occurs_at(t@, p@, i as int),
{
    let n = p.unicode_len();
    let tn = t.unicode_len();
    let mut k: usize = 0;
    while k < n
        invariant
            n == p@.len(),
            tn == t@.len(),
            i + n <= tn,
            k <= n,
            forall|m: int| 0 <= m < k ==> t@[i + m] == p@[m],
        decreases n - k,
    {
        if t.get_char(i + k) != p.get_char(k) {
            assert(t@.subrange(i as int, i + n)[k as int] != p@[k as int]);
            return false;
        }
        k = k + 1;
    }
    assert(t@.subrange(i as int, i + n) =~= p@);
    true
}

/// The character index of the first occurrence of `p` in `t`, or `None`.
pub fn find_text(t: &str, p: &str) -> (r: Option<usize>)
    ensures
        match r {
            Some(i) => is_first_occurrence(t@, p@, i as int) && first_occurrence(t@, p@) == Some(
                i as int,
            ),
            None => first_occurrence(t@, p@) is None && !is_substring(p@, t@),
        },
{
    let tn = t.unicode_len();
    let pn = p.unicode_len();
    if pn > tn {
        assert forall|i: int| !occurs_at(t@, p@, i) by {}
        assert(!exists|i: int| is_first_occurrence(t@, p@, i));
        return None;
    }
    let last = tn - pn;
    let mut i: usize = 0;
    loop
        invariant
            tn == t@.len(),
            pn == p@.len(),
            last == tn - pn,
            i <= last,
            forall|j: int| 0 <= j < i ==> !occurs_at(t@, p@, j),
        ensures
            forall|j: int| 0 <= j <= last ==> !occurs_at(t@, p@, j),
        decreases last - i,
    {
        if matches_at(t, p, i) {
            proof {
                lemma_first_occurrence_unique(t@, p@, i as int);
            }
            return Some(i);
        }
        if i == last {
            break;
        }
        i = i + 1;
    }
    assert forall|j: int| !occurs_at(t@, p@, j) by {
        if 0 <= j <= last {
        }
    }
    assert(!exists|j: int| is_first_occurrence(t@, p@, j));
    None
}

/// Whether `a` and `b` hold the same characters.
pub fn same_text(a: &str, b: &str) -> (r: bool)
    ensures
        r == (a@ == b@),
{
    if a.unicode_len() != b.unicode_len() {
        return false;
    }
    let r = matches_at(a, b, 0);
    assert(a@.subrange(0, b@.len() as int) =~= a@);
    r
}

/// Whether `p` occurs anywhere in `t`.
pub fn contains_text(t: &str, p: &str) -> (r: bool)
    ensures
        r == is_substring(p@, t@),
{
    match find_text(t, p) {
        Some(i) => {
            assert(first_occurrence(t@, p@) == Some(i as int));
            assert(exists|k: int| is_first_occurrence(t@, p@, k));
            let ghost k = choose|k: int| is_first_occurrence(t@, p@, k);
            assert(occurs_at(t@, p@, k));
            true
        },
        None => false,
    }
}

} // verus!
