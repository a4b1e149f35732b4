//! Character-level helpers for the line protocol: whitespace trimming and
//! prefix matching, with exact specifications over sequences of characters.

use vstd::prelude::*;

verus! {

/// ASCII whitespace: what trimming removes from either end of a line.
pub open spec fn is_ws(c: char) -> bool {
    c == ' ' || c == '\t' || c == '\n' || c == '\x0b' || c == '\x0c' || c == '\r'
}

/// Executable form of `is_ws`.
pub fn is_ws_char(c: char) -> (r: bool)
    ensures
        r == is_ws(c),
{
    c == ' ' || c == '\t' || c == '\n' || c == '\x0b' || c == '\x0c' || c == '\r'
}

/// The sequence with leading whitespace removed.
pub open spec fn trim_start_spec(s: Seq<char>) -> Seq<char>
    decreases s.len(),
{
    if s.len() > 0 && is_ws(s[0]) {
        trim_start_spec(s.drop_first())
    } else {
        s
    }
}

/// The sequence with trailing whitespace removed.
pub open spec fn trim_end_spec(s: Seq<char>) -> Seq<char>
    decreases s.len(),
{
    if s.len() > 0 && is_ws(s.last()) {
        trim_end_spec(s.drop_last())
    } else {
        s
    }
}

/// The sequence with whitespace removed from both ends.
pub open spec fn trim_spec(s: Seq<char>) -> Seq<char> {
    trim_end_spec(trim_start_spec(s))
}

proof fn lemma_trim_start_bound(s: Seq<char>, k: int)
    requires
        0 <= k <= s.len(),
        forall|i: int| 0 <= i < k ==> is_ws(s[i]),
        k < s.len() ==> !is_ws(s[k]),
    ensures
        trim_start_spec(s) =~= s.subrange(k, s.len() as int),
    decreases k,
{
    if k == 0 {
        assert(trim_start_spec(s) =~= s.subrange(0, s.len() as int));
    } else {
        let t = s.drop_first();
        lemma_trim_start_bound(t, k - 1);
        assert(t.subrange(k - 1, t.len() as int) =~= s.subrange(k, s.len() as int));
    }
}

proof fn lemma_trim_end_bound(s: Seq<char>, k: int)
    requires
        0 <= k <= s.len(),
        forall|i: int| k <= i < s.len() ==> is_ws(s[i]),
        k > 0 ==> !is_ws(s[k - 1]),
    ensures
        trim_end_spec(s) =~= s.subrange(0, k),
    decreases s.len() - k,
{
    if k == s.len() {
        assert(trim_end_spec(s) =~= s.subrange(0, s.len() as int));
    } else {
        let t = s.drop_last();
        assert(is_ws(s.last()));
        lemma_trim_end_bound(t, k);
        assert(t.subrange(0, k) =~= s.subrange(0, k));
    }
}

/// Trimming equals the subrange between the first and last non-whitespace
/// characters, given bounds that witness where those are.
proof fn lemma_trim_bounds(s: Seq<char>, start: int, end: int)
    requires
        0 <= start <= end <= s.len(),
        forall|i: int| 0 <= i < start ==> is_ws(s[i]),
        forall|i: int| end <= i < s.len() ==> is_ws(s[i]),
        start < s.len() ==> !is_ws(s[start]),
        end > start ==> !is_ws(s[end - 1]),
    ensures
        trim_spec(s) =~= s.subrange(start, end),
{
    lemma_trim_start_bound(s, start);
    let u = s.subrange(start, s.len() as int);
    lemma_trim_end_bound(u, end - start);
    assert(u.subrange(0, end - start) =~= s.subrange(start, end));
}

/// Removes whitespace from both ends of a string.
pub fn trim_str(s: &str) -> (r: String)
    ensures
        r@ == trim_spec(s@),
{
    let n = s.unicode_len();
    let mut start: usize = 0;
    loop
        invariant_except_break
            0 <= start <= n,
        invariant
            n == s@.len(),
            forall|i: int| 0 <= i < start ==> is_ws(s@[i]),
        ensures
            0 <= start <= n,
            start < n ==> !is_ws(s@[start as int]),
        decreases n - start,
    {
        if start < n {
            if is_ws_char(s.get_char(start)) {
                start = start + 1;
            } else {
                break;
            }
        } else {
            break;
        }
    }
    let mut end: usize = n;
    loop
        invariant_except_break
            start <= end <= n,
        invariant
            n == s@.len(),
            start <= end,
            forall|i: int| end <= i < n ==> is_ws(s@[i]),
            start < n ==> !is_ws(s@[start as int]),
        ensures
            start <= end <= n,
            end > start ==> !is_ws(s@[end - 1]),
        decreases end,
    {
        if end > start {
            if is_ws_char(s.get_char(end - 1)) {
                end = end - 1;
            } else {
                break;
            }
        } else {
            break;
        }
    }
    proof {
        lemma_trim_bounds(s@, start as int, end as int);
    }
    let sub = s.substring_char(start, end);
    sub.to_owned()
}

/// `p` is an initial segment of `s`.
pub open spec fn has_prefix(s: Seq<char>, p: Seq<char>) -> bool {
    p.len() <= s.len() && s.subrange(0, p.len() as int) == p
}

/// Tests whether `p` is an initial segment of `s`.
pub fn str_has_prefix(s: &str, p: &str) -> (r: bool)
    ensures
        r == has_prefix(s@, p@),
{
    let sn = s.unicode_len();
    let pn = p.unicode_len();
    if pn > sn {
        return false;
    }
    let mut i: usize = 0;
    loop
        invariant_except_break
            0 <= i <= pn,
        invariant
            pn <= sn,
            pn == p@.len(),
            sn == s@.len(),
            forall|j: int| 0 <= j < i ==> s@[j] == p@[j],
        ensures
            i == pn,
            forall|j: int| 0 <= j < pn ==> s@[j] == p@[j],
        decreases pn - i,
    {
        if i < pn {
            if s.get_char(i) == p.get_char(i) {
                i = i + 1;
            } else {
                proof {
                    assert(s@.subrange(0, p@.len() as int)[i as int] == s@[i as int]);
                }
                return false;
            }
        } else {
            break;
        }
    }
    proof {
        assert(s@.subrange(0, p@.len() as int) =~= p@);
    }
    true
}

/// The characters of `s` after its first `p.len()` ones, as an owned string.
pub fn str_after_prefix(s: &str, p: &str) -> (r: String)
    requires
        has_prefix(s@, p@),
    ensures
        r@ == s@.subrange(p@.len() as int, s@.len() as int),
{
    let sn = s.unicode_len();
    let pn = p.unicode_len();
    s.substring_char(pn, sn).to_owned()
}

} // verus!
