//! Text utilities on strings seen as sequences of characters.
use vstd::prelude::*;
use vstd::string::*;

verus! {

/// The characters of `s`, in order.
pub fn chars_of(s: &str) -> (res: Vec<char>)
    ensures
        res@ == s@,
{
    let mut res: Vec<char> = Vec::new();
    for c in it: s.chars()
        invariant
            res@ == it.seq().take(it.index() as int),
            it.seq() == s@,
    {
        res.push(c);
    }
    res
}

/// `pat` occurs in `s` starting at position `i`.
pub open spec fn occurs_at(s: Seq<char>, pat: Seq<char>, i: int) -> bool {
    0 <= i && i + pat.len() <= s.len() && s.subrange(i, i + pat.len()) == pat
}

/// `pat` occurs somewhere in `s`.
pub open spec fn contains_seq(s: Seq<char>, pat: Seq<char>) -> bool {
    exists|i: int| occurs_at(s, pat, i)
}

/// `s` without its leading characters equal to `c`.
pub open spec fn trim_start(s: Seq<char>, c: char) -> Seq<char>
    decreases s.len(),
{
    if s.len() > 0 && s[0] == c {
        trim_start(s.drop_first(), c)
    } else {
        s
    }
}

/// `s` without its trailing characters equal to `c`.
pub open spec fn trim_end(s: Seq<char>, c: char) -> Seq<char>
    decreases s.len(),
{
    if s.len() > 0 && s.last() == c {
        trim_end(s.drop_last(), c)
    } else {
        s
    }
}

/// `s` without its leading and trailing characters equal to `c`.
pub open spec fn trim_char(s: Seq<char>, c: char) -> Seq<char> {
    trim_end(trim_start(s, c), c)
}

proof fn lemma_trim_start_skip(s: Seq<char>, c: char, k: int)
    requires
        0 <= k <= s.len(),
        forall|i: int| 0 <= i < k ==> s[i] == c,
    ensures
        trim_start(s, c) == trim_start(s.skip(k), c),
    decreases k,
{
    if k > 0 {
        assert(s.drop_first().skip(k - 1) =~= s.skip(k));
        lemma_trim_start_skip(s.drop_first(), c, k - 1);
    } else {
        assert(s.skip(0) =~= s);
    }
}

proof fn lemma_trim_end_take(s: Seq<char>, c: char, k: int)
    requires
        0 <= k <= s.len(),
        forall|i: int| k <= i < s.len() ==> s[i] == c,
    ensures
        trim_end(s, c) == trim_end(s.take(k), c),
    decreases s.len() - k,
{
    if k < s.len() {
        assert(s.drop_last().take(k) =~= s.take(k));
        lemma_trim_end_take(s.drop_last(), c, k);
    } else {
        assert(s.take(k) =~= s);
    }
}

proof fn lemma_trim_start_shape(s: Seq<char>, c: char) -> (lo: int)
    ensures
        0 <= lo <= s.len(),
        trim_start(s, c) == s.skip(lo),
        forall|i: int| 0 <= i < lo ==> s[i] == c,
        lo < s.len() ==> s[lo] != c,
    decreases s.len(),
{
    if s.len() > 0 && s[0] == c {
        let k = lemma_trim_start_shape(s.drop_first(), c);
        assert(s.drop_first().skip(k) =~= s.skip(k + 1));
        assert forall|i: int| 0 <= i < k + 1 implies s[i] == c by {
            if i > 0 {
                assert(s[i] == s.drop_first()[i - 1]);
            }
        }
        assert(k + 1 < s.len() ==> s[k + 1] == s.drop_first()[k]);
        k + 1
    } else {
        assert(s.skip(0) =~= s);
        0
    }
}

proof fn lemma_trim_end_shape(s: Seq<char>, c: char) -> (hi: int)
    ensures
        0 <= hi <= s.len(),
        trim_end(s, c) == s.take(hi),
        forall|i: int| hi <= i < s.len() ==> s[i] == c,
        hi > 0 ==> s[hi - 1] != c,
    decreases s.len(),
{
    if s.len() > 0 && s.last() == c {
        let k = lemma_trim_end_shape(s.drop_last(), c);
        assert(s.drop_last().take(k) =~= s.take(k));
        assert(k > 0 ==> s[k - 1] == s.drop_last()[k - 1]);
        assert forall|i: int| k <= i < s.len() implies s[i] == c by {
            if i < s.len() - 1 {
                assert(s[i] == s.drop_last()[i]);
            }
        }
        k
    } else {
        assert(s.take(s.len() as int) =~= s);
        s.len() as int
    }
}

/// Trimming removes every leading and trailing `c` and nothing else: what
/// remains is a contiguous part of `s`, surrounded in `s` by `c` only, that
/// neither starts nor ends with `c`; trimming it again changes nothing.
pub proof fn law_trim_char(s: Seq<char>, c: char)
    ensures
        exists|lo: int, hi: int|
            0 <= lo <= hi <= s.len() && trim_char(s, c) == s.subrange(lo, hi) && (forall|i: int|
                0 <= i < lo ==> s[i] == c) && (forall|i: int| hi <= i < s.len() ==> s[i] == c),
        trim_char(s, c).len() > 0 ==> trim_char(s, c)[0] != c && trim_char(s, c).last() != c,
        trim_char(trim_char(s, c), c) == trim_char(s, c),
{
    let lo = lemma_trim_start_shape(s, c);
    let t = s.skip(lo);
    let h = lemma_trim_end_shape(t, c);
    let r = t.take(h);
    assert(r =~= s.subrange(lo, lo + h));
    assert forall|i: int| lo + h <= i < s.len() implies s[i] == c by {
        assert(s[i] == t[i - lo]);
    }
    assert(0 <= lo <= lo + h <= s.len() && trim_char(s, c) == s.subrange(lo, lo + h));
    if r.len() > 0 {
        assert(r[0] == t[0]);
        assert(r.last() == t[h - 1]);
    }
    assert(trim_start(r, c) == r);
    assert(trim_end(r, c) == r);
}

/// Index of the first `c` in `s`, if any.
pub fn find_char(s: &Vec<char>, c: char) -> (res: Option<usize>)
    ensures
        match res {
            Some(i) => i < s@.len() && s@[i as int] == c && forall|j: int| 0 <= j < i ==> s@[j] != c,
            None => forall|j: int| 0 <= j < s@.len() ==> s@[j] != c,
        },
{
    let mut i: usize = 0;
    while i < s.len()
        invariant
            i <= s@.len(),
            forall|j: int| 0 <= j < i ==> s@[j] != c,
        decreases s@.len() - i,
    {
        if s[i] == c {
            return Some(i);
        }
        i = i + 1;
    }
    None
}

/// Index of the last `c` in `s`, if any.
pub fn rfind_char(s: &Vec<char>, c: char) -> (res: Option<usize>)
    ensures
        match res {
            Some(i) => i < s@.len() && s@[i as int] == c && forall|j: int|
                i < j < s@.len() ==> s@[j] != c,
            None => forall|j: int| 0 <= j < s@.len() ==> s@[j] != c,
        },
{
    let mut i: usize = s.len();
    while i > 0
        invariant
            i <= s@.len(),
            forall|j: int| i <= j < s@.len() ==> s@[j] != c,
        decreases i,
    {
        if s[i - 1] == c {
            return Some(i - 1);
        }
        i = i - 1;
    }
    None
}

/// Whether `pat` occurs at position `i` of `s`.
fn occurs_at_exec(s: &Vec<char>, pat: &Vec<char>, i: usize) -> (res: bool)
    requires
        i + pat@.len() <= s@.len(),
    ensures
        res == occurs_at(s@, pat@, i as int),
{
    let slen = s.len();
    let mut k: usize = 0;
    while k < pat.len()
        invariant
            slen == s@.len(),
            k <= pat@.len(),
            i + pat@.len() <= s@.len(),
            forall|j: int| 0 <= j < k ==> s@[i + j] == pat@[j],
        decreases pat@.len() - k,
    {
        if s[i + k] != pat[k] {
            assert(s@.subrange(i as int, i + pat@.len())[k as int] != pat@[k as int]);
            return false;
        }
        k = k + 1;
    }
    assert(s@.subrange(i as int, i + pat@.len()) =~= pat@);
    true
}

/// Whether `pat` occurs somewhere in `s`.
pub fn contains_chars(s: &Vec<char>, pat: &Vec<char>) -> (res: bool)
    ensures
        res == contains_seq(s@, pat@),
{
    if pat.len() > s.len() {
        return false;
    }
    let last = s.len() - pat.len();
    let mut i: usize = 0;
    loop
        invariant
            last + pat@.len() == s@.len(),
            i <= last,
            forall|j: int| 0 <= j < i ==> !occurs_at(s@, pat@, j),
        decreases last - i,
    {
        if occurs_at_exec(s, pat, i) {
            return true;
        }
        if i == last {
            assert forall|j: int| #![trigger occurs_at(s@, pat@, j)] occurs_at(s@, pat@, j) implies j < i + 1 by {}
            return false;
        }
        i = i + 1;
    }
}

/// `s` without its leading and trailing characters equal to `c`
/// (what `str::trim_matches` gives with a single character).
pub fn trim_matches_char(s: &str, c: char) -> (res: String)
    ensures
        res@ == trim_char(s@, c),
{
    let cs = chars_of(s);
    let n = cs.len();
    let mut lo: usize = 0;
    while lo < n && cs[lo] == c
        invariant
            lo <= n,
            n == s@.len(),
            cs@ == s@,
            forall|i: int| 0 <= i < lo ==> s@[i] == c,
        decreases n - lo,
    {
        lo = lo + 1;
    }
    let mut hi: usize = n;
    while hi > lo && cs[hi - 1] == c
        invariant
            lo <= hi <= n,
            n == s@.len(),
            cs@ == s@,
            forall|i: int| hi <= i < n ==> s@[i] == c,
        decreases hi,
    {
        hi = hi - 1;
    }
    proof {
        lemma_trim_start_skip(s@, c, lo as int);
        let t = s@.skip(lo as int);
        assert(t.len() == 0 || t[0] != c);
        assert(trim_start(s@, c) == t);
        lemma_trim_end_take(t, c, hi - lo);
        let u = t.take(hi - lo);
        assert(u =~= s@.subrange(lo as int, hi as int));
        assert(u.len() == 0 || u.last() != c);
    }
    let sub = s.substring_char(lo, hi);
    String::from_str(sub)
}

} // verus!
