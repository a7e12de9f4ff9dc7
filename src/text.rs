use vstd::prelude::*;
use vstd::string::StrSliceExecFns;
use crate::expr::to_chars;

verus! {

pub open spec fn is_ws(c: char) -> bool {
    c == ' ' || c == '\t' || c == '\r' || c == '\n'
}

/// Index of the first non-blank character, or the length.
pub open spec fn first_non_ws(s: Seq<char>, i: int) -> int
    decreases s.len() - i,
{
    if 0 <= i < s.len() && is_ws(s[i]) {
        first_non_ws(s, i + 1)
    } else {
        i
    }
}

/// One past the last non-blank character at or after `lo`, scanning down from `hi`.
pub open spec fn last_non_ws(s: Seq<char>, lo: int, hi: int) -> int
    decreases hi - lo,
{
    if lo < hi && hi <= s.len() && is_ws(s[hi - 1]) {
        last_non_ws(s, lo, hi - 1)
    } else {
        hi
    }
}

pub open spec fn trim_start(s: Seq<char>) -> Seq<char> {
    s.subrange(first_non_ws(s, 0), s.len() as int)
}

pub open spec fn trim(s: Seq<char>) -> Seq<char> {
    let a = first_non_ws(s, 0);
    s.subrange(a, last_non_ws(s, a, s.len() as int))
}

/// Index of the first `c` at or after `i`, or the length.
pub open spec fn find_from(s: Seq<char>, c: char, i: int) -> int
    decreases s.len() - i,
{
    if 0 <= i < s.len() && s[i] != c {
        find_from(s, c, i + 1)
    } else {
        i
    }
}

/// The pieces of `s` between occurrences of `c`, from position `i` on.
pub open spec fn split_from(s: Seq<char>, c: char, i: int) -> Seq<Seq<char>>
    decreases s.len() - i,
{
    let j = find_from(s, c, i);
    if i < 0 || i > s.len() || j < i {
        Seq::empty()
    } else if j >= s.len() {
        seq![s.subrange(i, s.len() as int)]
    } else {
        seq![s.subrange(i, j)] + split_from(s, c, j + 1)
    }
}

pub open spec fn split(s: Seq<char>, c: char) -> Seq<Seq<char>> {
    split_from(s, c, 0)
}

fn first_non_ws_exec(cs: &Vec<char>, i: usize) -> (j: usize)
    requires
        i <= cs@.len(),
    ensures
        j as int == first_non_ws(cs@, i as int),
        i <= j <= cs@.len(),
{
    let mut j = i;
    while j < cs.len() && (cs[j] == ' ' || cs[j] == '\t' || cs[j] == '\r' || cs[j] == '\n')
        invariant
            i <= j <= cs@.len(),
            first_non_ws(cs@, j as int) == first_non_ws(cs@, i as int),
        decreases cs@.len() - j,
    {
        j = j + 1;
    }
    j
}

fn last_non_ws_exec(cs: &Vec<char>, lo: usize, hi: usize) -> (j: usize)
    requires
        lo <= hi <= cs@.len(),
    ensures
        j as int == last_non_ws(cs@, lo as int, hi as int),
        lo <= j <= hi,
{
    let mut j = hi;
    while lo < j && (cs[j - 1] == ' ' || cs[j - 1] == '\t' || cs[j - 1] == '\r' || cs[j - 1] == '\n')
        invariant
            lo <= j <= hi <= cs@.len(),
            last_non_ws(cs@, lo as int, j as int) == last_non_ws(cs@, lo as int, hi as int),
        decreases j - lo,
    {
        j = j - 1;
    }
    j
}

/// `s` without leading and trailing blanks.
pub fn trim_str(s: &str) -> (r: &str)
    ensures
        r@ == trim(s@),
{
    let cs = to_chars(s);
    let a = first_non_ws_exec(&cs, 0);
    let b = last_non_ws_exec(&cs, a, cs.len());
    s.substring_char(a, b)
}

/// `s` without leading blanks.
pub fn trim_start_str(s: &str) -> (r: &str)
    ensures
        r@ == trim_start(s@),
{
    let cs = to_chars(s);
    let a = first_non_ws_exec(&cs, 0);
    s.substring_char(a, cs.len())
}

fn find_from_exec(cs: &Vec<char>, c: char, i: usize) -> (j: usize)
    requires
        i <= cs@.len(),
    ensures
        j as int == find_from(cs@, c, i as int),
        i <= j <= cs@.len(),
{
    let mut j = i;
    while j < cs.len() && cs[j] != c
        invariant
            i <= j <= cs@.len(),
            find_from(cs@, c, j as int) == find_from(cs@, c, i as int),
        decreases cs@.len() - j,
    {
        j = j + 1;
    }
    j
}

/// Index of the first `c` in `s`, if any.
pub fn find_char(s: &str, c: char) -> (r: Option<usize>)
    ensures
        find_from(s@, c, 0) < s@.len() ==> r == Some(find_from(s@, c, 0) as usize),
        find_from(s@, c, 0) >= s@.len() ==> r is None,
        r is Some ==> r->Some_0 < s@.len() && r->Some_0 as int == find_from(s@, c, 0),
        r is None ==> find_from(s@, c, 0) == s@.len(),
{
    let cs = to_chars(s);
    let j = find_from_exec(&cs, c, 0);
    if j < cs.len() {
        Some(j)
    } else {
        None
    }
}

/// The pieces of `s` between occurrences of `c`.
pub fn split_str(s: &str, c: char) -> (r: Vec<&str>)
    ensures
        r@.len() == split(s@, c).len(),
        forall|k: int| 0 <= k < r@.len() ==> (#[trigger] r@[k])@ == split(s@, c)[k],
{
    let cs = to_chars(s);
    let mut out: Vec<&str> = Vec::new();
    let mut i: usize = 0;
    loop
        invariant
            cs@ == s@,
            i <= cs@.len(),
            split(s@, c) == Seq::new(out@.len(), |k: int| out@[k]@) + split_from(s@, c, i as int),
        decreases cs@.len() - i,
    {
        let j = find_from_exec(&cs, c, i);
        let piece = s.substring_char(i, j);
        let ghost before = Seq::new(out@.len(), |k: int| out@[k]@);
        out.push(piece);
        let ghost after = Seq::new(out@.len(), |k: int| out@[k]@);
        assert(after =~= before.push(piece@));
        if j >= cs.len() {
            assert(split_from(s@, c, i as int) == seq![piece@]);
            assert(before + seq![piece@] =~= after);
            return out;
        }
        assert(split_from(s@, c, i as int) == seq![piece@] + split_from(s@, c, j + 1));
        assert(before + (seq![piece@] + split_from(s@, c, j + 1)) =~= after + split_from(s@, c, j + 1));
        i = j + 1;
    }
}

/// Whether two strings hold the same characters.
pub fn eq_str(a: &str, b: &str) -> (r: bool)
    ensures
        r == (a@ == b@),
{
    let n = a.unicode_len();
    if n != b.unicode_len() {
        return false;
    }
    let mut k: usize = 0;
    while k < n
        invariant
            n == a@.len() == b@.len(),
            k <= n,
            a@.take(k as int) == b@.take(k as int),
        decreases n - k,
    {
        if a.get_char(k) != b.get_char(k) {
            return false;
        }
        k = k + 1;
        assert(a@.take(k as int) =~= a@.take(k - 1).push(a@[k - 1]));
        assert(b@.take(k as int) =~= b@.take(k - 1).push(b@[k - 1]));
    }
    assert(a@ =~= a@.take(n as int));
    assert(b@ =~= b@.take(n as int));
    true
}

/// Index of the first occurrence of `pat` at or after `i`, or the length.
pub open spec fn find_sub_from(s: Seq<char>, pat: Seq<char>, i: int) -> int
    decreases s.len() + 1 - i,
{
    if i < 0 || i + pat.len() > s.len() {
        s.len() as int
    } else if s.subrange(i, i + pat.len()) == pat {
        i
    } else {
        find_sub_from(s, pat, i + 1)
    }
}

/// Index of the first occurrence of `pat` in `s`, if any.
pub fn find_str(s: &str, pat: &str) -> (r: Option<usize>)
    ensures
        match r {
            Some(k) => k as int == find_sub_from(s@, pat@, 0) && k + pat@.len() <= s@.len(),
            None => find_sub_from(s@, pat@, 0) == s@.len(),
        },
{
    let n = s.unicode_len();
    let m = pat.unicode_len();
    if m == 0 {
        assert(s@.subrange(0, 0) =~= pat@);
        return Some(0);
    }
    let mut i: usize = 0;
    while i < n && m <= n - i
        invariant
            n == s@.len(),
            m == pat@.len(),
            m > 0,
            i <= n,
            find_sub_from(s@, pat@, i as int) == find_sub_from(s@, pat@, 0),
        decreases n + 1 - i,
    {
        if eq_str(s.substring_char(i, i + m), pat) {
            return Some(i);
        }
        i = i + 1;
    }
    None
}

} // verus!
