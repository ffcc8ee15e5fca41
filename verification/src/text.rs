//! Verified text helpers for the dispatch engine: whitespace trimming,
//! token extraction and command-name parsing, specified over `Seq<char>`.

use vstd::prelude::*;
use vstd::seq_lib::*;

verus! {

/// The characters `str::trim` removes: the Unicode white-space set.
pub open spec fn is_space_char(c: char) -> bool {
    ||| c == '\u{0009}'
    ||| c == '\u{000A}'
    ||| c == '\u{000B}'
    ||| c == '\u{000C}'
    ||| c == '\u{000D}'
    ||| c == ' '
    ||| c == '\u{0085}'
    ||| c == '\u{00A0}'
    ||| c == '\u{1680}'
    ||| c == '\u{2000}'
    ||| c == '\u{2001}'
    ||| c == '\u{2002}'
    ||| c == '\u{2003}'
    ||| c == '\u{2004}'
    ||| c == '\u{2005}'
    ||| c == '\u{2006}'
    ||| c == '\u{2007}'
    ||| c == '\u{2008}'
    ||| c == '\u{2009}'
    ||| c == '\u{200A}'
    ||| c == '\u{2028}'
    ||| c == '\u{2029}'
    ||| c == '\u{202F}'
    ||| c == '\u{205F}'
    ||| c == '\u{3000}'
}

/// `s` without its leading white space.
pub open spec fn trim_start_spec(s: Seq<char>) -> Seq<char>
    decreases s.len(),
{
    if s.len() > 0 && is_space_char(s[0]) {
        trim_start_spec(s.drop_first())
    } else {
        s
    }
}

/// `s` without its trailing white space.
pub open spec fn trim_end_spec(s: Seq<char>) -> Seq<char>
    decreases s.len(),
{
    if s.len() > 0 && is_space_char(s[s.len() - 1]) {
        trim_end_spec(s.drop_last())
    } else {
        s
    }
}

/// `s` without leading and trailing white space: what `str::trim`
/// returns.
pub open spec fn trimmed(s: Seq<char>) -> Seq<char> {
    trim_end_spec(trim_start_spec(s))
}

/// The length of the leading run of non-white-space characters.
pub open spec fn token_len(s: Seq<char>) -> int
    decreases s.len(),
{
    if s.len() == 0 || is_space_char(s[0]) {
        0
    } else {
        1 + token_len(s.drop_first())
    }
}

/// The first whitespace-delimited token of `s`: its leading run of
/// non-white-space characters.
pub open spec fn first_token(s: Seq<char>) -> Seq<char> {
    s.take(token_len(s))
}

/// The command name parsed from trimmed content `t`: if `t` starts with
/// the prefix, the first whitespace-delimited token after it; otherwise
/// no command.
pub open spec fn parsed_command(prefix: Seq<char>, t: Seq<char>) -> Option<Seq<char>> {
    if prefix.is_prefix_of(t) {
        Some(first_token(t.skip(prefix.len() as int)))
    } else {
        None
    }
}

pub proof fn lemma_token_len_bounds(s: Seq<char>)
    ensures
        0 <= token_len(s) <= s.len(),
    decreases s.len(),
{
    if s.len() != 0 && !is_space_char(s[0]) {
        lemma_token_len_bounds(s.drop_first());
    }
}

/// A scan that passed `i` leading white-space characters and stopped at
/// the end or at a non-space pins down `trim_start_spec`.
pub proof fn lemma_trim_start_at(s: Seq<char>, i: int)
    requires
        0 <= i <= s.len(),
        forall|k: int| 0 <= k < i ==> is_space_char(#[trigger] s[k]),
        i == s.len() || !is_space_char(s[i]),
    ensures
        trim_start_spec(s) == s.skip(i),
    decreases i,
{
    if i == 0 {
        assert(s.skip(0) =~= s);
    } else {
        let d = s.drop_first();
        assert(forall|k: int| 0 <= k < i - 1 ==> is_space_char(#[trigger] d[k]));
        lemma_trim_start_at(d, i - 1);
        assert(d.skip(i - 1) =~= s.skip(i));
    }
}

/// A scan that passed the white space after position `j` and stopped at
/// the start or at a non-space pins down `trim_end_spec`.
pub proof fn lemma_trim_end_at(s: Seq<char>, j: int)
    requires
        0 <= j <= s.len(),
        forall|k: int| j <= k < s.len() ==> is_space_char(#[trigger] s[k]),
        j == 0 || !is_space_char(s[j - 1]),
    ensures
        trim_end_spec(s) == s.take(j),
    decreases s.len() - j,
{
    if j == s.len() {
        if s.len() == 0 || !is_space_char(s[s.len() - 1]) {
            assert(s.take(j) =~= s);
        }
    } else {
        let d = s.drop_last();
        assert(forall|k: int| j <= k < d.len() ==> is_space_char(#[trigger] d[k]));
        lemma_trim_end_at(d, j);
        assert(d.take(j) =~= s.take(j));
    }
}

/// A scan that passed `l` non-space characters and stopped at the end or
/// at a space pins down `token_len`.
pub proof fn lemma_token_len_at(s: Seq<char>, l: int)
    requires
        0 <= l <= s.len(),
        forall|k: int| 0 <= k < l ==> !is_space_char(#[trigger] s[k]),
        l == s.len() || is_space_char(s[l]),
    ensures
        token_len(s) == l,
    decreases l,
{
    if l == 0 {
    } else {
        let d = s.drop_first();
        assert(forall|k: int| 0 <= k < l - 1 ==> !is_space_char(#[trigger] d[k]));
        lemma_token_len_at(d, l - 1);
    }
}

/// The characters of `s`, in order.
pub fn chars_of(s: &str) -> (r: Vec<char>)
    ensures
        r@ == s@,
{
    let n: usize = s.unicode_len();
    let mut r: Vec<char> = Vec::new();
    let mut i: usize = 0;
    while i < n
        invariant
            i <= n,
            n == s@.len(),
            r@ == s@.take(i as int),
        decreases n - i,
    {
        let c = s.get_char(i);
        r.push(c);
        proof {
            assert(s@.take(i as int).push(s@[i as int]) =~= s@.take(i + 1));
        }
        i += 1;
    }
    proof {
        assert(s@.take(n as int) =~= s@);
    }
    r
}

/// Whether character `c` is Unicode white space; agrees with
/// `is_space_char`.
pub fn is_space(c: char) -> (r: bool)
    ensures
        r == is_space_char(c),
{
    c == '\u{0009}' || c == '\u{000A}' || c == '\u{000B}' || c == '\u{000C}' || c == '\u{000D}'
        || c == ' ' || c == '\u{0085}' || c == '\u{00A0}' || c == '\u{1680}' || c == '\u{2000}'
        || c == '\u{2001}' || c == '\u{2002}' || c == '\u{2003}' || c == '\u{2004}' || c
        == '\u{2005}' || c == '\u{2006}' || c == '\u{2007}' || c == '\u{2008}' || c == '\u{2009}'
        || c == '\u{200A}' || c == '\u{2028}' || c == '\u{2029}' || c == '\u{202F}' || c
        == '\u{205F}' || c == '\u{3000}'
}

/// The bounds of the trimmed region of `s`: the subrange between them is
/// `trimmed(s@)`.
pub fn trim_bounds(s: &Vec<char>) -> (r: (usize, usize))
    ensures
        r.0 <= r.1 <= s@.len(),
        s@.subrange(r.0 as int, r.1 as int) == trimmed(s@),
{
    let n = s.len();
    let mut lo: usize = 0;
    while lo < n && is_space(s[lo])
        invariant
            lo <= n,
            n == s@.len(),
            forall|k: int| 0 <= k < lo ==> is_space_char(#[trigger] s@[k]),
        decreases n - lo,
    {
        lo += 1;
    }
    proof {
        lemma_trim_start_at(s@, lo as int);
    }
    let mut hi: usize = n;
    while hi > lo && is_space(s[hi - 1])
        invariant
            lo <= hi <= n,
            n == s@.len(),
            forall|k: int| hi <= k < n ==> is_space_char(#[trigger] s@[k]),
        decreases hi,
    {
        hi -= 1;
    }
    proof {
        let t = s@.skip(lo as int);
        assert(forall|k: int|
            hi - lo <= k < t.len() ==> is_space_char(#[trigger] t[k])) by {
            assert(forall|k: int|
                hi - lo <= k < t.len() ==> t[k] == s@[k + lo]);
        }
        if hi > lo {
            assert(t[hi - lo - 1] == s@[hi - 1]);
        }
        lemma_trim_end_at(t, hi - lo);
        assert(t.take(hi - lo) =~= s@.subrange(lo as int, hi as int));
    }
    (lo, hi)
}

/// A copy of `s[from..to]`.
pub fn subvec(s: &Vec<char>, from: usize, to: usize) -> (r: Vec<char>)
    requires
        from <= to <= s@.len(),
    ensures
        r@ == s@.subrange(from as int, to as int),
{
    let mut r: Vec<char> = Vec::new();
    let mut i: usize = from;
    while i < to
        invariant
            from <= i <= to <= s@.len(),
            r@ == s@.subrange(from as int, i as int),
        decreases to - i,
    {
        r.push(s[i]);
        proof {
            assert(s@.subrange(from as int, i as int).push(s@[i as int]) =~= s@.subrange(
                from as int,
                i + 1,
            ));
        }
        i += 1;
    }
    r
}

/// Whether `p` is a prefix of `s[lo..hi]`.
pub fn starts_with_at(s: &Vec<char>, lo: usize, hi: usize, p: &Vec<char>) -> (r: bool)
    requires
        lo <= hi <= s@.len(),
    ensures
        r == p@.is_prefix_of(s@.subrange(lo as int, hi as int)),
{
    let ghost t = s@.subrange(lo as int, hi as int);
    let plen = p.len();
    if hi - lo < plen {
        return false;
    }
    let mut i: usize = 0;
    while i < plen
        invariant
            i <= plen,
            plen == p@.len(),
            lo <= hi <= s@.len(),
            plen <= hi - lo,
            t == s@.subrange(lo as int, hi as int),
            forall|k: int| 0 <= k < i ==> p@[k] == #[trigger] t[k],
        decreases plen - i,
    {
        if p[i] != s[lo + i] {
            assert(t[i as int] == s@[lo + i]);
            assert(!p@.is_prefix_of(t));
            return false;
        }
        assert(t[i as int] == s@[lo + i]);
        i += 1;
    }
    proof {
        assert(p@ =~= t.take(plen as int));
    }
    true
}

/// The end of the first whitespace-delimited token of `s[from..hi]`:
/// scanning from `from`, the first index holding white space, or `hi`.
pub fn token_end(s: &Vec<char>, from: usize, hi: usize) -> (e: usize)
    requires
        from <= hi <= s@.len(),
    ensures
        from <= e <= hi,
        token_len(s@.subrange(from as int, hi as int)) == e - from,
{
    let mut e: usize = from;
    while e < hi && !is_space(s[e])
        invariant
            from <= e <= hi <= s@.len(),
            forall|k: int| from <= k < e ==> !is_space_char(#[trigger] s@[k]),
        decreases hi - e,
    {
        e += 1;
    }
    proof {
        let u = s@.subrange(from as int, hi as int);
        assert(forall|k: int| 0 <= k < e - from ==> !is_space_char(#[trigger] u[k])) by {
            assert(forall|k: int| 0 <= k < e - from ==> u[k] == s@[k + from]);
        }
        if e < hi {
            assert(u[e - from] == s@[e as int]);
        }
        lemma_token_len_at(u, e - from);
    }
    e
}

/// Whether the characters of `v` are exactly those of `s`.
pub fn chars_eq_str(v: &Vec<char>, s: &str) -> (r: bool)
    ensures
        r == (v@ == s@),
{
    let n: usize = s.unicode_len();
    if v.len() != n {
        return false;
    }
    let mut i: usize = 0;
    while i < n
        invariant
            i <= n,
            n == s@.len(),
            n == v@.len(),
            forall|k: int| 0 <= k < i ==> v@[k] == #[trigger] s@[k],
        decreases n - i,
    {
        let c = s.get_char(i);
        if v[i] != c {
            return false;
        }
        i += 1;
    }
    proof {
        assert(v@ =~= s@);
    }
    true
}

} // verus!
