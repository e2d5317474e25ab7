//! Release versions: `major.minor.patch`, an optional leading `v`, a
//! pre-release suffix after `-` ignored, and missing or unreadable parts read
//! as 0.
use vstd::prelude::*;
use crate::text::{
    is_whitespace, occurs_at, chars_of, find_exec, find_first, lemma_find_from, trim, trim_end, trim_exec, trim_start,
};

verus! {

/// The value of a non-empty run of decimal digits.
pub open spec fn digits_value(s: Seq<char>) -> int
    decreases s.len(),
{
    if s.len() == 0 {
        0
    } else {
        digits_value(s.drop_last()) * 10 + (s.last() as int - '0' as int)
    }
}

/// Every character is an ASCII digit.
pub open spec fn all_digits(s: Seq<char>) -> bool {
    forall|i: int| 0 <= i < s.len() ==> '0' <= #[trigger] s[i] && s[i] <= '9'
}

/// What `str::parse::<u64>` gives: an optional `+`, then at least one digit,
/// and a value that fits.
pub open spec fn parse_u64(s: Seq<char>) -> Option<u64> {
    let d = if s.len() > 0 && s[0] == '+' {
        s.drop_first()
    } else {
        s
    };
    if d.len() > 0 && all_digits(d) && digits_value(d) <= u64::MAX {
        Some(digits_value(d) as u64)
    } else {
        None
    }
}

/// Piece `k` of `s` split at every `c`, as `str::split` yields them.
pub open spec fn piece(s: Seq<char>, c: char, k: nat) -> Option<Seq<char>>
    decreases s.len(),
{
    match find_first(s, seq![c]) {
        Some(i) => if 0 <= i < s.len() {
            if k == 0 {
                Some(s.subrange(0, i))
            } else {
                piece(s.subrange(i + 1, s.len() as int), c, (k - 1) as nat)
            }
        } else {
            None
        },
        None => if k == 0 {
            Some(s)
        } else {
            None
        },
    }
}

/// A version text with surrounding whitespace and one leading `v` removed.
pub open spec fn normalized(v: Seq<char>) -> Seq<char> {
    let t = trim(v);
    if t.len() > 0 && t[0] == 'v' {
        t.drop_first()
    } else {
        t
    }
}

/// The number in an optional part, 0 when absent or unreadable.
pub open spec fn part_value(p: Option<Seq<char>>) -> u64 {
    match p {
        Some(t) => match parse_u64(t) {
            Some(n) => n,
            None => 0,
        },
        None => 0,
    }
}

/// The patch part: the third piece, up to its first `-`.
pub open spec fn patch_part(t: Seq<char>) -> Option<Seq<char>> {
    match piece(t, '.', 2) {
        Some(p) => piece(p, '-', 0),
        None => None,
    }
}

/// The `(major, minor, patch)` of a version text.
pub open spec fn version_key(v: Seq<char>) -> (u64, u64, u64) {
    let t = normalized(v);
    (part_value(piece(t, '.', 0)), part_value(piece(t, '.', 1)), part_value(patch_part(t)))
}

/// Lexicographic order on version triples.
pub open spec fn key_lt(a: (u64, u64, u64), b: (u64, u64, u64)) -> bool {
    a.0 < b.0 || (a.0 == b.0 && (a.1 < b.1 || (a.1 == b.1 && a.2 < b.2)))
}

/// `candidate` is a later release than `current`.
pub open spec fn newer(candidate: Seq<char>, current: Seq<char>) -> bool {
    key_lt(version_key(current), version_key(candidate))
}

/// A version is never newer than itself.
pub proof fn lemma_newer_irreflexive(v: Seq<char>)
    ensures
        !newer(v, v),
{
}

/// Of two versions, at most one is newer than the other.
pub proof fn lemma_newer_asymmetric(a: Seq<char>, b: Seq<char>)
    ensures
        newer(a, b) ==> !newer(b, a),
{
}

/// Being newer is transitive.
pub proof fn lemma_newer_transitive(a: Seq<char>, b: Seq<char>, c: Seq<char>)
    requires
        newer(a, b),
        newer(b, c),
    ensures
        newer(a, c),
{
}

/// Neither of two versions is newer exactly when they have the same
/// `(major, minor, patch)`.
pub proof fn lemma_newer_same_release(a: Seq<char>, b: Seq<char>)
    ensures
        (!newer(a, b) && !newer(b, a)) <==> version_key(a) == version_key(b),
{
}

/// A version text with one leading `v` compares exactly like the same text
/// without it, on either side of the comparison, for a text that starts
/// with neither whitespace nor another `v` and does not end in whitespace.
pub proof fn lemma_leading_v_ignored(a: Seq<char>, b: Seq<char>)
    requires
        a.len() > 0 ==> !is_whitespace(a[0]) && a[0] != 'v' && !is_whitespace(a.last()),
    ensures
        newer(seq!['v'] + a, b) == newer(a, b),
        newer(b, seq!['v'] + a) == newer(b, a),
        version_key(seq!['v'] + a) == version_key(a),
{
    let va = seq!['v'] + a;
    assert(va[0] == 'v');
    assert(!is_whitespace('v'));
    assert(trim_start(va) == va);
    if a.len() > 0 {
        assert(va.last() == a.last());
        assert(trim_start(a) == a);
        assert(trim_end(a) == a);
    } else {
        assert(va.last() == 'v');
        assert(a =~= Seq::<char>::empty());
    }
    assert(trim_end(va) == va);
    assert(trim(va) == va);
    assert(trim(a) == a);
    assert(va.drop_first() =~= a);
    assert(normalized(va) == a);
    assert(normalized(a) == a);
}

/// `v[lo..hi]` as a new vector.
pub fn sub_vec(v: &Vec<char>, lo: usize, hi: usize) -> (r: Vec<char>)
    requires
        lo <= hi <= v@.len(),
    ensures
        r@ == v@.subrange(lo as int, hi as int),
{
    let mut r: Vec<char> = Vec::new();
    let mut i: usize = lo;
    while i < hi
        invariant
            lo <= i <= hi <= v@.len(),
            r@ == v@.subrange(lo as int, i as int),
        decreases hi - i,
    {
        r.push(v[i]);
        i = i + 1;
        assert(r@ =~= v@.subrange(lo as int, i as int));
    }
    r
}

/// Piece `k` of `s` split at every `c`.
pub fn piece_exec(s: &Vec<char>, c: char, k: usize) -> (r: Option<Vec<char>>)
    ensures
        match r {
            Some(p) => piece(s@, c, k as nat) == Some(p@),
            None => piece(s@, c, k as nat) is None,
        },
{
    let pat: Vec<char> = vec![c];
    assert(pat@ =~= seq![c]);
    let mut rest = sub_vec(s, 0, s.len());
    assert(rest@ =~= s@);
    let mut j: usize = k;
    loop
        invariant
            pat@ == seq![c],
            piece(s@, c, k as nat) == piece(rest@, c, j as nat),
        decreases rest@.len(),
    {
        proof {
            lemma_find_from(rest@, pat@, 0);
        }
        let n = rest.len();
        match find_exec(&rest, &pat) {
            Some(i) => {
                assert(occurs_at(rest@, pat@, i as int));
                if j == 0 {
                    return Some(sub_vec(&rest, 0, i));
                }
                rest = sub_vec(&rest, i + 1, n);
                j = j - 1;
            },
            None => {
                if j == 0 {
                    return Some(rest);
                }
                return None;
            },
        }
    }
}

/// What `str::parse::<u64>` gives for `s`.
pub fn parse_u64_exec(s: &Vec<char>) -> (r: Option<u64>)
    ensures
        r == parse_u64(s@),
{
    let start: usize = if s.len() > 0 && s[0] == '+' { 1 } else { 0 };
    let ghost d = if s@.len() > 0 && s@[0] == '+' {
        s@.drop_first()
    } else {
        s@
    };
    assert(d =~= s@.subrange(start as int, s@.len() as int));
    if start >= s.len() {
        return None;
    }
    let mut v: u64 = 0;
    let mut i: usize = start;
    while i < s.len()
        invariant
            start <= i <= s@.len(),
            d == s@.subrange(start as int, s@.len() as int),
            d == (if s@.len() > 0 && s@[0] == '+' {
                s@.drop_first()
            } else {
                s@
            }),
            all_digits(s@.subrange(start as int, i as int)),
            v as int == digits_value(s@.subrange(start as int, i as int)),
        decreases s@.len() - i,
    {
        let ch = s[i];
        let ghost pre = s@.subrange(start as int, i as int);
        let ghost next = s@.subrange(start as int, i + 1);
        assert(next.drop_last() =~= pre);
        assert(next.last() == ch);
        if !('0' <= ch && ch <= '9') {
            assert(d[i - start] == ch);
            return None;
        }
        let digit: u64 = (ch as u32 - '0' as u32) as u64;
        match v.checked_mul(10) {
            None => {
                proof {
                    assert(d.subrange(0, (i - start) as int) =~= pre);
                    if all_digits(d) {
                        lemma_digits_value_prefix_bound(d, (i - start) as int);
                    }
                }
                return None;
            },
            Some(t) => match t.checked_add(digit) {
                None => {
                    proof {
                        assert(d.subrange(0, (i + 1 - start) as int) =~= next);
                        if all_digits(d) {
                            lemma_digits_value_prefix_le(d, (i + 1 - start) as int);
                        }
                    }
                    return None;
                },
                Some(u) => {
                    v = u;
                    proof {
                        assert forall|q: int| 0 <= q < next.len() implies '0' <= #[trigger] next[q]
                            && next[q] <= '9' by {
                            if q < pre.len() {
                                assert(next[q] == pre[q]);
                            }
                        }
                    }
                },
            },
        }
        i = i + 1;
    }
    assert(s@.subrange(start as int, s@.len() as int) == d);
    Some(v)
}

/// A digit run's value is at least ten times the value of any proper
/// prefix.
pub proof fn lemma_digits_value_prefix_bound(d: Seq<char>, k: int)
    requires
        0 <= k < d.len(),
        all_digits(d),
    ensures
        digits_value(d) >= digits_value(d.subrange(0, k)) * 10,
    decreases d.len(),
{
    let dl = d.drop_last();
    assert forall|i: int| 0 <= i < dl.len() implies '0' <= #[trigger] dl[i] && dl[i] <= '9' by {
        assert(dl[i] == d[i]);
    }
    assert('0' <= d[d.len() - 1]);
    lemma_digits_value_nonneg(dl);
    if k == dl.len() {
        assert(dl =~= d.subrange(0, k));
    } else {
        assert(dl.subrange(0, k) =~= d.subrange(0, k));
        lemma_digits_value_prefix_bound(dl, k);
    }
}

/// A digit run's value is at least the value of any prefix.
pub proof fn lemma_digits_value_prefix_le(d: Seq<char>, k: int)
    requires
        0 <= k <= d.len(),
        all_digits(d),
    ensures
        digits_value(d) >= digits_value(d.subrange(0, k)),
{
    if k < d.len() {
        lemma_digits_value_prefix_bound(d, k);
        let p = d.subrange(0, k);
        assert forall|i: int| 0 <= i < p.len() implies '0' <= #[trigger] p[i] && p[i] <= '9' by {
            assert(p[i] == d[i]);
        }
        lemma_digits_value_nonneg(p);
    } else {
        assert(d.subrange(0, k) =~= d);
    }
}

/// A digit run has a non-negative value.
pub proof fn lemma_digits_value_nonneg(d: Seq<char>)
    requires
        all_digits(d),
    ensures
        digits_value(d) >= 0,
    decreases d.len(),
{
    if d.len() > 0 {
        let dl = d.drop_last();
        assert forall|i: int| 0 <= i < dl.len() implies '0' <= #[trigger] dl[i] && dl[i] <= '9' by {
            assert(dl[i] == d[i]);
        }
        lemma_digits_value_nonneg(dl);
    }
}

/// The number in an optional part, 0 when absent or unreadable.
fn part_value_exec(p: Option<Vec<char>>) -> (r: u64)
    ensures
        r == part_value(
            match p {
                Some(v) => Some(v@),
                None => None,
            },
        ),
{
    match p {
        Some(v) => match parse_u64_exec(&v) {
            Some(n) => n,
            None => 0,
        },
        None => 0,
    }
}

/// The `(major, minor, patch)` of a version text.
pub fn version_key_exec(v: &str) -> (r: (u64, u64, u64))
    ensures
        r == version_key(v@),
{
    let trimmed = trim_exec(v);
    let tv = chars_of(trimmed.as_str());
    let t = if tv.len() > 0 && tv[0] == 'v' {
        sub_vec(&tv, 1, tv.len())
    } else {
        tv
    };
    proof {
        if tv@.len() > 0 && tv@[0] == 'v' {
            assert(tv@.subrange(1, tv@.len() as int) =~= tv@.drop_first());
        }
        assert(t@ == normalized(v@));
    }
    let major = part_value_exec(piece_exec(&t, '.', 0));
    let minor = part_value_exec(piece_exec(&t, '.', 1));
    let patch_piece = match piece_exec(&t, '.', 2) {
        Some(p) => piece_exec(&p, '-', 0),
        None => None,
    };
    let patch = part_value_exec(patch_piece);
    (major, minor, patch)
}

/// Whether `candidate` is a later release than `current`.
pub fn is_newer_version(candidate: &str, current: &str) -> (r: bool)
    ensures
        r == newer(candidate@, current@),
{
    let a = version_key_exec(candidate);
    let b = version_key_exec(current);
    a.0 > b.0 || (a.0 == b.0 && (a.1 > b.1 || (a.1 == b.1 && a.2 > b.2)))
}

} // verus!
