//! Byte-string utilities: searching, ASCII-whitespace trimming and
//! whitespace-separated tokenization, with their mathematical models.
//!
//! Corpus files may hold non-UTF-8 payloads, so all directive handling works
//! on raw bytes; only the ASCII subset of whitespace matters for the
//! directive grammar.

use vstd::prelude::*;

verus! {

/// An ASCII whitespace byte (the ASCII characters Rust's whitespace predicate
/// accepts: tab, line feed, vertical tab, form feed, carriage return, space).
pub open spec fn is_ws_byte(b: u8) -> bool {
    b == 9 || b == 10 || b == 11 || b == 12 || b == 13 || b == 32
}

/// Exec mirror of [`is_ws_byte`].
pub fn ws_byte(b: u8) -> (r: bool)
    ensures
        r == is_ws_byte(b),
{
    b == 9 || b == 10 || b == 11 || b == 12 || b == 13 || b == 32
}

/// Index of the first occurrence of `b` in `s` at or after `from`, or
/// `s.len()` when there is none.
pub open spec fn spec_find_byte(s: Seq<u8>, b: u8, from: int) -> int
    decreases s.len() - from,
{
    if from < 0 || from >= s.len() {
        s.len() as int
    } else if s[from] == b {
        from
    } else {
        spec_find_byte(s, b, from + 1)
    }
}

/// The found index is minimal: nothing before it (at or after `from`)
/// equals `b`, and the index itself holds `b` when it is in range.
pub proof fn lemma_find_byte(s: Seq<u8>, b: u8, from: int)
    requires
        0 <= from <= s.len(),
    ensures
        from <= spec_find_byte(s, b, from) <= s.len(),
        spec_find_byte(s, b, from) < s.len() ==> s[spec_find_byte(s, b, from)] == b,
        forall|j: int| from <= j < spec_find_byte(s, b, from) ==> s[j] != b,
    decreases s.len() - from,
{
    if from < s.len() && s[from] != b {
        lemma_find_byte(s, b, from + 1);
    }
}

/// Pins the found index down: a position whose predecessors all differ from
/// `b`, and which holds `b` unless it is the length, is the found index.
pub proof fn lemma_find_byte_is(s: Seq<u8>, b: u8, k: int)
    requires
        0 <= k <= s.len(),
        k < s.len() ==> s[k] == b,
        forall|j: int| 0 <= j < k ==> s[j] != b,
        k == s.len() ==> forall|j: int| 0 <= j < s.len() ==> s[j] != b,
    ensures
        spec_find_byte(s, b, 0) == k,
{
    lemma_find_byte(s, b, 0);
    let f = spec_find_byte(s, b, 0);
    if f < k {
        assert(s[f] == b);
    }
    if f > k {
        assert(k < s.len());
    }
}

/// Finds the first occurrence of `b` at or after `from`; `s.len()` when none.
pub fn find_byte(s: &[u8], b: u8, from: usize) -> (r: usize)
    requires
        from <= s@.len(),
    ensures
        r == spec_find_byte(s@, b, from as int),
        from <= r <= s@.len(),
        r < s@.len() ==> s@[r as int] == b,
        forall|j: int| from <= j < r ==> s@[j] != b,
{
    let n = s.len();
    let mut i: usize = from;
    while i < n
        invariant
            from <= i <= n,
            n == s@.len(),
            forall|j: int| from <= j < i ==> s@[j] != b,
        decreases n - i,
    {
        if s[i] == b {
            proof {
                lemma_find_byte(s@, b, from as int);
            }
            return i;
        }
        i = i + 1;
    }
    proof {
        lemma_find_byte(s@, b, from as int);
    }
    i
}

/// Copies `s[lo..hi]` into a fresh vector.
pub fn copy_range(s: &[u8], lo: usize, hi: usize) -> (r: Vec<u8>)
    requires
        lo <= hi <= s@.len(),
    ensures
        r@ == s@.subrange(lo as int, hi as int),
{
    let sub: &[u8] = &s[lo..hi];
    vstd::slice::slice_to_vec(sub)
}

/// The sequence with leading ASCII whitespace removed.
pub open spec fn spec_trim_start(s: Seq<u8>) -> Seq<u8>
    decreases s.len(),
{
    if s.len() == 0 {
        s
    } else if is_ws_byte(s[0]) {
        spec_trim_start(s.drop_first())
    } else {
        s
    }
}

/// The sequence with trailing ASCII whitespace removed.
pub open spec fn spec_trim_end(s: Seq<u8>) -> Seq<u8>
    decreases s.len(),
{
    if s.len() == 0 {
        s
    } else if is_ws_byte(s.last()) {
        spec_trim_end(s.drop_last())
    } else {
        s
    }
}

/// The sequence with ASCII whitespace removed from both ends.
pub open spec fn spec_trim(s: Seq<u8>) -> Seq<u8> {
    spec_trim_end(spec_trim_start(s))
}

proof fn lemma_trim_start_skip(s: Seq<u8>, i: int)
    requires
        0 <= i < s.len(),
        is_ws_byte(s[i]),
    ensures
        spec_trim_start(s.skip(i)) == spec_trim_start(s.skip(i + 1)),
{
    assert(s.skip(i).len() > 0);
    assert(s.skip(i)[0] == s[i]);
    assert(s.skip(i).drop_first() =~= s.skip(i + 1));
}

proof fn lemma_trim_end_sub(s: Seq<u8>, lo: int, hi: int)
    requires
        0 <= lo < hi <= s.len(),
        is_ws_byte(s[hi - 1]),
    ensures
        spec_trim_end(s.subrange(lo, hi)) == spec_trim_end(s.subrange(lo, hi - 1)),
{
    let t = s.subrange(lo, hi);
    assert(t.last() == s[hi - 1]);
    assert(t.drop_last() =~= s.subrange(lo, hi - 1));
}

/// Trims ASCII whitespace from both ends of `s`.
pub fn trim_bytes(s: &[u8]) -> (r: Vec<u8>)
    ensures
        r@ == spec_trim(s@),
{
    let n = s.len();
    proof {
        assert(s@.skip(0) =~= s@);
    }
    let mut lo: usize = 0;
    while lo < n && ws_byte(s[lo])
        invariant
            0 <= lo <= n,
            n == s@.len(),
            spec_trim_start(s@) == spec_trim_start(s@.skip(lo as int)),
        decreases n - lo,
    {
        proof {
            lemma_trim_start_skip(s@, lo as int);
        }
        lo = lo + 1;
    }
    // the remaining suffix starts with a non-whitespace byte (or is empty)
    proof {
        assert(s@.skip(lo as int) =~= s@.subrange(lo as int, n as int));
        if lo < n {
            assert(s@.skip(lo as int)[0] == s@[lo as int]);
        }
        assert(spec_trim_start(s@) == s@.subrange(lo as int, n as int));
    }
    let mut hi: usize = n;
    while hi > lo && ws_byte(s[hi - 1])
        invariant
            lo <= hi <= n,
            n == s@.len(),
            spec_trim_end(s@.subrange(lo as int, n as int)) == spec_trim_end(
                s@.subrange(lo as int, hi as int),
            ),
        decreases hi,
    {
        proof {
            lemma_trim_end_sub(s@, lo as int, hi as int);
        }
        hi = hi - 1;
    }
    proof {
        let t = s@.subrange(lo as int, hi as int);
        if hi > lo {
            assert(t.last() == s@[hi - 1]);
        }
        assert(spec_trim_end(t) == t);
    }
    copy_range(s, lo, hi)
}

/// The length of the maximal non-whitespace prefix of `s`.
pub open spec fn spec_token_len(s: Seq<u8>) -> int
    decreases s.len(),
{
    if s.len() == 0 || is_ws_byte(s[0]) {
        0
    } else {
        1 + spec_token_len(s.drop_first())
    }
}

proof fn lemma_token_len_step(s: Seq<u8>, i: int)
    requires
        0 <= i < s.len(),
        !is_ws_byte(s[i]),
    ensures
        spec_token_len(s.skip(i)) == 1 + spec_token_len(s.skip(i + 1)),
{
    assert(s.skip(i)[0] == s[i]);
    assert(s.skip(i).drop_first() =~= s.skip(i + 1));
}

/// The whitespace-separated tokens of `s`, in order.
pub open spec fn spec_tokens(s: Seq<u8>) -> Seq<Seq<u8>>
    decreases s.len(),
    via spec_tokens_decreases
{
    if s.len() == 0 {
        seq![]
    } else if is_ws_byte(s[0]) {
        spec_tokens(s.drop_first())
    } else {
        let k = spec_token_len(s);
        seq![s.take(k)] + spec_tokens(s.skip(k))
    }
}

#[via_fn]
proof fn spec_tokens_decreases(s: Seq<u8>) {
    lemma_token_len_bound(s);
}

proof fn lemma_tokens_skip_ws(s: Seq<u8>, i: int)
    requires
        0 <= i < s.len(),
        is_ws_byte(s[i]),
    ensures
        spec_tokens(s.skip(i)) == spec_tokens(s.skip(i + 1)),
{
    assert(s.skip(i)[0] == s[i]);
    assert(s.skip(i).drop_first() =~= s.skip(i + 1));
}

proof fn lemma_token_len_bound(s: Seq<u8>)
    ensures
        0 <= spec_token_len(s) <= s.len(),
        forall|j: int| 0 <= j < spec_token_len(s) ==> !is_ws_byte(s[j]),
        spec_token_len(s) < s.len() ==> is_ws_byte(s[spec_token_len(s)]),
    decreases s.len(),
{
    if s.len() > 0 && !is_ws_byte(s[0]) {
        lemma_token_len_bound(s.drop_first());
        assert forall|j: int| 0 <= j < spec_token_len(s) implies !is_ws_byte(s[j]) by {
            if j > 0 {
                assert(s.drop_first()[j - 1] == s[j]);
            }
        }
        if spec_token_len(s) < s.len() {
            assert(s.drop_first()[spec_token_len(s) - 1] == s[spec_token_len(s)]);
        }
    }
}

/// Splits `s` into whitespace-separated tokens.
pub fn tokenize(s: &[u8]) -> (r: Vec<Vec<u8>>)
    ensures
        r.deep_view() == spec_tokens(s@),
{
    let n = s.len();
    let mut r: Vec<Vec<u8>> = Vec::new();
    proof {
        assert(s@.skip(0) =~= s@);
        assert(r.deep_view() =~= Seq::<Seq<u8>>::empty());
    }
    let mut i: usize = 0;
    while i < n
        invariant
            0 <= i <= n,
            n == s@.len(),
            spec_tokens(s@) == r.deep_view() + spec_tokens(s@.skip(i as int)),
        decreases n - i,
    {
        if ws_byte(s[i]) {
            proof {
                lemma_tokens_skip_ws(s@, i as int);
            }
            i = i + 1;
        } else {
            let ghost start = i as int;
            let ghost rest = s@.skip(start);
            let mut j: usize = i;
            while j < n && !ws_byte(s[j])
                invariant
                    0 <= start <= j <= n,
                    n == s@.len(),
                    rest == s@.skip(start),
                    spec_token_len(rest) == (j - start) + spec_token_len(s@.skip(j as int)),
                decreases n - j,
            {
                proof {
                    lemma_token_len_step(s@, j as int);
                    assert(s@.skip(j as int)[0] == s@[j as int]);
                }
                j = j + 1;
            }
            proof {
                if (j as int) < n {
                    assert(s@.skip(j as int)[0] == s@[j as int]);
                }
                assert(spec_token_len(s@.skip(j as int)) == 0);
                assert(spec_token_len(rest) == j - start);
                assert(rest[0] == s@[start]);
                // unfold spec_tokens at the token start
                assert(spec_tokens(rest) == seq![rest.take(j - start)] + spec_tokens(
                    rest.skip(j - start),
                ));
                assert(rest.take(j - start) =~= s@.subrange(start, j as int));
                assert(rest.skip(j - start) =~= s@.skip(j as int));
            }
            let tok = copy_range(s, i, j);
            let ghost old_dv = r.deep_view();
            r.push(tok);
            proof {
                assert(tok.deep_view() =~= tok@);
                assert(r.deep_view() =~~= old_dv + seq![s@.subrange(start, j as int)]);
            }
            i = j;
        }
    }
    proof {
        assert(s@.skip(n as int) =~= Seq::<u8>::empty());
        assert(spec_tokens(s@.skip(i as int)) =~= Seq::<Seq<u8>>::empty());
        assert(r.deep_view() =~= r.deep_view() + spec_tokens(s@.skip(i as int)));
    }
    r
}

/// True when `s` starts with `p`.
pub fn bytes_start_with(s: &[u8], p: &[u8]) -> (r: bool)
    ensures
        r == (s@.len() >= p@.len() && s@.take(p@.len() as int) == p@),
{
    let m = p.len();
    if s.len() < m {
        return false;
    }
    let mut i: usize = 0;
    while i < m
        invariant
            0 <= i <= m,
            m == p@.len() <= s@.len(),
            forall|j: int| 0 <= j < i ==> s@[j] == p@[j],
        decreases m - i,
    {
        if s[i] != p[i] {
            proof {
                assert(s@.take(m as int)[i as int] != p@[i as int]);
            }
            return false;
        }
        i = i + 1;
    }
    proof {
        assert(s@.take(m as int) =~= p@);
    }
    true
}

/// True when `s` and `p` hold the same bytes.
pub fn bytes_equal(s: &[u8], p: &[u8]) -> (r: bool)
    ensures
        r == (s@ == p@),
{
    if s.len() != p.len() {
        return false;
    }
    let m = p.len();
    let mut i: usize = 0;
    while i < m
        invariant
            0 <= i <= m,
            m == p@.len() == s@.len(),
            forall|j: int| 0 <= j < i ==> s@[j] == p@[j],
        decreases m - i,
    {
        if s[i] != p[i] {
            return false;
        }
        i = i + 1;
    }
    proof {
        assert(s@ =~= p@);
    }
    true
}

/// True when the two string slices hold the same characters.
pub fn str_equal(a: &str, b: &str) -> (r: bool)
    ensures
        r == (a@ == b@),
{
    let n = a.unicode_len();
    let m = b.unicode_len();
    if n != m {
        return false;
    }
    let mut i: usize = 0;
    while i < n
        invariant
            0 <= i <= n,
            n == a@.len() == b@.len(),
            forall|j: int| 0 <= j < i ==> a@[j] == b@[j],
        decreases n - i,
    {
        if a.get_char(i) != b.get_char(i) {
            return false;
        }
        i = i + 1;
    }
    proof {
        assert(a@ =~= b@);
    }
    true
}

/// The ASCII bytes of an ASCII string slice, one byte per character.
pub fn str_ascii_bytes(s: &str) -> (r: Vec<u8>)
    requires
        s.is_ascii(),
    ensures
        r@ == s@.map_values(|c: char| c as u8),
{
    broadcast use vstd::string::is_ascii_spec_bytes;

    let v = s.as_bytes_vec();
    proof {
        assert(v@ =~= s@.map_values(|c: char| c as u8));
    }
    v
}

} // verus!
