//! The wire protocol's reply decoding. A worker answers on standard output
//! with two logical lines: an unsigned integer (elapsed microseconds), then a
//! task payload. Decoding trusts the exit status and the numeric first line;
//! everything else is a worker-reported error whose message is derived from
//! the reply and the captured streams.

use vstd::prelude::*;

verus! {

/// The outcome of one worker invocation: success with the elapsed time the
/// worker measured (in microseconds), or a worker-reported error.
#[derive(Debug, Clone)]
pub enum ExecutionResult {
    Success { elapsed_micros: u64 },
    Error { error: String },
}

/// A decimal digit character.
pub open spec fn spec_is_digit(c: char) -> bool {
    48 <= c as u32 && c as u32 <= 57
}

/// The numeric value of a digit character.
pub open spec fn spec_digit_val(c: char) -> int {
    c as u32 - 48
}

/// Every character is a digit.
pub open spec fn spec_all_digits(s: Seq<char>) -> bool {
    forall|i: int| 0 <= i < s.len() ==> spec_is_digit(#[trigger] s[i])
}

/// The value of a digit string, most significant first.
pub open spec fn spec_digits_val(s: Seq<char>) -> int
    decreases s.len(),
{
    if s.len() == 0 {
        0
    } else {
        spec_digits_val(s.drop_last()) * 10 + spec_digit_val(s.last())
    }
}

/// The value an unsigned decimal literal denotes: an optional leading plus
/// sign, then at least one digit; anything else is no number.
pub open spec fn spec_parse_uint(s: Seq<char>) -> Option<int> {
    let t = if s.len() > 0 && s[0] == '+' {
        s.drop_first()
    } else {
        s
    };
    if t.len() > 0 && spec_all_digits(t) {
        Some(spec_digits_val(t))
    } else {
        None
    }
}

/// Parsing into 64 bits: the denoted value when it fits, else nothing.
pub open spec fn spec_parse_u64(s: Seq<char>) -> Option<u64> {
    match spec_parse_uint(s) {
        Some(v) => if 0 <= v <= u64::MAX {
            Some(v as u64)
        } else {
            None
        },
        None => None,
    }
}

/// Parsing into 128 bits: the denoted value when it fits, else nothing.
pub open spec fn spec_parse_u128(s: Seq<char>) -> Option<u128> {
    match spec_parse_uint(s) {
        Some(v) => if 0 <= v <= u128::MAX {
            Some(v as u128)
        } else {
            None
        },
        None => None,
    }
}

/// The value of a digit string dominates the value of each of its prefixes,
/// and is never negative.
proof fn lemma_digits_prefix_le(t: Seq<char>, k: int)
    requires
        spec_all_digits(t),
        0 <= k <= t.len(),
    ensures
        0 <= spec_digits_val(t.take(k)) <= spec_digits_val(t),
    decreases t.len(),
{
    if t.len() == 0 {
        assert(t.take(k) =~= t);
    } else if k == t.len() {
        assert(t.take(k) =~= t);
        lemma_digits_prefix_le(t.drop_last(), t.len() - 1);
        assert(t.drop_last().take(t.len() - 1) =~= t.drop_last());
        assert(spec_is_digit(t.last()));
    } else {
        let head = t.drop_last();
        assert(spec_all_digits(head)) by {
            assert(forall|i: int| 0 <= i < head.len() ==> head[i] == t[i]);
        }
        lemma_digits_prefix_le(head, k);
        assert(head.take(k) =~= t.take(k));
        assert(spec_is_digit(t.last()));
        assert(spec_digits_val(head) * 10 + spec_digit_val(t.last()) >= spec_digits_val(head));
    }
}

/// Index of the first occurrence of `c` at or after `from`, or `s.len()`.
pub open spec fn spec_find_char(s: Seq<char>, c: char, from: int) -> int
    decreases s.len() - from,
{
    if from < 0 || from >= s.len() {
        s.len() as int
    } else if s[from] == c {
        from
    } else {
        spec_find_char(s, c, from + 1)
    }
}

proof fn lemma_find_char(s: Seq<char>, c: char, from: int)
    requires
        0 <= from <= s.len(),
    ensures
        from <= spec_find_char(s, c, from) <= s.len(),
        spec_find_char(s, c, from) < s.len() ==> s[spec_find_char(s, c, from)] == c,
        forall|j: int| from <= j < spec_find_char(s, c, from) ==> s[j] != c,
    decreases s.len() - from,
{
    if from < s.len() && s[from] != c {
        lemma_find_char(s, c, from + 1);
    }
}

/// Finds the first occurrence of `c` at or after `from`; `s@.len()` when
/// there is none.
fn find_char(s: &str, c: char, from: usize) -> (r: usize)
    requires
        from <= s@.len(),
    ensures
        r == spec_find_char(s@, c, from as int),
        from <= r <= s@.len(),
        r < s@.len() ==> s@[r as int] == c,
        forall|j: int| from <= j < r ==> s@[j] != c,
{
    let n = s.unicode_len();
    let mut i: usize = from;
    while i < n
        invariant
            from <= i <= n,
            n == s@.len(),
            forall|j: int| from <= j < i ==> s@[j] != c,
        decreases n - i,
    {
        if s.get_char(i) == c {
            proof {
                lemma_find_char(s@, c, from as int);
            }
            return i;
        }
        i = i + 1;
    }
    proof {
        lemma_find_char(s@, c, from as int);
    }
    i
}

/// The line starting at `b`: the characters before the next line feed, with
/// one carriage return stripped from the end when the line feed exists.
pub open spec fn spec_line_at(s: Seq<char>, b: int) -> Seq<char> {
    let e = spec_find_char(s, '\n', b);
    let raw = s.subrange(b, e);
    if e < s.len() && raw.len() > 0 && raw.last() == '\r' {
        raw.drop_last()
    } else {
        raw
    }
}

/// The first logical line of the reply.
pub open spec fn spec_line1(s: Seq<char>) -> Seq<char> {
    spec_line_at(s, 0)
}

/// Whether the reply has a second logical line.
pub open spec fn spec_has_two_lines(s: Seq<char>) -> bool {
    spec_find_char(s, '\n', 0) + 1 < s.len()
}

/// The second logical line of the reply.
pub open spec fn spec_line2(s: Seq<char>) -> Seq<char> {
    spec_line_at(s, spec_find_char(s, '\n', 0) + 1)
}

/// Extracts the line starting at `b` as a string slice.
fn line_at<'a>(s: &'a str, b: usize) -> (r: &'a str)
    requires
        b <= s@.len(),
    ensures
        r@ == spec_line_at(s@, b as int),
{
    let n = s.unicode_len();
    let e = find_char(s, '\n', b);
    let raw_end: usize = if e < n && e > b && s.get_char(e - 1) == '\r' {
        e - 1
    } else {
        e
    };
    proof {
        let raw = s@.subrange(b as int, e as int);
        if e < n && e > b && s@[e as int - 1] == '\r' {
            assert(raw.last() == s@[e as int - 1]);
            assert(raw.drop_last() =~= s@.subrange(b as int, e as int - 1));
        } else if e > b {
            assert(raw.last() == s@[e as int - 1]);
        }
        assert(spec_line_at(s@, b as int) =~= s@.subrange(b as int, raw_end as int));
    }
    s.substring_char(b, raw_end)
}

/// Parses an unsigned decimal literal into 128 bits, exactly as the standard
/// parser does: an optional leading plus, then digits; overflow is no number.
pub fn parse_u128_str(s: &str) -> (r: Option<u128>)
    ensures
        r == spec_parse_u128(s@),
{
    let n = s.unicode_len();
    let start: usize = if n > 0 && s.get_char(0) == '+' {
        1
    } else {
        0
    };
    let ghost t = if start == 1 {
        s@.drop_first()
    } else {
        s@
    };
    proof {
        assert(t =~= s@.subrange(start as int, n as int));
    }
    if start == n {
        return None;
    }
    let mut acc: u128 = 0;
    let mut i: usize = start;
    while i < n
        invariant
            start <= i <= n,
            n == s@.len(),
            start == 0 || start == 1,
            t == s@.subrange(start as int, n as int),
            t.len() == n - start,
            t == (if start == 1 {
                s@.drop_first()
            } else {
                s@
            }),
            start == 1 ==> s@[0] == '+',
            start == 0 ==> (n == 0 || s@[0] != '+'),
            forall|j: int| 0 <= j < i - start ==> spec_is_digit(#[trigger] t[j]),
            acc as int == spec_digits_val(t.take(i - start)),
        decreases n - i,
    {
        let c = s.get_char(i);
        proof {
            assert(t[i - start] == s@[i as int]);
        }
        let cu = c as u32;
        if !(48 <= cu && cu <= 57) {
            proof {
                assert(!spec_is_digit(t[i - start]));
                assert(!spec_all_digits(t));
            }
            return None;
        }
        let d: u128 = (cu - 48) as u128;
        if acc > u128::MAX / 10 || (acc == u128::MAX / 10 && d > u128::MAX % 10) {
            proof {
                let k = i - start + 1;
                assert(t.take(k).drop_last() =~= t.take(k - 1));
                assert(t.take(k).last() == t[k - 1]);
                assert(spec_digits_val(t.take(k)) == acc as int * 10 + d as int);
                assert(acc as int * 10 + d as int > u128::MAX as int);
                if spec_all_digits(t) {
                    lemma_digits_prefix_le(t, k);
                }
            }
            return None;
        }
        acc = acc * 10 + d;
        proof {
            let k = i - start + 1;
            assert(t.take(k).drop_last() =~= t.take(k - 1));
            assert(t.take(k).last() == t[k - 1]);
            assert(acc as int == spec_digits_val(t.take(k)));
        }
        i = i + 1;
    }
    proof {
        assert(t.take(n - start) =~= t);
        assert(spec_all_digits(t));
        assert(spec_digits_val(t) <= u128::MAX as int && spec_digits_val(t) >= 0) by {
            lemma_digits_prefix_le(t, t.len() as int);
            assert(t.take(t.len() as int) =~= t);
        }
    }
    Some(acc)
}

/// Parses an unsigned decimal literal into 64 bits.
pub fn parse_u64_str(s: &str) -> (r: Option<u64>)
    ensures
        r == spec_parse_u64(s@),
{
    let r128 = parse_u128_str(s);
    match r128 {
        Some(v) => if v <= u64::MAX as u128 {
            Some(v as u64)
        } else {
            None
        },
        None => None,
    }
}

/// A whitespace character (the Unicode White_Space set, as Rust trims it).
pub open spec fn spec_is_space_char(c: char) -> bool {
    let u = c as u32;
    (9 <= u && u <= 13) || u == 32 || u == 0x85 || u == 0xA0 || u == 0x1680 || (0x2000 <= u && u
        <= 0x200A) || u == 0x2028 || u == 0x2029 || u == 0x202F || u == 0x205F || u == 0x3000
}

/// Exec mirror of [`spec_is_space_char`].
fn char_is_space(c: char) -> (r: bool)
    ensures
        r == spec_is_space_char(c),
{
    let u = c as u32;
    (9 <= u && u <= 13) || u == 32 || u == 0x85 || u == 0xA0 || u == 0x1680 || (0x2000 <= u && u
        <= 0x200A) || u == 0x2028 || u == 0x2029 || u == 0x202F || u == 0x205F || u == 0x3000
}

/// The characters with leading whitespace removed.
pub open spec fn spec_trim_chars_start(s: Seq<char>) -> Seq<char>
    decreases s.len(),
{
    if s.len() == 0 {
        s
    } else if spec_is_space_char(s[0]) {
        spec_trim_chars_start(s.drop_first())
    } else {
        s
    }
}

/// The characters with trailing whitespace removed.
pub open spec fn spec_trim_chars_end(s: Seq<char>) -> Seq<char>
    decreases s.len(),
{
    if s.len() == 0 {
        s
    } else if spec_is_space_char(s.last()) {
        spec_trim_chars_end(s.drop_last())
    } else {
        s
    }
}

/// The characters with whitespace removed from both ends.
pub open spec fn spec_trim_chars(s: Seq<char>) -> Seq<char> {
    spec_trim_chars_end(spec_trim_chars_start(s))
}

/// Trims whitespace from both ends of a string slice.
pub fn trim_str<'a>(s: &'a str) -> (r: &'a str)
    ensures
        r@ == spec_trim_chars(s@),
{
    let n = s.unicode_len();
    proof {
        assert(s@.skip(0) =~= s@);
    }
    let mut lo: usize = 0;
    while lo < n && char_is_space(s.get_char(lo))
        invariant
            0 <= lo <= n,
            n == s@.len(),
            spec_trim_chars_start(s@) == spec_trim_chars_start(s@.skip(lo as int)),
        decreases n - lo,
    {
        proof {
            assert(s@.skip(lo as int)[0] == s@[lo as int]);
            assert(s@.skip(lo as int).drop_first() =~= s@.skip(lo as int + 1));
        }
        lo = lo + 1;
    }
    proof {
        assert(s@.skip(lo as int) =~= s@.subrange(lo as int, n as int));
        if lo < n {
            assert(s@.skip(lo as int)[0] == s@[lo as int]);
        }
        assert(spec_trim_chars_start(s@) == s@.subrange(lo as int, n as int));
    }
    let mut hi: usize = n;
    while hi > lo && char_is_space(s.get_char(hi - 1))
        invariant
            lo <= hi <= n,
            n == s@.len(),
            spec_trim_chars_end(s@.subrange(lo as int, n as int)) == spec_trim_chars_end(
                s@.subrange(lo as int, hi as int),
            ),
        decreases hi,
    {
        proof {
            let u = s@.subrange(lo as int, hi as int);
            assert(u.last() == s@[hi - 1]);
            assert(u.drop_last() =~= s@.subrange(lo as int, hi as int - 1));
        }
        hi = hi - 1;
    }
    proof {
        let u = s@.subrange(lo as int, hi as int);
        if hi > lo {
            assert(u.last() == s@[hi - 1]);
        }
        assert(spec_trim_chars_end(u) == u);
    }
    s.substring_char(lo, hi)
}

/// The character of one decimal digit.
pub open spec fn spec_digit_char(d: int) -> char {
    if d == 0 {
        '0'
    } else if d == 1 {
        '1'
    } else if d == 2 {
        '2'
    } else if d == 3 {
        '3'
    } else if d == 4 {
        '4'
    } else if d == 5 {
        '5'
    } else if d == 6 {
        '6'
    } else if d == 7 {
        '7'
    } else if d == 8 {
        '8'
    } else {
        '9'
    }
}

/// The decimal digits of a non-negative value, most significant first.
pub open spec fn spec_uint_str(v: int) -> Seq<char>
    decreases v,
{
    if v < 0 {
        seq![]
    } else if v < 10 {
        seq![spec_digit_char(v)]
    } else {
        spec_uint_str(v / 10).push(spec_digit_char(v % 10))
    }
}

/// The decimal rendering of an integer, with a leading minus when negative.
pub open spec fn spec_int_str(v: int) -> Seq<char> {
    if v < 0 {
        seq!['-'] + spec_uint_str(-v)
    } else {
        spec_uint_str(v)
    }
}

/// One digit as a string slice.
fn digit_str(d: u64) -> (r: &'static str)
    requires
        d < 10,
    ensures
        r@ == seq![spec_digit_char(d as int)],
{
    proof {
        reveal_strlit("0");
        reveal_strlit("1");
        reveal_strlit("2");
        reveal_strlit("3");
        reveal_strlit("4");
        reveal_strlit("5");
        reveal_strlit("6");
        reveal_strlit("7");
        reveal_strlit("8");
        reveal_strlit("9");
    }
    if d == 0 {
        "0"
    } else if d == 1 {
        "1"
    } else if d == 2 {
        "2"
    } else if d == 3 {
        "3"
    } else if d == 4 {
        "4"
    } else if d == 5 {
        "5"
    } else if d == 6 {
        "6"
    } else if d == 7 {
        "7"
    } else if d == 8 {
        "8"
    } else {
        "9"
    }
}

/// The decimal digits of a value.
fn uint_str(v: u64) -> (r: String)
    ensures
        r@ == spec_uint_str(v as int),
    decreases v,
{
    if v < 10 {
        digit_str(v).to_owned()
    } else {
        let mut s = uint_str(v / 10);
        s.append(digit_str(v % 10));
        proof {
            assert(s@ =~= spec_uint_str(v as int / 10).push(spec_digit_char(v as int % 10)));
        }
        s
    }
}

/// The decimal rendering of an exit code.
fn int_str(v: i32) -> (r: String)
    ensures
        r@ == spec_int_str(v as int),
{
    if v < 0 {
        let mag: u64 = (-(v as i64)) as u64;
        let mut s = "-".to_owned();
        s.append(uint_str(mag).as_str());
        proof {
            reveal_strlit("-");
            assert(s@ =~= seq!['-'] + spec_uint_str(-(v as int)));
        }
        s
    } else {
        uint_str(v as u64)
    }
}

/// The generic message when a worker produced no usable output at all.
pub open spec fn spec_exit_code_message(code: Option<i32>) -> Seq<char> {
    "Process exited with code: "@ + (match code {
        Some(c) => "Some("@ + spec_int_str(c as int) + ")"@,
        None => "None"@,
    })
}

/// Builds the generic exit-code message.
fn exit_code_message(code: Option<i32>) -> (r: String)
    ensures
        r@ == spec_exit_code_message(code),
{
    let mut m = "Process exited with code: ".to_owned();
    match code {
        Some(c) => {
            m.append("Some(");
            m.append(int_str(c).as_str());
            m.append(")");
        },
        None => {
            m.append("None");
        },
    }
    proof {
        assert(m@ =~= spec_exit_code_message(code));
    }
    m
}

/// The error message when the reply shape is unusable: the non-empty trimmed
/// streams, space-joined; or the generic exit-code message when both are
/// empty.
pub open spec fn spec_combined_message(
    stdout: Seq<char>,
    stderr: Seq<char>,
    code: Option<i32>,
) -> Seq<char> {
    let ts = spec_trim_chars(stdout);
    let te = spec_trim_chars(stderr);
    if ts.len() == 0 && te.len() == 0 {
        spec_exit_code_message(code)
    } else if te.len() == 0 {
        ts
    } else if ts.len() == 0 {
        te
    } else {
        ts + " "@ + te
    }
}

/// The decode rule of the wire protocol. A reply is a success exactly when
/// the process exited successfully, produced at least two lines, and the
/// first line is an unsigned 64-bit integer — the elapsed microseconds.
/// Otherwise the outcome is an error: the second line verbatim when the
/// first line still denotes a number (up to 128 bits); else the combined
/// trimmed streams, or a generic exit-code message when both are empty.
pub open spec fn spec_decode_ok(
    exit_success: bool,
    code: Option<i32>,
    stdout: Seq<char>,
    stderr: Seq<char>,
    r: ExecutionResult,
) -> bool {
    if exit_success && spec_has_two_lines(stdout) && spec_parse_u64(spec_line1(stdout)) is Some {
        r matches ExecutionResult::Success { elapsed_micros } && elapsed_micros == spec_parse_u64(
            spec_line1(stdout),
        )->Some_0
    } else if spec_has_two_lines(stdout) && spec_parse_u128(spec_line1(stdout)) is Some {
        r matches ExecutionResult::Error { error } && error@ == spec_line2(stdout)
    } else {
        r matches ExecutionResult::Error { error } && error@ == spec_combined_message(
            stdout,
            stderr,
            code,
        )
    }
}

/// Decodes one worker reply from the exit status, the captured standard
/// output and the captured standard error.
pub fn decode_worker_reply(
    exit_success: bool,
    exit_code: Option<i32>,
    stdout: &str,
    stderr: &str,
) -> (r: ExecutionResult)
    ensures
        spec_decode_ok(exit_success, exit_code, stdout@, stderr@, r),
{
    let n = stdout.unicode_len();
    let e = find_char(stdout, '\n', 0);
    let has2 = e < n && n - e > 1;
    proof {
        assert(has2 == spec_has_two_lines(stdout@));
    }
    let line1 = line_at(stdout, 0);
    if exit_success && has2 {
        match parse_u64_str(line1) {
            Some(us) => {
                return ExecutionResult::Success { elapsed_micros: us };
            },
            None => {},
        }
    }
    if has2 {
        match parse_u128_str(line1) {
            Some(_) => {
                let line2 = line_at(stdout, e + 1);
                return ExecutionResult::Error { error: line2.to_owned() };
            },
            None => {},
        }
    }
    let ts = trim_str(stdout);
    let te = trim_str(stderr);
    let msg: String = if ts.unicode_len() == 0 && te.unicode_len() == 0 {
        exit_code_message(exit_code)
    } else if te.unicode_len() == 0 {
        ts.to_owned()
    } else if ts.unicode_len() == 0 {
        te.to_owned()
    } else {
        let mut m = ts.to_owned();
        m.append(" ");
        m.append(te);
        m
    };
    ExecutionResult::Error { error: msg }
}

} // verus!
