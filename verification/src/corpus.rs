//! The corpus model: conformance inputs carry a leading directive line naming
//! the games they apply to. Parsing extracts that game set and strips the
//! directive line from the bytes handed to workers, byte-exactly, so that
//! non-UTF-8 payloads survive unchanged.

use vstd::prelude::*;
use vstd::string::StringSliceAdditionalSpecFns;

use crate::game::{
    games_contain, spec_all_alias_games, spec_game_of_tag_bytes, Game,
};
use crate::text::{
    bytes_equal, bytes_start_with, copy_range, find_byte, is_ws_byte, spec_find_byte, spec_tokens,
    spec_trim, str_ascii_bytes, tokenize, trim_bytes, ws_byte,
};

verus! {

/// The error of directive parsing: a token that names no known game.
#[derive(Debug, Clone)]
pub struct DirectiveError {
    /// The offending token, as the raw bytes that appeared in the directive.
    pub tag: Vec<u8>,
}

/// A conformance corpus file: its path, the games its directive declares, and
/// its content with the directive line stripped.
pub struct CorpusFile {
    pub path: String,
    pub games: Vec<Game>,
    pub content: Vec<u8>,
}

/// The directive marker that must open the first line.
pub open spec fn spec_directive_prefix() -> Seq<u8> {
    "# @babblewitz:games:"@.map_values(|c: char| c as u8)
}

/// The alias token that expands to every supported game.
pub open spec fn spec_all_token() -> Seq<u8> {
    "all"@.map_values(|c: char| c as u8)
}

/// The first line of `s`: the bytes before the first line feed, with one
/// carriage return stripped from its end when the line feed exists.
pub open spec fn spec_first_line(s: Seq<u8>) -> Seq<u8> {
    let e = spec_find_byte(s, 10, 0);
    let raw = s.subrange(0, e);
    if e < s.len() && raw.len() > 0 && raw.last() == 13 {
        raw.drop_last()
    } else {
        raw
    }
}

/// Whether the (trimmed) first line opens with the directive marker.
pub open spec fn spec_has_directive(s: Seq<u8>) -> bool {
    let t = spec_trim(spec_first_line(s));
    t.len() >= spec_directive_prefix().len() && t.take(spec_directive_prefix().len() as int)
        == spec_directive_prefix()
}

/// The directive body: the trimmed first line after the marker.
pub open spec fn spec_directive_body(s: Seq<u8>) -> Seq<u8> {
    spec_trim(spec_first_line(s)).skip(spec_directive_prefix().len() as int)
}

/// The games one directive token stands for: `all` expands to the full game
/// list; any other token must name a game (case-insensitively).
pub open spec fn spec_token_games(t: Seq<u8>) -> Option<Seq<Game>> {
    if t == spec_all_token() {
        Some(spec_all_alias_games())
    } else {
        match spec_game_of_tag_bytes(t) {
            Some(g) => Some(seq![g]),
            None => None,
        }
    }
}

/// The first token from position `i` on that names no game, if any.
pub open spec fn spec_first_bad_token(ts: Seq<Seq<u8>>, i: int) -> Option<Seq<u8>>
    decreases ts.len() - i,
{
    if i < 0 || i >= ts.len() {
        None
    } else if spec_token_games(ts[i]) is None {
        Some(ts[i])
    } else {
        spec_first_bad_token(ts, i + 1)
    }
}

/// The concatenation of the game lists of the tokens from position `i` on.
pub open spec fn spec_expanded_from(ts: Seq<Seq<u8>>, i: int) -> Seq<Game>
    decreases ts.len() - i,
{
    if i < 0 || i >= ts.len() {
        seq![]
    } else {
        (match spec_token_games(ts[i]) {
            Some(gs) => gs,
            None => seq![],
        }) + spec_expanded_from(ts, i + 1)
    }
}

/// Removes duplicates from `s`, keeping the first occurrence of each game;
/// `acc` holds the games already kept.
pub open spec fn spec_dedup(acc: Seq<Game>, s: Seq<Game>) -> Seq<Game>
    decreases s.len(),
{
    if s.len() == 0 {
        acc
    } else if acc.contains(s[0]) {
        spec_dedup(acc, s.drop_first())
    } else {
        spec_dedup(acc.push(s[0]), s.drop_first())
    }
}

/// The game list a directive body yields: every token expanded, duplicates
/// removed first-seen-first; or the first unrecognized token.
pub open spec fn spec_expand_games(b: Seq<u8>) -> Result<Seq<Game>, Seq<u8>> {
    let ts = spec_tokens(b);
    match spec_first_bad_token(ts, 0) {
        Some(t) => Err(t),
        None => Ok(spec_dedup(seq![], spec_expanded_from(ts, 0))),
    }
}

/// Whether a second logical line exists: a line feed before the last byte.
pub open spec fn spec_has_second_line(s: Seq<u8>) -> bool {
    exists|i: int| 0 <= i < s.len() - 1 && s[i] == 10
}

/// Index of the first line-terminator byte (line feed or carriage return) at
/// or after `from`, or `s.len()` when there is none.
pub open spec fn spec_find_term(s: Seq<u8>, from: int) -> int
    decreases s.len() - from,
{
    if from < 0 || from >= s.len() {
        s.len() as int
    } else if s[from] == 10 || s[from] == 13 {
        from
    } else {
        spec_find_term(s, from + 1)
    }
}

/// The position just after the first line terminator, counting a carriage
/// return followed by a line feed as one terminator.
pub open spec fn spec_strip_pos(s: Seq<u8>) -> int {
    let t = spec_find_term(s, 0);
    if t >= s.len() {
        s.len() as int
    } else if s[t] == 10 {
        t + 1
    } else if t + 1 < s.len() && s[t + 1] == 10 {
        t + 2
    } else {
        t + 1
    }
}

/// The content handed to workers once a directive was recognized: the bytes
/// after the first line terminator when a second line exists, else nothing.
pub open spec fn spec_stripped_content(s: Seq<u8>) -> Seq<u8> {
    if spec_has_second_line(s) {
        s.skip(spec_strip_pos(s))
    } else {
        seq![]
    }
}

/// What parsing a corpus content yields: with a directive, the declared games
/// and the stripped content; without one, no games and the content unchanged;
/// an unrecognized directive token is an error carrying that token.
pub open spec fn spec_parse_corpus(s: Seq<u8>) -> Result<(Seq<Game>, Seq<u8>), Seq<u8>> {
    if spec_has_directive(s) {
        match spec_expand_games(spec_directive_body(s)) {
            Ok(gs) => Ok((gs, spec_stripped_content(s))),
            Err(t) => Err(t),
        }
    } else {
        Ok((seq![], s))
    }
}

proof fn lemma_find_term(s: Seq<u8>, from: int)
    requires
        0 <= from <= s.len(),
    ensures
        from <= spec_find_term(s, from) <= s.len(),
        spec_find_term(s, from) < s.len() ==> (s[spec_find_term(s, from)] == 10 || s[
            spec_find_term(s, from)
        ] == 13),
        forall|j: int|
            from <= j < spec_find_term(s, from) ==> (s[j] != 10 && s[j] != 13),
    decreases s.len() - from,
{
    if from < s.len() && s[from] != 10 && s[from] != 13 {
        lemma_find_term(s, from + 1);
    }
}

/// Finds the first line-terminator byte at or after `from`.
fn find_term(s: &[u8], from: usize) -> (r: usize)
    requires
        from <= s@.len(),
    ensures
        r == spec_find_term(s@, from as int),
        from <= r <= s@.len(),
        r < s@.len() ==> (s@[r as int] == 10 || s@[r as int] == 13),
        forall|j: int| from <= j < r ==> (s@[j] != 10 && s@[j] != 13),
{
    let n = s.len();
    let mut i: usize = from;
    while i < n
        invariant
            from <= i <= n,
            n == s@.len(),
            forall|j: int| from <= j < i ==> (s@[j] != 10 && s@[j] != 13),
        decreases n - i,
    {
        if s[i] == 10 || s[i] == 13 {
            proof {
                lemma_find_term(s@, from as int);
            }
            return i;
        }
        i = i + 1;
    }
    proof {
        lemma_find_term(s@, from as int);
    }
    i
}

/// Removes duplicate games, keeping first occurrences in order.
fn dedup_games(games: &Vec<Game>) -> (r: Vec<Game>)
    ensures
        r@ == spec_dedup(seq![], games@),
{
    let n = games.len();
    let mut r: Vec<Game> = Vec::new();
    proof {
        assert(games@.skip(0) =~= games@);
        assert(r@ =~= Seq::<Game>::empty());
    }
    let mut i: usize = 0;
    while i < n
        invariant
            0 <= i <= n,
            n == games@.len(),
            spec_dedup(seq![], games@) == spec_dedup(r@, games@.skip(i as int)),
        decreases n - i,
    {
        let ghost rest = games@.skip(i as int);
        proof {
            assert(rest[0] == games@[i as int]);
            assert(rest.drop_first() =~= games@.skip(i as int + 1));
        }
        let g = games[i];
        if !games_contain(&r, g) {
            r.push(g);
        }
        i = i + 1;
    }
    proof {
        assert(games@.skip(n as int) =~= Seq::<Game>::empty());
    }
    r
}

/// Expands a whitespace-separated list of directive tokens into the declared
/// game list (`all` meaning every game, duplicates dropped), or reports the
/// first token that names no game.
fn expand_games_bytes(b: &[u8]) -> (r: Result<Vec<Game>, Vec<u8>>)
    ensures
        match r {
            Ok(v) => spec_expand_games(b@) is Ok && v@ == spec_expand_games(b@)->Ok_0,
            Err(t) => spec_expand_games(b@) is Err && t@ == spec_expand_games(b@)->Err_0,
        },
{
    let tokens = tokenize(b);
    let ghost ts = spec_tokens(b@);
    let n = tokens.len();
    let mut expanded: Vec<Game> = Vec::new();
    proof {
        assert(expanded@ + spec_expanded_from(ts, 0) =~= spec_expanded_from(ts, 0));
    }
    let mut i: usize = 0;
    while i < n
        invariant
            0 <= i <= n,
            n == ts.len(),
            ts == tokens.deep_view(),
            ts == spec_tokens(b@),
            spec_first_bad_token(ts, 0) == spec_first_bad_token(ts, i as int),
            spec_expanded_from(ts, 0) == expanded@ + spec_expanded_from(ts, i as int),
        decreases n - i,
    {
        proof {
            assert(tokens.deep_view()[i as int] == tokens@[i as int].deep_view());
            assert(tokens@[i as int].deep_view() =~= tokens@[i as int]@);
        }
        let tok: &Vec<u8> = &tokens[i];
        let all_bytes = all_token_bytes();
        if bytes_equal(tok.as_slice(), all_bytes.as_slice()) {
            let ghost before = expanded@;
            expanded.push(Game::Eu4);
            expanded.push(Game::Ck3);
            expanded.push(Game::Hoi4);
            expanded.push(Game::Vic3);
            expanded.push(Game::Imperator);
            expanded.push(Game::Stellaris);
            proof {
                assert(spec_token_games(ts[i as int]) == Some(spec_all_alias_games()));
                assert(expanded@ =~= before + spec_all_alias_games());
                assert(spec_expanded_from(ts, 0) =~= expanded@ + spec_expanded_from(
                    ts,
                    i as int + 1,
                ));
            }
        } else {
            match crate::game::game_from_tag_bytes(tok.as_slice()) {
                Some(g) => {
                    let ghost before = expanded@;
                    expanded.push(g);
                    proof {
                        assert(spec_token_games(ts[i as int]) == Some(seq![g]));
                        assert(expanded@ =~= before + seq![g]);
                        assert(spec_expanded_from(ts, 0) =~= expanded@ + spec_expanded_from(
                            ts,
                            i as int + 1,
                        ));
                    }
                },
                None => {
                    proof {
                        assert(spec_token_games(ts[i as int]) is None);
                        assert(spec_first_bad_token(ts, i as int) == Some(ts[i as int]));
                    }
                    return Err(tok.clone());
                },
            }
        }
        i = i + 1;
    }
    proof {
        assert(spec_first_bad_token(ts, n as int) is None);
        assert(spec_expanded_from(ts, n as int) =~= Seq::<Game>::empty());
        assert(spec_expanded_from(ts, 0) =~= expanded@);
    }
    let r = dedup_games(&expanded);
    Ok(r)
}

/// The directive marker as bytes.
fn directive_prefix_bytes() -> (r: Vec<u8>)
    ensures
        r@ == spec_directive_prefix(),
{
    proof {
        reveal_strlit("# @babblewitz:games:");
    }
    str_ascii_bytes("# @babblewitz:games:")
}

/// The `all` alias token as bytes.
fn all_token_bytes() -> (r: Vec<u8>)
    ensures
        r@ == spec_all_token(),
{
    proof {
        reveal_strlit("all");
    }
    str_ascii_bytes("all")
}

/// Expands game aliases of a directive body: `all` becomes the full game
/// list; every other token must name a game; duplicates are removed
/// preserving first-seen order.
pub fn expand_game_aliases(games_part: &str) -> (r: Result<Vec<Game>, DirectiveError>)
    ensures
        match r {
            Ok(v) => spec_expand_games(games_part.spec_bytes()) is Ok && v@ == spec_expand_games(
                games_part.spec_bytes(),
            )->Ok_0,
            Err(e) => spec_expand_games(games_part.spec_bytes()) is Err && e.tag@
                == spec_expand_games(games_part.spec_bytes())->Err_0,
        },
{
    let bytes = games_part.as_bytes();
    match expand_games_bytes(bytes) {
        Ok(v) => Ok(v),
        Err(t) => Err(DirectiveError { tag: t }),
    }
}

/// Parses a corpus file's bytes: recognizes a leading
/// `# @babblewitz:games: <tokens>` directive line, yields the declared games
/// and the content with that line stripped, byte-for-byte. Without a
/// directive the game list is empty and the content is returned unchanged.
pub fn parse_corpus_content(content_bytes: &[u8]) -> (r: Result<
    (Vec<Game>, Vec<u8>),
    DirectiveError,
>)
    ensures
        match r {
            Ok(p) => spec_parse_corpus(content_bytes@) is Ok && p.0@ == spec_parse_corpus(
                content_bytes@,
            )->Ok_0.0 && p.1@ == spec_parse_corpus(content_bytes@)->Ok_0.1,
            Err(e) => spec_parse_corpus(content_bytes@) is Err && e.tag@ == spec_parse_corpus(
                content_bytes@,
            )->Err_0,
        },
{
    let s = content_bytes;
    let n = s.len();
    let e = find_byte(s, 10, 0);
    let raw_end: usize = if e < n && e > 0 && s[e - 1] == 13 {
        e - 1
    } else {
        e
    };
    proof {
        let raw = s@.subrange(0, e as int);
        if e < n && e > 0 && s@[e as int - 1] == 13 {
            assert(raw.last() == s@[e as int - 1]);
            assert(raw.drop_last() =~= s@.subrange(0, e as int - 1));
        } else if e > 0 {
            assert(raw.last() == s@[e as int - 1]);
        }
        assert(spec_first_line(s@) =~= s@.subrange(0, raw_end as int));
    }
    let first_line = copy_range(s, 0, raw_end);
    let trimmed = trim_bytes(first_line.as_slice());
    let prefix = directive_prefix_bytes();
    if bytes_start_with(trimmed.as_slice(), prefix.as_slice()) {
        let plen = prefix.len();
        let body = copy_range(trimmed.as_slice(), plen, trimmed.len());
        proof {
            assert(body@ =~= spec_directive_body(s@));
        }
        match expand_games_bytes(body.as_slice()) {
            Ok(games) => {
                let has2 = e < n && e + 1 < n;
                proof {
                    if has2 {
                        assert(s@[e as int] == 10 && (e as int) < s@.len() - 1);
                        assert(spec_has_second_line(s@));
                    } else {
                        assert forall|i: int| 0 <= i < s@.len() - 1 implies s@[i] != 10 by {
                            assert(i < e as int);
                        }
                        assert(!spec_has_second_line(s@));
                    }
                }
                let content: Vec<u8> = if has2 {
                    let t = find_term(s, 0);
                    proof {
                        assert(t < n) by {
                            assert(s@[e as int] == 10);
                        }
                    }
                    let sp: usize = if s[t] == 10 {
                        t + 1
                    } else if t + 1 < n && s[t + 1] == 10 {
                        t + 2
                    } else {
                        t + 1
                    };
                    proof {
                        assert(sp as int == spec_strip_pos(s@));
                        assert(s@.subrange(sp as int, n as int) =~= s@.skip(sp as int));
                    }
                    copy_range(s, sp, n)
                } else {
                    Vec::new()
                };
                proof {
                    assert(content@ =~= spec_stripped_content(s@));
                }
                Ok((games, content))
            },
            Err(t) => Err(DirectiveError { tag: t }),
        }
    } else {
        proof {
            assert(s@.subrange(0, n as int) =~= s@);
        }
        Ok((Vec::new(), copy_range(s, 0, n)))
    }
}

/// Pins the first line-terminator index down.
proof fn lemma_find_term_is(s: Seq<u8>, k: int)
    requires
        0 <= k <= s.len(),
        k < s.len() ==> (s[k] == 10 || s[k] == 13),
        forall|j: int| 0 <= j < k ==> (s[j] != 10 && s[j] != 13),
        k == s.len() ==> forall|j: int| 0 <= j < s.len() ==> (s[j] != 10 && s[j] != 13),
    ensures
        spec_find_term(s, 0) == k,
{
    lemma_find_term(s, 0);
    let f = spec_find_term(s, 0);
    if f < k {
        assert(s[f] == 10 || s[f] == 13);
    }
    if f > k {
        assert(k < s.len());
    }
}

/// No sequence of games occurs twice.
pub open spec fn spec_no_duplicate_games(s: Seq<Game>) -> bool {
    forall|i: int, j: int| 0 <= i < j < s.len() ==> s[i] != s[j]
}

/// Law: deduplication keeps exactly the games that occur, each at most once.
pub proof fn lemma_dedup_membership(acc: Seq<Game>, s: Seq<Game>)
    ensures
        forall|g: Game| #[trigger] spec_dedup(acc, s).contains(g) <==> (acc.contains(g)
            || s.contains(g)),
        spec_no_duplicate_games(acc) ==> spec_no_duplicate_games(spec_dedup(acc, s)),
        spec_dedup(acc, s).len() >= acc.len(),
        forall|i: int| 0 <= i < acc.len() ==> spec_dedup(acc, s)[i] == acc[i],
    decreases s.len(),
{
    if s.len() == 0 {
        assert forall|g: Game| acc.contains(g) || s.contains(g) implies #[trigger] spec_dedup(
            acc,
            s,
        ).contains(g) by {
            if s.contains(g) {
                let i = choose|i: int| 0 <= i < s.len() && s[i] == g;
                assert(false);
            }
        }
    } else {
        let head = s[0];
        let tail = s.drop_first();
        assert forall|g: Game| s.contains(g) implies (g == head || tail.contains(g)) by {
            let i = choose|i: int| 0 <= i < s.len() && s[i] == g;
            if i > 0 {
                assert(tail[i - 1] == g);
            }
        }
        assert forall|g: Game| tail.contains(g) implies s.contains(g) by {
            let i = choose|i: int| 0 <= i < tail.len() && tail[i] == g;
            assert(s[i + 1] == g);
        }
        assert(s.contains(head)) by {
            assert(s[0] == head);
        }
        if acc.contains(head) {
            lemma_dedup_membership(acc, tail);
        } else {
            let acc2 = acc.push(head);
            assert forall|g: Game| #[trigger] acc2.contains(g) implies (acc.contains(g) || g
                == head) by {
                let i = choose|i: int| 0 <= i < acc2.len() && acc2[i] == g;
                if i < acc.len() {
                    assert(acc[i] == g);
                }
            }
            assert(acc2.contains(head)) by {
                assert(acc2[acc.len() as int] == head);
            }
            assert forall|g: Game| acc.contains(g) implies acc2.contains(g) by {
                let i = choose|i: int| 0 <= i < acc.len() && acc[i] == g;
                assert(acc2[i] == g);
            }
            if spec_no_duplicate_games(acc) {
                assert(spec_no_duplicate_games(acc2)) by {
                    assert forall|i: int, j: int| 0 <= i < j < acc2.len() implies acc2[i]
                        != acc2[j] by {
                        if j < acc.len() {
                        } else {
                            assert(acc2[j] == head);
                            assert(acc2[i] == acc[i]);
                            assert(!acc.contains(head));
                        }
                    }
                }
            }
            lemma_dedup_membership(acc2, tail);
            assert(spec_dedup(acc, s) == spec_dedup(acc2, tail));
            assert forall|i: int| 0 <= i < acc.len() implies spec_dedup(acc, s)[i] == acc[i] by {
                assert(spec_dedup(acc2, tail)[i] == acc2[i]);
                assert(acc2[i] == acc[i]);
            }
        }
    }
}

/// Law: content whose first line is a well-formed directive parses to exactly
/// the declared game set, and to the bytes after the directive line and its
/// terminator, byte-for-byte — whether the terminator is a line feed or a
/// carriage return followed by a line feed.
pub proof fn lemma_directive_parse(line: Seq<u8>, term: Seq<u8>, rest: Seq<u8>)
    requires
        forall|i: int| 0 <= i < line.len() ==> (line[i] != 10 && line[i] != 13),
        term == seq![10u8] || term == seq![13u8, 10u8],
        spec_trim(line).len() >= spec_directive_prefix().len(),
        spec_trim(line).take(spec_directive_prefix().len() as int) == spec_directive_prefix(),
        spec_expand_games(spec_trim(line).skip(spec_directive_prefix().len() as int)) is Ok,
    ensures
        spec_parse_corpus(line + term + rest) == Ok::<(Seq<Game>, Seq<u8>), Seq<u8>>(
            (
                spec_expand_games(
                    spec_trim(line).skip(spec_directive_prefix().len() as int),
                )->Ok_0,
                rest,
            ),
        ),
{
    let s = line + term + rest;
    let ll = line.len() as int;
    assert(s.len() == ll + term.len() + rest.len());
    assert(forall|j: int| 0 <= j < ll ==> s[j] == line[j]);
    // the first line of s is the directive line
    if term == seq![10u8] {
        assert(s[ll] == 10);
        crate::text::lemma_find_byte_is(s, 10, ll);
        assert(s.subrange(0, ll) =~= line);
        if ll > 0 {
            assert(s.subrange(0, ll).last() == line[ll - 1]);
        }
        assert(spec_first_line(s) == line);
    } else {
        assert(s[ll] == 13 && s[ll + 1] == 10);
        crate::text::lemma_find_byte_is(s, 10, ll + 1);
        assert(s.subrange(0, ll + 1) =~= line.push(13u8));
        assert(s.subrange(0, ll + 1).last() == 13);
        assert(spec_first_line(s) =~= line.push(13u8).drop_last());
        assert(line.push(13u8).drop_last() =~= line);
    }
    assert(spec_has_directive(s));
    assert(spec_directive_body(s) == spec_trim(line).skip(spec_directive_prefix().len() as int));
    // the stripped content is exactly `rest`
    if rest.len() == 0 {
        assert(!spec_has_second_line(s)) by {
            assert forall|i: int| 0 <= i < s.len() - 1 implies s[i] != 10 by {
                assert(i < ll || (term == seq![13u8, 10u8] && i == ll));
            }
        }
        assert(spec_stripped_content(s) =~= rest);
    } else {
        if term == seq![10u8] {
            assert(spec_has_second_line(s)) by {
                assert(s[ll] == 10 && ll < s.len() - 1);
            }
            lemma_find_term_is(s, ll);
            assert(spec_strip_pos(s) == ll + 1);
            assert(s.skip(ll + 1) =~= rest);
        } else {
            assert(spec_has_second_line(s)) by {
                assert(s[ll + 1] == 10 && ll + 1 < s.len() - 1);
            }
            lemma_find_term_is(s, ll);
            assert(s[ll] == 13 && s[ll + 1] == 10);
            assert(spec_strip_pos(s) == ll + 2);
            assert(s.skip(ll + 2) =~= rest);
        }
        assert(spec_stripped_content(s) =~= rest);
    }
}

/// Law: a directive-only content (no line terminator at all) parses to the
/// declared game set and empty content.
pub proof fn lemma_directive_only(line: Seq<u8>)
    requires
        forall|i: int| 0 <= i < line.len() ==> (line[i] != 10 && line[i] != 13),
        spec_trim(line).len() >= spec_directive_prefix().len(),
        spec_trim(line).take(spec_directive_prefix().len() as int) == spec_directive_prefix(),
        spec_expand_games(spec_trim(line).skip(spec_directive_prefix().len() as int)) is Ok,
    ensures
        spec_parse_corpus(line) == Ok::<(Seq<Game>, Seq<u8>), Seq<u8>>(
            (
                spec_expand_games(
                    spec_trim(line).skip(spec_directive_prefix().len() as int),
                )->Ok_0,
                Seq::<u8>::empty(),
            ),
        ),
{
    crate::text::lemma_find_byte_is(line, 10, line.len() as int);
    assert(line.subrange(0, line.len() as int) =~= line);
    assert(spec_first_line(line) == line);
    assert(spec_has_directive(line));
    assert(!spec_has_second_line(line));
    assert(spec_stripped_content(line) =~= Seq::<u8>::empty());
}

/// Law: content with no matching directive on its first line parses to an
/// empty game set and the content itself, unchanged — an unrecognized or
/// differently-spelled marker is no directive, not an error.
pub proof fn lemma_no_directive(content: Seq<u8>)
    requires
        !spec_has_directive(content),
    ensures
        spec_parse_corpus(content) == Ok::<(Seq<Game>, Seq<u8>), Seq<u8>>(
            (Seq::<Game>::empty(), content),
        ),
{
    assert(Seq::<Game>::empty() =~= seq![]);
}

} // verus!
