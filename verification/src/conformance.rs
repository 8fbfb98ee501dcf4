//! The conformance aggregator: per-game pass/total counters over the
//! outcomes of running one implementation against the relevant corpus files,
//! and the success-rate computation.

use vstd::arithmetic::div_mod::{lemma_div_by_multiple, lemma_div_is_ordered, lemma_div_pos_is_pos};
use vstd::prelude::*;

use crate::game::{games_contain, games_in_order, spec_games_in_order, Game};

verus! {

/// The per-game counters of one implementation's conformance run.
#[derive(Debug, Clone, Copy, PartialEq, Eq, Structural)]
pub struct CanParseGameResult {
    pub game: Game,
    pub total_tests: usize,
    pub passed_tests: usize,
}

/// One recorded failure: which implementation, on which corpus file (or
/// `build`), with what message.
#[derive(Debug, Clone)]
pub struct FailureDetail {
    pub implementation: String,
    pub corpus_file: String,
    pub error_message: String,
}

/// The outcome of one corpus file's invocation: the games the file declares,
/// and whether the worker succeeded on it.
#[derive(Debug, Clone)]
pub struct FileOutcome {
    pub games: Vec<Game>,
    pub passed: bool,
}

/// The success rate in basis points (hundredths of a percent): 10000 means
/// every test passed, 0 means none did — or that nothing ran.
pub open spec fn spec_success_rate_bp(passed: int, total: int) -> int {
    if total > 0 {
        passed * 10000 / total
    } else {
        0
    }
}

impl CanParseGameResult {
    /// Fresh counters for one game.
    pub fn new(game: Game) -> (r: Self)
        ensures
            r.game == game,
            r.total_tests == 0,
            r.passed_tests == 0,
    {
        CanParseGameResult { game, total_tests: 0, passed_tests: 0 }
    }

    /// The success rate in basis points: passed over total, scaled by 10000;
    /// 0 when no test ran, 10000 when every test passed, and never more.
    pub fn success_rate(&self) -> (r: u64)
        requires
            self.passed_tests <= self.total_tests,
        ensures
            r as int == spec_success_rate_bp(self.passed_tests as int, self.total_tests as int),
            self.total_tests == 0 ==> r == 0,
            self.total_tests > 0 && self.passed_tests == self.total_tests ==> r == 10000,
            r <= 10000,
    {
        if self.total_tests == 0 {
            0
        } else {
            let p = self.passed_tests as u128;
            let t = self.total_tests as u128;
            let bp = (p * 10000) / t;
            proof {
                lemma_div_is_ordered(p as int * 10000, t as int * 10000, t as int);
                lemma_div_by_multiple(10000, t as int);
                lemma_div_pos_is_pos(p as int * 10000, t as int);
            }
            bp as u64
        }
    }
}

/// Law: for a fixed positive total, the success rate is monotonic in the
/// number of passed tests.
pub proof fn lemma_success_rate_monotonic(p1: int, p2: int, total: int)
    requires
        0 <= p1 <= p2,
    ensures
        spec_success_rate_bp(p1, total) <= spec_success_rate_bp(p2, total),
{
    if total > 0 {
        lemma_div_is_ordered(p1 * 10000, p2 * 10000, total);
    }
}

/// How many outcomes count toward a game's total: every file that declares
/// the game.
pub open spec fn spec_count_total(outs: Seq<FileOutcome>, g: Game) -> int
    decreases outs.len(),
{
    if outs.len() == 0 {
        0
    } else {
        spec_count_total(outs.drop_last(), g) + if outs.last().games@.contains(g) {
            1int
        } else {
            0int
        }
    }
}

/// How many outcomes count toward a game's passed count: every successful
/// file that declares the game.
pub open spec fn spec_count_passed(outs: Seq<FileOutcome>, g: Game) -> int
    decreases outs.len(),
{
    if outs.len() == 0 {
        0
    } else {
        spec_count_passed(outs.drop_last(), g) + if outs.last().games@.contains(g)
            && outs.last().passed {
            1int
        } else {
            0int
        }
    }
}

proof fn lemma_count_remove(s: Seq<FileOutcome>, j: int, g: Game)
    requires
        0 <= j < s.len(),
    ensures
        spec_count_total(s, g) == spec_count_total(s.remove(j), g) + (if s[j].games@.contains(g) {
            1int
        } else {
            0int
        }),
        spec_count_passed(s, g) == spec_count_passed(s.remove(j), g) + (if s[j].games@.contains(g)
            && s[j].passed {
            1int
        } else {
            0int
        }),
    decreases s.len(),
{
    if j == s.len() - 1 {
        assert(s.remove(j) =~= s.drop_last());
    } else {
        assert(s.remove(j).drop_last() =~= s.drop_last().remove(j));
        assert(s.remove(j).last() == s.last());
        lemma_count_remove(s.drop_last(), j, g);
    }
}

/// Law: the per-game counters — and with them the rates — depend only on
/// which outcomes a run produced, not on the order the files were walked in.
pub proof fn lemma_counts_order_invariant(a: Seq<FileOutcome>, b: Seq<FileOutcome>, g: Game)
    requires
        a.to_multiset() == b.to_multiset(),
    ensures
        spec_count_total(a, g) == spec_count_total(b, g),
        spec_count_passed(a, g) == spec_count_passed(b, g),
    decreases a.len(),
{
    broadcast use vstd::seq_lib::group_to_multiset_ensures;

    if a.len() == 0 {
        assert(b.to_multiset().len() == 0);
        assert(b.len() == 0);
    } else {
        let x = a.last();
        let ghost i = a.len() - 1;
        assert(a[i] == x && a.contains(x));
        assert(b.to_multiset().count(x) > 0);
        assert(b.contains(x));
        let j = choose|j: int| 0 <= j < b.len() && b[j] == x;
        assert(a.remove(i).to_multiset() =~= a.to_multiset().remove(x));
        assert(b.remove(j).to_multiset() =~= b.to_multiset().remove(x));
        assert(a.remove(i) =~= a.drop_last());
        lemma_counts_order_invariant(a.drop_last(), b.remove(j), g);
        lemma_count_remove(b, j, g);
    }
}

/// The counters of one game over a run's outcomes.
pub open spec fn spec_game_result(outs: Seq<FileOutcome>, g: Game) -> CanParseGameResult {
    CanParseGameResult {
        game: g,
        total_tests: spec_count_total(outs, g) as usize,
        passed_tests: spec_count_passed(outs, g) as usize,
    }
}

/// The per-game results of a run, in canonical game order, one entry for
/// each game under test, walking the canonical order from position `i`.
pub open spec fn spec_results_from(tested: Seq<Game>, outs: Seq<FileOutcome>, i: int) -> Seq<
    CanParseGameResult,
>
    decreases spec_games_in_order().len() - i,
{
    let order = spec_games_in_order();
    if i < 0 || i >= order.len() {
        seq![]
    } else {
        let rest = spec_results_from(tested, outs, i + 1);
        if tested.contains(order[i]) {
            seq![spec_game_result(outs, order[i])] + rest
        } else {
            rest
        }
    }
}

/// Counts, over all outcomes, the total and passed tests of one game.
fn count_game(outcomes: &Vec<FileOutcome>, g: Game) -> (r: CanParseGameResult)
    ensures
        r == spec_game_result(outcomes@, g),
        r.passed_tests <= r.total_tests,
{
    let n = outcomes.len();
    let mut total: usize = 0;
    let mut passed: usize = 0;
    proof {
        assert(outcomes@.take(0) =~= Seq::<FileOutcome>::empty());
    }
    let mut i: usize = 0;
    while i < n
        invariant
            0 <= i <= n,
            n == outcomes@.len(),
            total as int == spec_count_total(outcomes@.take(i as int), g),
            passed as int == spec_count_passed(outcomes@.take(i as int), g),
            passed <= total <= i,
        decreases n - i,
    {
        proof {
            assert(outcomes@.take(i as int + 1).drop_last() =~= outcomes@.take(i as int));
            assert(outcomes@.take(i as int + 1).last() == outcomes@[i as int]);
        }
        let out: &FileOutcome = &outcomes[i];
        if games_contain(&out.games, g) {
            total = total + 1;
            if out.passed {
                passed = passed + 1;
            }
        }
        i = i + 1;
    }
    proof {
        assert(outcomes@.take(n as int) =~= outcomes@);
    }
    CanParseGameResult { game: g, total_tests: total, passed_tests: passed }
}

/// Aggregates one implementation's outcomes into per-game counters: a file
/// counts toward every tested game it declares, a successful file counts as
/// passed for all of them. Results come in canonical game order, one entry
/// per tested game.
pub fn conformance_results(games_to_test: &Vec<Game>, outcomes: &Vec<FileOutcome>) -> (r: Vec<
    CanParseGameResult,
>)
    ensures
        r@ == spec_results_from(games_to_test@, outcomes@, 0),
        forall|k: int|
            0 <= k < r@.len() ==> #[trigger] r@[k].passed_tests <= r@[k].total_tests,
{
    let order = games_in_order();
    let n = order.len();
    let mut r: Vec<CanParseGameResult> = Vec::new();
    proof {
        assert(r@ + spec_results_from(games_to_test@, outcomes@, 0) =~= spec_results_from(
            games_to_test@,
            outcomes@,
            0,
        ));
    }
    let mut i: usize = 0;
    while i < n
        invariant
            0 <= i <= n,
            n == spec_games_in_order().len(),
            order@ == spec_games_in_order(),
            spec_results_from(games_to_test@, outcomes@, 0) == r@ + spec_results_from(
                games_to_test@,
                outcomes@,
                i as int,
            ),
            forall|k: int|
                0 <= k < r@.len() ==> #[trigger] r@[k].passed_tests <= r@[k].total_tests,
        decreases n - i,
    {
        let g = order[i];
        if games_contain(games_to_test, g) {
            let counted = count_game(outcomes, g);
            let ghost before = r@;
            r.push(counted);
            proof {
                assert(r@ =~= before + seq![spec_game_result(outcomes@, g)]);
                assert(spec_results_from(games_to_test@, outcomes@, 0) =~= r@
                    + spec_results_from(games_to_test@, outcomes@, i as int + 1));
            }
        }
        i = i + 1;
    }
    proof {
        assert(spec_results_from(games_to_test@, outcomes@, n as int) =~= Seq::<
            CanParseGameResult,
        >::empty());
        assert(spec_results_from(games_to_test@, outcomes@, 0) =~= r@);
    }
    r
}

/// The games of `tested` that a file declares, in the order of `tested` —
/// the subset this invocation is tagged with.
pub open spec fn spec_applicable_from(tested: Seq<Game>, declared: Seq<Game>, i: int) -> Seq<Game>
    decreases tested.len() - i,
{
    if i < 0 || i >= tested.len() {
        seq![]
    } else {
        let rest = spec_applicable_from(tested, declared, i + 1);
        if declared.contains(tested[i]) {
            seq![tested[i]] + rest
        } else {
            rest
        }
    }
}

/// The tested games a corpus file applies to, in tested order.
pub fn applicable_games(games_to_test: &Vec<Game>, declared: &Vec<Game>) -> (r: Vec<Game>)
    ensures
        r@ == spec_applicable_from(games_to_test@, declared@, 0),
{
    let n = games_to_test.len();
    let mut r: Vec<Game> = Vec::new();
    proof {
        assert(r@ + spec_applicable_from(games_to_test@, declared@, 0) =~= spec_applicable_from(
            games_to_test@,
            declared@,
            0,
        ));
    }
    let mut i: usize = 0;
    while i < n
        invariant
            0 <= i <= n,
            n == games_to_test@.len(),
            spec_applicable_from(games_to_test@, declared@, 0) == r@ + spec_applicable_from(
                games_to_test@,
                declared@,
                i as int,
            ),
        decreases n - i,
    {
        let g = games_to_test[i];
        if games_contain(declared, g) {
            let ghost before = r@;
            r.push(g);
            proof {
                assert(r@ =~= before + seq![g]);
                assert(spec_applicable_from(games_to_test@, declared@, 0) =~= r@
                    + spec_applicable_from(games_to_test@, declared@, i as int + 1));
            }
        }
        i = i + 1;
    }
    proof {
        assert(spec_applicable_from(games_to_test@, declared@, n as int) =~= Seq::<Game>::empty());
        assert(spec_applicable_from(games_to_test@, declared@, 0) =~= r@);
    }
    r
}

} // verus!
