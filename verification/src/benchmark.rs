//! The benchmark aggregator: per-file throughput over the timed outcomes of
//! one implementation and game, and their arithmetic mean over the
//! successful files.

use vstd::arithmetic::div_mod::{
    lemma_basic_div, lemma_div_by_multiple, lemma_div_is_ordered, lemma_div_pos_is_pos,
};
use vstd::prelude::*;

use crate::config::{spec_task_tag, TaskType};
use crate::game::{spec_variant_name, Game};
use crate::savefile::SaveFile;

verus! {

/// The outcome of timing one fixture file.
#[derive(Debug, Clone)]
pub enum FileTestResult {
    Success { elapsed_ms: u128 },
    Failed,
}

/// One fixture file's benchmark record: which game, which implementation,
/// how many bytes were sent, and the outcome.
#[derive(Debug, Clone)]
pub struct FileResult {
    pub game: Game,
    pub implementation: String,
    /// Size of the (uncompressed) data sent to the worker's standard input.
    pub data_size_bytes: u64,
    pub result: FileTestResult,
}

/// All per-file benchmark records of a run, with the implementations tested.
#[derive(Debug)]
pub struct PerformanceTable {
    pub files: Vec<FileResult>,
    pub implementations: Vec<String>,
}

/// The summary of one (implementation, game) benchmark: file count, total
/// bytes, mean throughput over the successes, and the failures by name.
#[derive(Debug, Clone)]
pub struct PerformanceResult {
    pub game: Game,
    pub test_type: String,
    pub total_files: usize,
    /// Mean throughput over successful files, in thousandths of a megabyte
    /// per second; 0 when no file succeeded.
    pub avg_throughput_milli_mbps: u64,
    pub total_data_bytes: u128,
    pub failed_files: Vec<String>,
}

/// Throughput in thousandths of a megabyte per second: bytes over elapsed
/// milliseconds, a megabyte being 1048576 bytes; zero elapsed time yields
/// zero throughput rather than a division error.
pub open spec fn spec_throughput_milli(bytes: int, ms: int) -> int {
    if ms <= 0 {
        0
    } else {
        bytes * 1000000 / (1048576 * ms)
    }
}

/// The throughput never exceeds the byte count (a worker never measures
/// below a millisecond per megabyte of reported time resolution).
proof fn lemma_throughput_bounds(bytes: u64, ms: u128)
    ensures
        0 <= spec_throughput_milli(bytes as int, ms as int) <= bytes as int,
{
    let b = bytes as int;
    let m = ms as int;
    if m > 0 {
        lemma_div_pos_is_pos(b * 1000000, 1048576 * m);
        vstd::arithmetic::div_mod::lemma_div_is_ordered_by_denominator(
            b * 1000000,
            1048576,
            1048576 * m,
        );
        lemma_div_is_ordered(b * 1000000, b * 1048576, 1048576);
        lemma_div_by_multiple(b, 1048576);
    }
}

/// Computes the throughput of one file, in thousandths of a megabyte per
/// second; zero elapsed time yields zero.
pub fn throughput_milli_mbps(data_size_bytes: u64, elapsed_ms: u128) -> (r: u64)
    ensures
        r as int == spec_throughput_milli(data_size_bytes as int, elapsed_ms as int),
        elapsed_ms == 0 ==> r == 0,
{
    if elapsed_ms == 0 {
        return 0;
    }
    let num: u128 = (data_size_bytes as u128) * 1000000;
    if elapsed_ms > u128::MAX / 1048576 {
        // the denominator alone dwarfs any byte count: the quotient is zero
        proof {
            assert((num as int) < 1048576 * (elapsed_ms as int));
            lemma_basic_div(num as int, 1048576 * (elapsed_ms as int));
        }
        return 0;
    }
    let denom: u128 = 1048576 * elapsed_ms;
    let q: u128 = num / denom;
    proof {
        lemma_throughput_bounds(data_size_bytes, elapsed_ms);
    }
    q as u64
}

/// The sum of a value sequence.
pub open spec fn spec_sum(s: Seq<u64>) -> int
    decreases s.len(),
{
    if s.len() == 0 {
        0
    } else {
        spec_sum(s.drop_last()) + s.last()
    }
}

proof fn lemma_sum_bounded(s: Seq<u64>)
    ensures
        0 <= spec_sum(s) <= s.len() * (u64::MAX as int),
    decreases s.len(),
{
    if s.len() > 0 {
        lemma_sum_bounded(s.drop_last());
    }
}

/// The arithmetic mean of the values, rounded down; 0 for no values at all.
pub fn mean_u64(values: &Vec<u64>) -> (r: u64)
    ensures
        values@.len() == 0 ==> r == 0,
        values@.len() > 0 ==> r as int == spec_sum(values@) / (values@.len() as int),
{
    let n = values.len();
    if n == 0 {
        return 0;
    }
    let mut sum: u128 = 0;
    proof {
        assert(values@.take(0) =~= Seq::<u64>::empty());
    }
    let mut i: usize = 0;
    while i < n
        invariant
            0 <= i <= n,
            n == values@.len(),
            sum as int == spec_sum(values@.take(i as int)),
            sum as int <= (i as int) * (u64::MAX as int),
        decreases n - i,
    {
        proof {
            assert(values@.take(i as int + 1).drop_last() =~= values@.take(i as int));
            assert(values@.take(i as int + 1).last() == values@[i as int]);
            assert(usize::MAX as int <= u64::MAX as int);
        }
        sum = sum + (values[i] as u128);
        i = i + 1;
    }
    proof {
        assert(values@.take(n as int) =~= values@);
        lemma_sum_bounded(values@);
        lemma_div_is_ordered(sum as int, (n as int) * (u64::MAX as int), n as int);
        lemma_div_by_multiple(u64::MAX as int, n as int);
        lemma_div_pos_is_pos(sum as int, n as int);
    }
    let m: u128 = sum / (n as u128);
    m as u64
}

/// The throughputs of the successful files, in record order, from `i` on.
pub open spec fn spec_throughputs_from(files: Seq<FileResult>, i: int) -> Seq<u64>
    decreases files.len() - i,
{
    if i < 0 || i >= files.len() {
        seq![]
    } else {
        let rest = spec_throughputs_from(files, i + 1);
        match files[i].result {
            FileTestResult::Success { elapsed_ms } => seq![
                spec_throughput_milli(files[i].data_size_bytes as int, elapsed_ms as int) as u64,
            ] + rest,
            FileTestResult::Failed => rest,
        }
    }
}

/// The failure labels of the failed files, in record order, from `i` on.
pub open spec fn spec_failed_labels_from(files: Seq<FileResult>, i: int) -> Seq<Seq<char>>
    decreases files.len() - i,
{
    if i < 0 || i >= files.len() {
        seq![]
    } else {
        let rest = spec_failed_labels_from(files, i + 1);
        match files[i].result {
            FileTestResult::Success { elapsed_ms } => rest,
            FileTestResult::Failed => seq!["File failed: "@ + spec_variant_name(files[i].game)]
                + rest,
        }
    }
}

/// The total bytes sent, over the records from `i` on.
pub open spec fn spec_total_bytes_from(files: Seq<FileResult>, i: int) -> int
    decreases files.len() - i,
{
    if i < 0 || i >= files.len() {
        0
    } else {
        files[i].data_size_bytes + spec_total_bytes_from(files, i + 1)
    }
}

proof fn lemma_total_bytes_bounded(files: Seq<FileResult>, i: int)
    requires
        0 <= i <= files.len(),
    ensures
        0 <= spec_total_bytes_from(files, i) <= (files.len() - i) * (u64::MAX as int),
    decreases files.len() - i,
{
    if i < files.len() {
        lemma_total_bytes_bounded(files, i + 1);
    }
}

/// Summarizes one (implementation, game) benchmark run: every record counts
/// toward the file and byte totals; successful records contribute their
/// throughput to the mean, failed ones are listed by name and contribute
/// nothing — the mean over no successes is zero.
pub fn benchmark_summary(game: Game, task: TaskType, files: &Vec<FileResult>) -> (r:
    PerformanceResult)
    ensures
        r.game == game,
        r.test_type@ == spec_task_tag(task),
        r.total_files == files@.len(),
        r.total_data_bytes as int == spec_total_bytes_from(files@, 0),
        r.failed_files.deep_view() == spec_failed_labels_from(files@, 0),
        ({
            let tps = spec_throughputs_from(files@, 0);
            &&& (tps.len() == 0 ==> r.avg_throughput_milli_mbps == 0)
            &&& (tps.len() > 0 ==> r.avg_throughput_milli_mbps as int == spec_sum(tps) / (
            tps.len() as int))
        }),
{
    let n = files.len();
    let mut throughputs: Vec<u64> = Vec::new();
    let mut failed_files: Vec<String> = Vec::new();
    let mut total_bytes: u128 = 0;
    proof {
        assert(throughputs@ + spec_throughputs_from(files@, 0) =~= spec_throughputs_from(
            files@,
            0,
        ));
        assert(failed_files.deep_view() + spec_failed_labels_from(files@, 0)
            =~~= spec_failed_labels_from(files@, 0));
    }
    let mut i: usize = 0;
    while i < n
        invariant
            0 <= i <= n,
            n == files@.len(),
            spec_throughputs_from(files@, 0) == throughputs@ + spec_throughputs_from(
                files@,
                i as int,
            ),
            spec_failed_labels_from(files@, 0) == failed_files.deep_view()
                + spec_failed_labels_from(files@, i as int),
            total_bytes as int == spec_total_bytes_from(files@, 0) - spec_total_bytes_from(
                files@,
                i as int,
            ),
            total_bytes as int <= (i as int) * (u64::MAX as int),
        decreases n - i,
    {
        let f: &FileResult = &files[i];
        proof {
            assert(usize::MAX as int <= u64::MAX as int);
        }
        total_bytes = total_bytes + (f.data_size_bytes as u128);
        match &f.result {
            FileTestResult::Success { elapsed_ms } => {
                let tp = throughput_milli_mbps(f.data_size_bytes, *elapsed_ms);
                let ghost before = throughputs@;
                throughputs.push(tp);
                proof {
                    lemma_throughput_bounds(f.data_size_bytes, *elapsed_ms);
                    assert(throughputs@ =~= before + seq![tp]);
                    assert(spec_throughputs_from(files@, 0) =~= throughputs@
                        + spec_throughputs_from(files@, i as int + 1));
                }
            },
            FileTestResult::Failed => {
                let mut label = "File failed: ".to_owned();
                label.append(f.game.variant_name());
                let ghost before = failed_files.deep_view();
                failed_files.push(label);
                proof {
                    assert(failed_files.deep_view() =~~= before + seq![
                        "File failed: "@ + spec_variant_name(files@[i as int].game),
                    ]);
                    assert(spec_failed_labels_from(files@, 0) =~~= failed_files.deep_view()
                        + spec_failed_labels_from(files@, i as int + 1));
                }
            },
        }
        i = i + 1;
    }
    proof {
        assert(spec_throughputs_from(files@, n as int) =~= Seq::<u64>::empty());
        assert(spec_throughputs_from(files@, 0) =~= throughputs@);
        assert(spec_failed_labels_from(files@, n as int) =~~= Seq::<Seq<char>>::empty());
        assert(spec_failed_labels_from(files@, 0) =~~= failed_files.deep_view());
        lemma_total_bytes_bounded(files@, n as int);
    }
    let avg = mean_u64(&throughputs);
    PerformanceResult {
        game,
        test_type: task.as_str().to_owned(),
        total_files: n,
        avg_throughput_milli_mbps: avg,
        total_data_bytes: total_bytes,
        failed_files,
    }
}

/// The records a build failure produces: one failed entry per fixture the
/// implementation was expected to cover, with zero measured bytes, so that
/// reporting can tell "could not build" from "built but failing".
pub fn failed_results_for_build(implementation: &String, files: &Vec<SaveFile>) -> (r: Vec<
    FileResult,
>)
    ensures
        r@.len() == files@.len(),
        forall|i: int|
            0 <= i < files@.len() ==> {
                &&& (#[trigger] r@[i]).game == files@[i].detected_game
                &&& r@[i].implementation@ == implementation@
                &&& r@[i].data_size_bytes == 0
                &&& r@[i].result is Failed
            },
{
    let n = files.len();
    let mut r: Vec<FileResult> = Vec::new();
    let mut i: usize = 0;
    while i < n
        invariant
            0 <= i <= n,
            n == files@.len(),
            r@.len() == i,
            forall|j: int|
                0 <= j < i ==> {
                    &&& (#[trigger] r@[j]).game == files@[j].detected_game
                    &&& r@[j].implementation@ == implementation@
                    &&& r@[j].data_size_bytes == 0
                    &&& r@[j].result is Failed
                },
        decreases n - i,
    {
        r.push(
            FileResult {
                game: files[i].detected_game,
                implementation: implementation.clone(),
                data_size_bytes: 0,
                result: FileTestResult::Failed,
            },
        );
        i = i + 1;
    }
    r
}

} // verus!
