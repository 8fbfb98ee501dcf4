use babblewitz::benchmark::{
    benchmark_summary, failed_results_for_build, mean_u64, throughput_milli_mbps, FileResult,
    FileTestResult, PerformanceTable,
};
use babblewitz::common::calculate_impl_width;
use babblewitz::config::TaskType;
use babblewitz::conformance::{conformance_results, CanParseGameResult, FileOutcome};
use babblewitz::corpus::parse_corpus_content;
use babblewitz::game::Game;
use babblewitz::protocol::{decode_worker_reply, ExecutionResult};
use babblewitz::savefile::SaveFile;

#[test]
fn test_file_test_result_types() {
    // Test Success result
    let success = FileTestResult::Success { elapsed_ms: 1500 };
    match success {
        FileTestResult::Success { elapsed_ms } => assert_eq!(elapsed_ms, 1500),
        _ => panic!("Expected Success variant"),
    }

    // Test Failed result
    let failed = FileTestResult::Failed;
    match failed {
        FileTestResult::Failed => {}
        _ => panic!("Expected Failed variant"),
    }
}

#[test]
fn test_performance_table_structure() {
    let files = vec![
        FileResult {
            game: Game::Eu4,
            implementation: "jomini-reader".to_string(),
            data_size_bytes: 1024,
            result: FileTestResult::Success { elapsed_ms: 100 },
        },
        FileResult {
            game: Game::Ck3,
            implementation: "jomini-reader".to_string(),
            data_size_bytes: 2048,
            result: FileTestResult::Failed,
        },
    ];

    let table = PerformanceTable {
        files,
        implementations: vec!["jomini-reader".to_string()],
    };

    assert_eq!(table.files.len(), 2);
    assert_eq!(table.implementations.len(), 1);
}

#[test]
fn test_success_rate_values() {
    // no tests at all: rate 0, not a division error
    let empty = CanParseGameResult::new(Game::Eu4);
    assert_eq!(empty.success_rate(), 0);

    // every test passed: exactly 100%
    let full = CanParseGameResult {
        game: Game::Eu4,
        total_tests: 3,
        passed_tests: 3,
    };
    assert_eq!(full.success_rate(), 10000);

    // half passed: 50%
    let half = CanParseGameResult {
        game: Game::Ck3,
        total_tests: 4,
        passed_tests: 2,
    };
    assert_eq!(half.success_rate(), 5000);

    // monotonic in passed for a fixed total
    let less = CanParseGameResult {
        game: Game::Ck3,
        total_tests: 7,
        passed_tests: 2,
    };
    let more = CanParseGameResult {
        game: Game::Ck3,
        total_tests: 7,
        passed_tests: 5,
    };
    assert!(less.success_rate() <= more.success_rate());
}

#[test]
fn test_throughput_values() {
    // zero elapsed time yields zero throughput, not a division error
    assert_eq!(throughput_milli_mbps(1048576, 0), 0);

    // one megabyte in one second is 1.000 MB/s
    assert_eq!(throughput_milli_mbps(1048576, 1000), 1000);

    // two megabytes in half a second is 4.000 MB/s
    assert_eq!(throughput_milli_mbps(2 * 1048576, 500), 4000);
}

#[test]
fn test_mean_values() {
    // the mean over no successes is zero
    assert_eq!(mean_u64(&vec![]), 0);
    assert_eq!(mean_u64(&vec![1000, 2000]), 1500);
    assert_eq!(mean_u64(&vec![7]), 7);
}

#[test]
fn test_benchmark_summary_counts() {
    let files = vec![
        FileResult {
            game: Game::Eu4,
            implementation: "impl-a".to_string(),
            data_size_bytes: 1048576,
            result: FileTestResult::Success { elapsed_ms: 1000 },
        },
        FileResult {
            game: Game::Eu4,
            implementation: "impl-a".to_string(),
            data_size_bytes: 2 * 1048576,
            result: FileTestResult::Success { elapsed_ms: 500 },
        },
        FileResult {
            game: Game::Eu4,
            implementation: "impl-a".to_string(),
            data_size_bytes: 4096,
            result: FileTestResult::Failed,
        },
    ];
    let summary = benchmark_summary(Game::Eu4, TaskType::Deserialization, &files);
    assert_eq!(summary.game, Game::Eu4);
    assert_eq!(summary.test_type, "deserialization");
    assert_eq!(summary.total_files, 3);
    assert_eq!(summary.total_data_bytes, 3 * 1048576 + 4096);
    // mean of 1.000 MB/s and 4.000 MB/s
    assert_eq!(summary.avg_throughput_milli_mbps, 2500);
    assert_eq!(summary.failed_files, vec!["File failed: Eu4".to_string()]);
}

#[test]
fn test_benchmark_summary_no_successes() {
    let files = vec![FileResult {
        game: Game::Vic3,
        implementation: "impl-a".to_string(),
        data_size_bytes: 4096,
        result: FileTestResult::Failed,
    }];
    let summary = benchmark_summary(Game::Vic3, TaskType::Deserialization, &files);
    assert_eq!(summary.avg_throughput_milli_mbps, 0);
    assert_eq!(summary.failed_files, vec!["File failed: Vic3".to_string()]);
}

#[test]
fn test_build_failure_results() {
    let files = vec![
        SaveFile {
            file_path: "corpus/saves/eu4/a.zip".to_string(),
            detected_game: Game::Eu4,
        },
        SaveFile {
            file_path: "corpus/saves/ck3/b.zip".to_string(),
            detected_game: Game::Ck3,
        },
    ];
    let results = failed_results_for_build(&"impl-a".to_string(), &files);
    assert_eq!(results.len(), 2);
    for (result, file) in results.iter().zip(files.iter()) {
        assert_eq!(result.game, file.detected_game);
        assert_eq!(result.implementation, "impl-a");
        assert_eq!(result.data_size_bytes, 0);
        assert!(matches!(result.result, FileTestResult::Failed));
    }
}

#[test]
fn test_conformance_two_file_run() {
    // One implementation declaring can-parse for eu4 and ck3, run against a
    // two-file corpus: a file tagged for both games passes, a file tagged
    // eu4-only fails. Expected: ck3 1/1 (100%), eu4 1/2 (50%).
    let games_to_test = vec![Game::Eu4, Game::Ck3];

    let (file1_games, _) =
        parse_corpus_content(b"# @babblewitz:games: eu4 ck3\ncontent one").unwrap();
    let (file2_games, _) = parse_corpus_content(b"# @babblewitz:games: eu4\ncontent two").unwrap();

    let pass = decode_worker_reply(true, Some(0), "120\nok", "");
    let fail = decode_worker_reply(false, Some(1), "130\nError: parse failed", "");

    let outcomes = vec![
        FileOutcome {
            games: file1_games,
            passed: matches!(pass, ExecutionResult::Success { .. }),
        },
        FileOutcome {
            games: file2_games,
            passed: matches!(fail, ExecutionResult::Success { .. }),
        },
    ];

    let results = conformance_results(&games_to_test, &outcomes);
    assert_eq!(results.len(), 2);

    // canonical order puts ck3 before eu4
    assert_eq!(results[0].game, Game::Ck3);
    assert_eq!(results[0].total_tests, 1);
    assert_eq!(results[0].passed_tests, 1);
    assert_eq!(results[0].success_rate(), 10000);

    assert_eq!(results[1].game, Game::Eu4);
    assert_eq!(results[1].total_tests, 2);
    assert_eq!(results[1].passed_tests, 1);
    assert_eq!(results[1].success_rate(), 5000);
}

#[test]
fn test_conformance_skips_undeclared_games() {
    let games_to_test = vec![Game::Vic3];
    let outcomes = vec![FileOutcome {
        games: vec![Game::Eu4],
        passed: true,
    }];
    let results = conformance_results(&games_to_test, &outcomes);
    assert_eq!(results.len(), 1);
    assert_eq!(results[0].game, Game::Vic3);
    assert_eq!(results[0].total_tests, 0);
    assert_eq!(results[0].success_rate(), 0);
}

#[test]
fn test_calculate_impl_width() {
    // never narrower than 15
    assert_eq!(calculate_impl_width(&["a".to_string()]), 15);
    // a long name sets the width
    let long = "a-rather-long-implementation-name".to_string();
    assert_eq!(calculate_impl_width(&[long.clone()]), long.len());
}
