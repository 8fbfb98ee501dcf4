use babblewitz::config::ProjectType;
use babblewitz::executor::get_project_config;
use babblewitz::game::Game;
use babblewitz::savefile::detect_game_from_directory;

#[test]
fn test_game_enum() {
    // from_str
    assert_eq!(Game::from_str("eu4"), Some(Game::Eu4));
    assert_eq!(Game::from_str("EU4"), Some(Game::Eu4));
    assert_eq!(Game::from_str("ck3"), Some(Game::Ck3));
    assert_eq!(Game::from_str("vic3"), Some(Game::Vic3));
    assert_eq!(Game::from_str("hoi4"), Some(Game::Hoi4));
    assert_eq!(Game::from_str("imperator"), Some(Game::Imperator));
    assert_eq!(Game::from_str("stellaris"), Some(Game::Stellaris));
    assert_eq!(Game::from_str("unknown"), None);

    // as_str
    assert_eq!(Game::Eu4.as_str(), "eu4");
    assert_eq!(Game::Ck3.as_str(), "ck3");
    assert_eq!(Game::Vic3.as_str(), "vic3");
    assert_eq!(Game::Hoi4.as_str(), "hoi4");
    assert_eq!(Game::Imperator.as_str(), "imperator");
    assert_eq!(Game::Stellaris.as_str(), "stellaris");

    // the canonical tag, as display formatting would print it
    assert_eq!(format!("{}", Game::Eu4.as_str()), "eu4");
    assert_eq!(format!("{}", Game::Ck3.as_str()), "ck3");
}

#[test]
fn test_detect_game_from_directory() {
    // EU4 game detection
    let path = "corpus/saves/eu4/france_1444.eu4";
    assert_eq!(detect_game_from_directory(path), Some(Game::Eu4));

    // CK3 game detection
    let path = "corpus/saves/ck3/ireland_1066.ck3";
    assert_eq!(detect_game_from_directory(path), Some(Game::Ck3));

    // absolute path
    let path = "/home/user/projects/corpus/saves/hoi4/germany_1936.hoi4";
    assert_eq!(detect_game_from_directory(path), Some(Game::Hoi4));

    let path = "corpus/saves/vic3/test.vic3";
    assert_eq!(detect_game_from_directory(path), Some(Game::Vic3));
}

#[test]
fn test_detect_game_without_parent() {
    assert_eq!(detect_game_from_directory("lonely.eu4"), None);
    assert_eq!(detect_game_from_directory("notagame/file.bin"), None);
}

#[test]
fn test_project_type_display() {
    assert_eq!(ProjectType::Rust.as_str().to_string(), "rust");
    assert_eq!(ProjectType::Gradle.as_str().to_string(), "gradle");
    assert_eq!(ProjectType::Nodejs.as_str().to_string(), "nodejs");
    assert_eq!(ProjectType::Go.as_str().to_string(), "go");
    assert_eq!(ProjectType::Make.as_str().to_string(), "make");
}

#[test]
fn test_project_type_as_str() {
    assert_eq!(ProjectType::Rust.as_str(), "rust");
    assert_eq!(ProjectType::Gradle.as_str(), "gradle");
    assert_eq!(ProjectType::Nodejs.as_str(), "nodejs");
    assert_eq!(ProjectType::Go.as_str(), "go");
    assert_eq!(ProjectType::Make.as_str(), "make");
}

#[test]
fn test_project_type_config() {
    // all project types have configs
    let _rust_config = get_project_config(ProjectType::Rust);
    let _gradle_config = get_project_config(ProjectType::Gradle);
    let _nodejs_config = get_project_config(ProjectType::Nodejs);
    let _go_config = get_project_config(ProjectType::Go);
    let _make_config = get_project_config(ProjectType::Make);

    // specific configs
    let rust_config = get_project_config(ProjectType::Rust);
    assert_eq!(rust_config.run_command, "cargo run --release --quiet --");
    assert_eq!(rust_config.build_command, Some("cargo build --release"));

    let nodejs_config = get_project_config(ProjectType::Nodejs);
    assert_eq!(nodejs_config.run_command, "node main.js");
    assert_eq!(nodejs_config.build_command, Some("npm install"));
}
