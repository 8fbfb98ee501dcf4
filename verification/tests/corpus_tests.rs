use babblewitz::corpus::{expand_game_aliases, parse_corpus_content};
use babblewitz::game::Game;

#[test]
fn test_expand_game_aliases() {
    // "all" alias expansion
    let result = expand_game_aliases("all").unwrap();
    assert_eq!(
        result,
        vec![
            Game::Eu4,
            Game::Ck3,
            Game::Hoi4,
            Game::Vic3,
            Game::Imperator,
            Game::Stellaris
        ]
    );

    // specific games
    let result = expand_game_aliases("eu4 ck3").unwrap();
    assert_eq!(result, vec![Game::Eu4, Game::Ck3]);

    // mixed aliases and specific games
    let result = expand_game_aliases("all vic3").unwrap();
    assert_eq!(
        result,
        vec![
            Game::Eu4,
            Game::Ck3,
            Game::Hoi4,
            Game::Vic3,
            Game::Imperator,
            Game::Stellaris
        ]
    );

    // deduplication
    let result = expand_game_aliases("eu4 all eu4").unwrap();
    assert_eq!(
        result,
        vec![
            Game::Eu4,
            Game::Ck3,
            Game::Hoi4,
            Game::Vic3,
            Game::Imperator,
            Game::Stellaris
        ]
    );

    // empty input
    let result = expand_game_aliases("").unwrap();
    assert!(result.is_empty());

    // unrecognized game
    let result = expand_game_aliases("invalid_game");
    assert!(result.is_err());
    assert_eq!(result.unwrap_err().tag, b"invalid_game".to_vec());

    // mix of valid and invalid games
    let result = expand_game_aliases("eu4 invalid_game ck3");
    assert!(result.is_err());
    assert_eq!(result.unwrap_err().tag, b"invalid_game".to_vec());
}

#[test]
fn test_parse_corpus_content_with_directive() {
    let content = b"# @babblewitz:games: eu4 ck3\ndate=1444.11.11\nplayer=\"FRA\"";
    let (games, parsed_content) = parse_corpus_content(content).unwrap();

    assert_eq!(games, vec![Game::Eu4, Game::Ck3]);
    assert_eq!(parsed_content, b"date=1444.11.11\nplayer=\"FRA\"");
}

#[test]
fn test_parse_corpus_content_with_all_alias() {
    let content = b"# @babblewitz:games: all\ndate=1444.11.11\nplayer=\"FRA\"";
    let (games, parsed_content) = parse_corpus_content(content).unwrap();

    assert_eq!(
        games,
        vec![
            Game::Eu4,
            Game::Ck3,
            Game::Hoi4,
            Game::Vic3,
            Game::Imperator,
            Game::Stellaris
        ]
    );
    assert_eq!(parsed_content, b"date=1444.11.11\nplayer=\"FRA\"");
}

#[test]
fn test_parse_corpus_content_without_directive() {
    let content = b"date=1444.11.11\nplayer=\"FRA\"";
    let (games, parsed_content) = parse_corpus_content(content).unwrap();

    assert!(games.is_empty());
    assert_eq!(parsed_content, content);
}

#[test]
fn test_parse_corpus_content_only_directive() {
    let content = b"# @babblewitz:games: eu4";
    let (games, parsed_content) = parse_corpus_content(content).unwrap();

    assert_eq!(games, vec![Game::Eu4]);
    assert_eq!(parsed_content, b"");
}

#[test]
fn test_parse_corpus_content_empty() {
    let content = b"";
    let (games, parsed_content) = parse_corpus_content(content).unwrap();

    assert!(games.is_empty());
    assert_eq!(parsed_content, b"");
}

#[test]
fn test_parse_corpus_content_old_format_ignored() {
    let content = b"# @games: eu4 ck3\ndate=1444.11.11";
    let (games, parsed_content) = parse_corpus_content(content).unwrap();

    assert!(games.is_empty());
    assert_eq!(parsed_content, content);
}

#[test]
fn test_parse_corpus_content_with_binary_content() {
    // content with some non-UTF8 bytes (simulating Windows-1252)
    let mut content = b"# @babblewitz:games: eu4\n".to_vec();
    content.extend_from_slice(b"name=\"M\xfcnchen\""); // u-umlaut in Windows-1252 is 0xfc

    let (games, parsed_content) = parse_corpus_content(&content).unwrap();
    assert_eq!(games, vec![Game::Eu4]);
    assert_eq!(parsed_content, b"name=\"M\xfcnchen\"");
}

#[test]
fn test_parse_corpus_content_with_windows_1252_encoding() {
    // content with various Windows-1252 characters
    let mut content = b"# @babblewitz:games: all\r\n".to_vec(); // CRLF line ending
                                                                // Various Windows-1252 bytes:
                                                                // 0x80 euro sign, 0xc0, 0xe9, 0xf1, 0xfc accented letters
    content.extend_from_slice(b"currency=\"\x80\"\n");
    content.extend_from_slice(b"city=\"\xc0msterdam\"\n");
    content.extend_from_slice(b"name=\"Caf\xe9\"\n");
    content.extend_from_slice(b"country=\"Espa\xf1a\"\n");
    content.extend_from_slice(b"leader=\"M\xfcller\"\n");

    let (games, parsed_content) = parse_corpus_content(&content).unwrap();
    assert_eq!(
        games,
        vec![
            Game::Eu4,
            Game::Ck3,
            Game::Hoi4,
            Game::Vic3,
            Game::Imperator,
            Game::Stellaris
        ]
    );

    // the content bytes are preserved exactly
    let expected_content = b"currency=\"\x80\"\ncity=\"\xc0msterdam\"\nname=\"Caf\xe9\"\ncountry=\"Espa\xf1a\"\nleader=\"M\xfcller\"\n";
    assert_eq!(parsed_content, expected_content);
}

#[test]
fn test_parse_corpus_content_with_crlf() {
    // CRLF line ending handling
    let content = b"# @babblewitz:games: eu4 ck3\r\ndate=1444.11.11\r\nplayer=\"FRA\"";
    let (games, parsed_content) = parse_corpus_content(content).unwrap();

    assert_eq!(games, vec![Game::Eu4, Game::Ck3]);
    assert_eq!(parsed_content, b"date=1444.11.11\r\nplayer=\"FRA\"");
}

#[test]
fn test_parse_corpus_content_with_invalid_game() {
    // invalid games return an error
    let content = b"# @babblewitz:games: eu4 invalid_game\ndate=1444.11.11";
    let result = parse_corpus_content(content);

    assert!(result.is_err());
    assert_eq!(result.unwrap_err().tag, b"invalid_game".to_vec());
}

#[test]
fn test_parse_corpus_content_indented_directive() {
    // the first line is trimmed before the marker is matched
    let content = b"  # @babblewitz:games: eu4\npayload";
    let (games, parsed_content) = parse_corpus_content(content).unwrap();
    assert_eq!(games, vec![Game::Eu4]);
    assert_eq!(parsed_content, b"payload");
}

#[test]
fn test_parse_corpus_content_directive_without_tokens() {
    // a bare marker declares no games but still strips the line
    let content = b"# @babblewitz:games:\npayload";
    let (games, parsed_content) = parse_corpus_content(content).unwrap();
    assert!(games.is_empty());
    assert_eq!(parsed_content, b"payload");
}

#[test]
fn test_parse_corpus_content_case_insensitive_tags() {
    let content = b"# @babblewitz:games: EU4 Ck3\nrest";
    let (games, parsed_content) = parse_corpus_content(content).unwrap();
    assert_eq!(games, vec![Game::Eu4, Game::Ck3]);
    assert_eq!(parsed_content, b"rest");
}
