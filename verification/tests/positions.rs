use tsume_generator::sfen::{
    is_separator, normalize_mirrored, position_command_text, position_only_sfen, split_fields,
};
use tsume_generator::text::{chars_of, string_of};

fn fields_of(text: &str) -> Vec<String> {
    let chars = chars_of(text);
    split_fields(&chars)
        .iter()
        .map(string_of)
        .collect()
}

#[test]
fn position_text_without_moves_is_the_base() {
    let history: Vec<String> = Vec::new();
    assert_eq!(
        position_command_text("bkr/p1p/3/P1P/RKB b - 1", &history),
        "bkr/p1p/3/P1P/RKB b - 1"
    );
}

#[test]
fn position_text_lists_the_moves() {
    let history = vec!["1e2d".to_string(), "3a2b".to_string()];
    assert_eq!(
        position_command_text("bkr/p1p/3/P1P/RKB b - 1", &history),
        "bkr/p1p/3/P1P/RKB b - 1 moves 1e2d 3a2b"
    );
    let one = vec!["1e2d".to_string()];
    assert_eq!(position_command_text("x", &one), "x moves 1e2d");
}

#[test]
fn position_text_strips_to_the_base() {
    let history = vec!["1e2d".to_string(), "3a2b".to_string(), "P*2c".to_string()];
    let base = "bkr/p1p/3/P1P/RKB b - 1";
    assert_eq!(
        position_only_sfen(&position_command_text(base, &history)),
        position_only_sfen(base)
    );
    assert_eq!(position_only_sfen(&position_command_text(base, &history)), base);
}

#[test]
fn fields_are_the_runs_between_separators() {
    assert_eq!(
        fields_of("bkr/p1p/3/P1P/RKB w - 1"),
        vec!["bkr/p1p/3/P1P/RKB", "w", "-", "1"]
    );
    assert_eq!(fields_of("  a \t b\n"), vec!["a", "b"]);
    assert_eq!(fields_of("a\u{3000}b\u{a0}c"), vec!["a", "b", "c"]);
    assert_eq!(fields_of("").len(), 0);
    assert_eq!(fields_of(" \t ").len(), 0);
    assert_eq!(fields_of("abc"), vec!["abc"]);
}

#[test]
fn separators_are_the_white_space_characters() {
    for c in [
        ' ', '\t', '\n', '\u{b}', '\u{c}', '\r', '\u{85}', '\u{a0}', '\u{1680}', '\u{2000}',
        '\u{2005}', '\u{200a}', '\u{2028}', '\u{2029}', '\u{202f}', '\u{205f}', '\u{3000}',
    ] {
        assert!(is_separator(c));
        assert!(c.is_whitespace());
    }
    for c in ['a', '1', '/', '-', '\u{8}', '\u{e}', '\u{200b}', '\u{1fff}', '\u{3001}'] {
        assert!(!is_separator(c));
        assert!(!c.is_whitespace());
    }
}

#[test]
fn normalizing_sets_side_and_counter() {
    assert_eq!(
        normalize_mirrored("bkr/p1p/3/P1P/RKB w - 7"),
        "bkr/p1p/3/P1P/RKB b - 1"
    );
    assert_eq!(
        normalize_mirrored("bkr/p1p/3/P1P/RKB b Pp 12"),
        "bkr/p1p/3/P1P/RKB b Pp 1"
    );
    assert_eq!(normalize_mirrored("  a   w  -   9  extra "), "a b - 1");
}

#[test]
fn normalizing_leaves_what_is_no_position() {
    assert_eq!(normalize_mirrored(""), "");
    assert_eq!(normalize_mirrored("a w -"), "a w -");
    assert_eq!(normalize_mirrored(" a  w "), " a  w ");
}

#[test]
fn a_normalized_position_has_black_to_move() {
    let puzzle = normalize_mirrored("rkb/p1p/3/P1P/BKR w - 23");
    let fields = fields_of(&puzzle);
    assert_eq!(fields.len(), 4);
    assert_eq!(fields[0], "rkb/p1p/3/P1P/BKR");
    assert_eq!(fields[1], "b");
    assert_eq!(fields[2], "-");
    assert_eq!(fields[3], "1");
}

#[test]
fn test_ensure_black_to_move_already_black() {
    let sfen = "bkr/p1p/3/P1P/RKB b - 1";
    assert_eq!(normalize_mirrored(sfen), sfen);
}

#[test]
fn test_ensure_black_to_move_white_to_move() {
    let sfen = "bkr/p1p/3/P1P/RKB w - 1";
    let result = normalize_mirrored(sfen);
    assert!(result.contains(" b "), "Should be Black to move after mirror");
    assert!(!result.contains(" w "));
    assert_eq!(result, "bkr/p1p/3/P1P/RKB b - 1");
}

#[test]
fn hands_written_as_a_lone_w_stay() {
    let result = normalize_mirrored("bkr/p1p/3/P1P/RKB w w 9");
    assert_eq!(result, "bkr/p1p/3/P1P/RKB b w 1");
    assert!(result.contains(" b "));
    assert!(result.contains(" w "));
}

#[test]
fn separators_agree_with_the_standard_library_on_every_character() {
    for code in 0..=0x10ffffu32 {
        if let Some(c) = char::from_u32(code) {
            assert_eq!(is_separator(c), c.is_whitespace(), "U+{:04X}", code);
        }
    }
}

#[test]
fn fields_agree_with_the_standard_library() {
    for text in [
        "bkr/p1p/3/P1P/RKB w - 1",
        "  lead and  trail \t",
        "one",
        "",
        "\n\n",
        "a\u{2003}b\u{85}c d",
        "bkr/p1p/3/P1P/RKB b - 1 moves 1e2d 3a2b",
    ] {
        let expected: Vec<String> = text.split_whitespace().map(|f| f.to_string()).collect();
        assert_eq!(fields_of(text), expected);
    }
}
