use tsume_generator::moves::convert_move_files;
use tsume_generator::sfen::position_only_sfen;

#[test]
fn test_position_only_sfen() {
    assert_eq!(
        position_only_sfen("bkr/p1p/3/P1P/RKB b - 1"),
        "bkr/p1p/3/P1P/RKB b - 1"
    );
    assert_eq!(
        position_only_sfen("bkr/p1p/3/P1P/RKB b - 1 moves 1e2d 3a2b"),
        "bkr/p1p/3/P1P/RKB b - 1"
    );
}

#[test]
fn test_convert_move_files_normal() {
    assert_eq!(convert_move_files("1e2d"), "3e2d");
    assert_eq!(convert_move_files("3a2b"), "1a2b");
    assert_eq!(convert_move_files("2c2c"), "2c2c");
}

#[test]
fn test_convert_move_files_drop() {
    assert_eq!(convert_move_files("P*2c"), "P*2c");
    assert_eq!(convert_move_files("P*1a"), "P*3a");
    assert_eq!(convert_move_files("B*3e"), "B*1e");
}

#[test]
fn test_convert_move_files_promotion() {
    assert_eq!(convert_move_files("1a1b+"), "3a3b+");
    assert_eq!(convert_move_files("3d3e+"), "1d1e+");
}

#[test]
fn converting_twice_gives_the_token_back() {
    for token in ["1e2d", "3a2b", "2c2c", "1a1b+", "P*1a", "B*3e", "0a4e", "4e0a+", "P*0a"] {
        let once = convert_move_files(token);
        assert_eq!(convert_move_files(&once), token);
    }
}

#[test]
fn middle_file_stays_in_place() {
    assert_eq!(convert_move_files("2a2e"), "2a2e");
    assert_eq!(convert_move_files("2a2e+"), "2a2e+");
    assert_eq!(convert_move_files("R*2d"), "R*2d");
}

#[test]
fn outer_files_swap() {
    assert_eq!(convert_move_files("0a4b"), "4a0b");
    assert_eq!(convert_move_files("K*4c"), "K*0c");
}

#[test]
fn tokens_that_cannot_be_converted_stay_as_they_are() {
    assert_eq!(convert_move_files(""), "");
    assert_eq!(convert_move_files("1e2"), "1e2");
    assert_eq!(convert_move_files("P*2"), "P*2");
    assert_eq!(convert_move_files("xe2d"), "xe2d");
    assert_eq!(convert_move_files("1exd"), "1exd");
    assert_eq!(convert_move_files("P*xd"), "P*xd");
    assert_eq!(convert_move_files("5a1b"), "5a1b");
    assert_eq!(convert_move_files("1a9b"), "1a9b");
    assert_eq!(convert_move_files("P*7c"), "P*7c");
    assert_eq!(convert_move_files("resign"), "resign");
}

#[test]
fn a_drop_loses_what_follows_its_square() {
    assert_eq!(convert_move_files("P*1a+"), "P*3a");
    assert_eq!(convert_move_files("P*1abc"), "P*3a");
}

#[test]
fn a_move_keeps_what_follows_its_squares() {
    assert_eq!(convert_move_files("1a3b+x"), "3a1b+x");
    assert_eq!(convert_move_files("1\u{e9}3b+"), "3\u{e9}1b+");
}

#[test]
fn stripping_is_idempotent() {
    for text in [
        "bkr/p1p/3/P1P/RKB b - 1",
        "bkr/p1p/3/P1P/RKB b - 1 moves 1e2d 3a2b",
        "a moves b moves c",
        " moves",
        "",
        "moves",
    ] {
        let once = position_only_sfen(text);
        assert_eq!(position_only_sfen(&once), once);
    }
}

#[test]
fn stripping_cuts_at_the_first_mark() {
    assert_eq!(position_only_sfen("a moves b moves c"), "a");
    assert_eq!(position_only_sfen(" moves 1e2d"), "");
    assert_eq!(position_only_sfen("moves 1e2d"), "moves 1e2d");
    assert_eq!(position_only_sfen("x  moves"), "x ");
    assert_eq!(position_only_sfen("x move"), "x move");
    assert_eq!(position_only_sfen("\u{3042} moves 1e2d"), "\u{3042}");
}
