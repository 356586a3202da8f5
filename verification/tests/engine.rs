use wordle::board::BLANK;
use wordle::dictionary::Dictionary;
use wordle::game::Game;
use wordle::puzzle::GameInfo;
use wordle::scoring::{score_guess, Color};

fn info(number: u32, word: &[u8]) -> GameInfo {
    GameInfo { number, word: word.to_vec(), date_string: b"2021-06-19".to_vec() }
}

fn dict(words: &[&[u8]]) -> Dictionary {
    let mut d = Dictionary::new();
    for w in words {
        d.add_word(w.to_vec());
    }
    d
}

fn colors_of_row(game: &Game, r: usize) -> Vec<Option<Color>> {
    game.grid[r].letters.iter().map(|l| l.color).collect()
}

fn chars_of_row(game: &Game, r: usize) -> Vec<u8> {
    game.grid[r].letters.iter().map(|l| l.ch).collect()
}

#[test]
fn score_all_exact() {
    let colors = score_guess(&b"CRANE".to_vec(), &b"crane".to_vec());
    assert_eq!(colors, vec![Color::Green; 5]);
}

#[test]
fn score_trace_against_crane() {
    // T absent, R exact, A exact, C present (shifted), E exact.
    let colors = score_guess(&b"TRACE".to_vec(), &b"crane".to_vec());
    assert_eq!(
        colors,
        vec![Color::Gray, Color::Green, Color::Green, Color::Yellow, Color::Green]
    );
}

#[test]
fn score_erase_against_speed() {
    // Both E's of ERASE find an e of SPEED, and the S is shifted; R and A
    // are absent. No letter is credited more often than the solution
    // holds it.
    let colors = score_guess(&b"ERASE".to_vec(), &b"speed".to_vec());
    assert_eq!(
        colors,
        vec![Color::Yellow, Color::Gray, Color::Gray, Color::Yellow, Color::Yellow]
    );
}

#[test]
fn score_repeated_letter_not_overcredited() {
    // Solution has one L, exactly matched by the guess's second L; the
    // first L gets nothing.
    let colors = score_guess(&b"LLAMA".to_vec(), &b"olive".to_vec());
    assert_eq!(colors[0], Color::Gray);
    assert_eq!(colors[1], Color::Green);
    let credited = colors
        .iter()
        .zip(b"LLAMA".iter())
        .filter(|(c, ch)| **ch == b'L' && **c != Color::Gray)
        .count();
    assert!(credited <= 1);
}

#[test]
fn score_is_repeatable() {
    let first = score_guess(&b"ERASE".to_vec(), &b"speed".to_vec());
    let second = score_guess(&b"ERASE".to_vec(), &b"speed".to_vec());
    assert_eq!(first, second);
}

#[test]
fn win_on_first_row() {
    // Epoch puzzle number zero, solution CRANE: typing it and submitting
    // leaves row zero all-exact, the game finished and won in one.
    let mut game = Game::new(info(0, b"crane"));
    let d = dict(&[b"crane"]);
    for c in *b"CRANE" {
        game.add_char(c);
    }
    game.submit(&d);
    assert_eq!(colors_of_row(&game, 0), vec![Some(Color::Green); 5]);
    assert!(game.has_finished());
    assert_eq!(game.won_in(), Some(1));
}

#[test]
fn typing_is_normalized_to_uppercase() {
    let mut game = Game::new(info(0, b"crane"));
    game.add_char(b'c');
    assert_eq!(game.grid[0].letters[0].ch, b'C');
    assert_eq!(game.col, 1);
}

#[test]
fn typing_past_full_row_is_ignored() {
    let mut game = Game::new(info(0, b"crane"));
    for c in *b"TRACE" {
        game.add_char(c);
    }
    game.add_char(b'S');
    assert_eq!(chars_of_row(&game, 0), b"TRACE".to_vec());
    assert_eq!(game.col, 5);
}

#[test]
fn backspace_removes_last_letter() {
    let mut game = Game::new(info(0, b"crane"));
    game.add_char(b'A');
    game.add_char(b'B');
    game.backspace();
    assert_eq!(game.col, 1);
    assert_eq!(game.grid[0].letters[1].ch, BLANK);
    assert_eq!(game.grid[0].letters[0].ch, b'A');
}

#[test]
fn backspace_on_empty_row_is_ignored() {
    let mut game = Game::new(info(0, b"crane"));
    game.backspace();
    assert_eq!(game.col, 0);
    assert_eq!(game.row, 0);
    assert_eq!(chars_of_row(&game, 0), vec![BLANK; 5]);
}

#[test]
fn submit_of_incomplete_row_is_ignored() {
    let mut game = Game::new(info(0, b"crane"));
    let d = dict(&[b"crane"]);
    game.add_char(b'C');
    game.submit(&d);
    assert_eq!(game.row, 0);
    assert_eq!(game.col, 1);
    assert_eq!(colors_of_row(&game, 0), vec![None; 5]);
}

#[test]
fn submit_of_unknown_word_changes_nothing() {
    // A word the dictionary rejects leaves the grid and cursor unchanged.
    let mut game = Game::new(info(0, b"crane"));
    let d = dict(&[b"crane"]);
    for c in *b"ZZZZZ" {
        game.add_char(c);
    }
    game.submit(&d);
    assert_eq!(game.row, 0);
    assert_eq!(game.col, 5);
    assert_eq!(chars_of_row(&game, 0), b"ZZZZZ".to_vec());
    assert_eq!(colors_of_row(&game, 0), vec![None; 5]);
}

#[test]
fn lost_after_six_wrong_rows() {
    let mut game = Game::new(info(0, b"crane"));
    let d = dict(&[b"track"]);
    for _ in 0..6 {
        for c in *b"TRACK" {
            game.add_char(c);
        }
        game.submit(&d);
    }
    assert_eq!(game.row, 6);
    assert!(game.has_finished());
    assert_eq!(game.won_in(), None);
}

#[test]
fn no_input_accepted_after_win() {
    let mut game = Game::new(info(0, b"crane"));
    let d = dict(&[b"crane"]);
    for c in *b"CRANE" {
        game.add_char(c);
    }
    game.submit(&d);
    game.add_char(b'X');
    assert_eq!(chars_of_row(&game, 1), vec![BLANK; 5]);
    assert_eq!(game.row, 1);
    assert_eq!(game.col, 0);
}

#[test]
fn won_in_reports_first_exact_row() {
    let mut game = Game::new(info(0, b"crane"));
    let d = dict(&[b"track", b"crane"]);
    for c in *b"TRACK" {
        game.add_char(c);
    }
    game.submit(&d);
    assert_eq!(game.won_in(), None);
    assert!(!game.has_finished());
    for c in *b"CRANE" {
        game.add_char(c);
    }
    game.submit(&d);
    assert_eq!(game.won_in(), Some(2));
    assert!(game.has_finished());
}

#[test]
fn dictionary_lookup_is_case_folded() {
    let mut game = Game::new(info(0, b"crane"));
    // The dictionary holds lowercase words; the typed row is uppercase.
    let d = dict(&[b"crane"]);
    for c in *b"crane" {
        game.add_char(c);
    }
    game.submit(&d);
    assert_eq!(game.row, 1);
}

#[test]
fn non_alphabetic_input_is_ignored() {
    let mut game = Game::new(info(0, b"crane"));
    game.add_char(b' ');
    game.add_char(b'3');
    assert_eq!(game.col, 0);
    game.add_char(b'Q');
    assert_eq!(game.col, 1);
}

#[test]
fn check_wf_accepts_fresh_and_rejects_corrupt() {
    let mut game = Game::new(info(0, b"crane"));
    assert!(game.check_wf());
    game.row = 7;
    assert!(!game.check_wf());
}
