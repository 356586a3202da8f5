use wordle::dictionary::Dictionary;
use wordle::keyboard::KeyboardRow;
use wordle::game::Game;
use wordle::keyboard::Keyboard;
use wordle::manager::GameManager;
use wordle::puzzle::GameInfo;
use wordle::save::SaveData;
use wordle::scoring::Color;

fn info(number: u32, word: &[u8]) -> GameInfo {
    GameInfo { number, word: word.to_vec(), date_string: b"2021-06-19".to_vec() }
}

fn dict(words: &[&[u8]]) -> Dictionary {
    let mut d = Dictionary::new();
    for w in words {
        d.add_word(w.to_vec());
    }
    d
}

fn played_game(number: u32, solution: &[u8], guess: &[u8]) -> Game {
    let mut game = Game::new(info(number, solution));
    let d = dict(&[guess.to_ascii_lowercase().as_slice()]);
    for c in guess.iter() {
        game.add_char(*c);
    }
    game.submit(&d);
    game
}

fn assert_same_game(a: &Game, b: &Game) {
    assert_eq!(a.row, b.row);
    assert_eq!(a.col, b.col);
    assert_eq!(a.info.number, b.info.number);
    assert_eq!(a.info.word, b.info.word);
    assert_eq!(a.info.date_string, b.info.date_string);
    assert_eq!(a.grid.len(), b.grid.len());
    for (ra, rb) in a.grid.iter().zip(b.grid.iter()) {
        assert_eq!(ra.letters, rb.letters);
    }
}

#[test]
fn save_then_load_returns_identical_snapshot() {
    // Round trip: the loaded game has the same grid contents, cursor, and
    // bound puzzle as the saved one.
    let game = played_game(7, b"crane", b"TRACE");
    let mut store = SaveData::new();
    store.save(&game);
    let loaded = store.load(7).expect("the snapshot must be found");
    assert_same_game(loaded, &game);
}

#[test]
fn save_overwrites_entry_with_same_number() {
    let first = played_game(7, b"crane", b"TRACE");
    let second = Game::new(info(7, b"crane"));
    let mut store = SaveData::new();
    store.save(&first);
    store.save(&second);
    assert_eq!(store.games().len(), 1);
    let loaded = store.load(7).expect("the snapshot must be found");
    assert_same_game(loaded, &second);
}

#[test]
fn load_of_unknown_number_is_none() {
    let mut store = SaveData::new();
    store.save(&played_game(7, b"crane", b"TRACE"));
    assert!(store.load(8).is_none());
}

#[test]
fn stats_count_finished_games_and_win_distribution() {
    let mut store = SaveData::new();
    // Won in one guess.
    store.save(&played_game(1, b"crane", b"CRANE"));
    // Lost: six wrong rows.
    let mut lost = Game::new(info(2, b"crane"));
    let d = dict(&[b"track"]);
    for _ in 0..6 {
        for c in *b"TRACK" {
            lost.add_char(c);
        }
        lost.submit(&d);
    }
    store.save(&lost);
    // Still in progress.
    store.save(&played_game(3, b"crane", b"TRACE"));
    let stats = store.stats();
    assert_eq!(stats.attempted, 2);
    assert_eq!(stats.won, vec![1, 0, 0, 0, 0, 0]);
}

#[test]
fn manager_adopts_saved_game_at_start() {
    let saved = played_game(10, b"crane", b"TRACE");
    let mut store = SaveData::new();
    store.save(&saved);
    let mgr = GameManager::new(10, info(10, b"crane"), store);
    assert_eq!(mgr.date, 10);
    assert_same_game(&mgr.game, &saved);
}

#[test]
fn manager_binds_fresh_game_without_save() {
    let mgr = GameManager::new(10, info(10, b"crane"), SaveData::new());
    assert_eq!(mgr.date, 10);
    assert_eq!(mgr.game.row, 0);
    assert_eq!(mgr.game.col, 0);
    assert_eq!(mgr.game.info.number, 10);
}

#[test]
fn goto_ignores_dates_outside_range() {
    // The navigator never leaves the range from the epoch up to today.
    let mut mgr = GameManager::new(10, info(10, b"crane"), SaveData::new());
    assert_eq!(mgr.goto(-1, 10), None);
    assert_eq!(mgr.date, 10);
    assert_eq!(mgr.goto(11, 10), None);
    assert_eq!(mgr.date, 10);
}

#[test]
fn next_at_today_is_a_noop() {
    let mut mgr = GameManager::new(10, info(10, b"crane"), SaveData::new());
    assert_eq!(mgr.next(10), None);
    assert_eq!(mgr.date, 10);
    assert_eq!(mgr.game.info.number, 10);
}

#[test]
fn goto_restores_saved_day_without_fetch() {
    // A stored day is adopted verbatim, and repeating the move still asks
    // for no fetch.
    let saved = played_game(3, b"olive", b"TRACE");
    let mut store = SaveData::new();
    store.save(&saved);
    let mut mgr = GameManager::new(10, info(10, b"crane"), store);
    assert_eq!(mgr.goto(3, 10), None);
    assert_eq!(mgr.date, 3);
    assert_same_game(&mgr.game, &saved);
    assert_eq!(mgr.goto(3, 10), None);
    assert_eq!(mgr.date, 3);
    assert_same_game(&mgr.game, &saved);
}

#[test]
fn goto_of_unsaved_day_asks_for_fetch_and_keeps_state() {
    let mut mgr = GameManager::new(10, info(10, b"crane"), SaveData::new());
    assert_eq!(mgr.goto(4, 10), Some(4));
    assert_eq!(mgr.date, 10);
    assert_eq!(mgr.game.info.number, 10);
    mgr.goto_fetched(4, 10, info(4, b"olive"));
    assert_eq!(mgr.date, 4);
    assert_eq!(mgr.game.info.number, 4);
    assert_eq!(mgr.game.row, 0);
    assert_eq!(mgr.game.col, 0);
}

#[test]
fn previous_and_first_and_last_move_by_the_store() {
    let mut store = SaveData::new();
    store.save(&Game::new(info(9, b"olive")));
    store.save(&Game::new(info(0, b"slate")));
    let mut mgr = GameManager::new(10, info(10, b"crane"), store);
    assert_eq!(mgr.previous(10), None);
    assert_eq!(mgr.date, 9);
    assert_eq!(mgr.first(10), None);
    assert_eq!(mgr.date, 0);
    assert_eq!(mgr.game.info.number, 0);
    // Today itself was never committed, so moving last asks for a fetch.
    assert_eq!(mgr.last(10), Some(10));
    assert_eq!(mgr.date, 0);
}

#[test]
fn manager_save_commits_current_game() {
    let mut mgr = GameManager::new(10, info(10, b"crane"), SaveData::new());
    let d = dict(&[b"trace"]);
    for c in *b"TRACE" {
        mgr.game.add_char(c);
    }
    mgr.game.submit(&d);
    mgr.save();
    let snapshot = mgr.save_data.load(10).expect("the snapshot must be found");
    assert_eq!(snapshot.row, 1);
    assert_eq!(snapshot.grid[0].letters[0].ch, b'T');
}

#[test]
fn keyboard_hints_show_best_feedback() {
    // After TRACE against CRANE: T gray, R green, A green, C yellow,
    // E green; unused keys show nothing.
    let game = played_game(0, b"crane", b"TRACE");
    let kb = Keyboard::from_rows(&game.grid);
    let top = &kb.rows.0.letters;
    let middle = &kb.rows.1.letters;
    let bottom = &kb.rows.2.letters;
    let find = |row: &Vec<wordle::board::Letter>, ch: u8| {
        row.iter().find(|l| l.ch == ch).expect("key must exist").color
    };
    assert_eq!(find(top, b'T'), Some(Color::Gray));
    assert_eq!(find(top, b'R'), Some(Color::Green));
    assert_eq!(find(top, b'E'), Some(Color::Green));
    assert_eq!(find(middle, b'A'), Some(Color::Green));
    assert_eq!(find(bottom, b'C'), Some(Color::Yellow));
    assert_eq!(find(top, b'Q'), None);
    assert_eq!(find(middle, b'S'), None);
}

#[test]
fn keyboard_hint_never_downgrades() {
    let mut kr = KeyboardRow::from_chars(&vec![b'A', b'B']);
    kr.set_color(b'A', Some(Color::Green));
    kr.set_color(b'A', Some(Color::Gray));
    assert_eq!(kr.letters[0].color, Some(Color::Green));
    kr.set_color(b'B', Some(Color::Yellow));
    assert_eq!(kr.letters[1].color, Some(Color::Yellow));
    // A byte no key holds changes nothing.
    kr.set_color(b'Z', Some(Color::Green));
    assert_eq!(kr.letters[0].color, Some(Color::Green));
    assert_eq!(kr.letters[1].color, Some(Color::Yellow));
}

#[test]
fn dictionary_contains_only_added_words() {
    let d = dict(&[b"crane", b"trace"]);
    assert!(d.contains(&b"crane".to_vec()));
    assert!(d.contains(&b"trace".to_vec()));
    assert!(!d.contains(&b"zzzzz".to_vec()));
    assert!(!d.contains(&b"cran".to_vec()));
}
