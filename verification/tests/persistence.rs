use arcade::persistence::{HighScore, HighScores, HIGH_SCORES_MAX_SIZE};

#[test]
fn given_empty_then_max_should_be_the_minimum_int_value() {
    let hs = HighScores { path: ".test".to_string(), entries: Vec::new() };

    assert_eq!(0, hs.max());
}

#[test]
fn given_empty_then_min_should_be_the_minimum_value() {
    let hs = HighScores { path: ".test".to_string(), entries: Vec::new() };

    assert_eq!(0, hs.min());
}

#[test]
fn given_not_empty_then_max_should_be_the_max_entry_even_when_inserted_in_the_inverse_order() {
    let mut hs = HighScores { path: ".test".to_string(), entries: Vec::new() };

    hs.add(100);
    hs.add(200);

    assert_eq!(200, hs.max());
}

#[test]
fn given_less_entries_then_max_size_then_min_should_be_the_minimum_int_value() {
    let mut hs = HighScores { path: ".test".to_string(), entries: Vec::new() };

    hs.add(100);

    assert_eq!(0, hs.min());
}

#[test]
fn given_enough_entries_then_min_should_be_the_min_entry() {
    let mut hs = HighScores { path: ".test".to_string(), entries: Vec::new() };

    for i in 0..HIGH_SCORES_MAX_SIZE {
        hs.add(i as u32 * 100);
    }

    assert_eq!(0, hs.min());
}

#[test]
fn entries_should_be_sorted_on_add() {
    let mut hs = HighScores { path: ".test".to_string(), entries: Vec::new() };

    hs.add(100);
    hs.add(200);
    hs.add(300);

    let entries = hs.entries();
    assert_eq!(300, entries[0].score());
    assert_eq!(200, entries[1].score());
    assert_eq!(100, entries[2].score());
}

#[test]
fn given_more_entries_than_max_size_then_only_the_higher_entries_should_be_retained() {
    let mut hs = HighScores { path: ".test".to_string(), entries: Vec::new() };

    for i in 0..HIGH_SCORES_MAX_SIZE + 5 {
        hs.add(i as u32 * 100);
    }

    let entries = hs.entries();

    assert_eq!(HIGH_SCORES_MAX_SIZE, entries.len());

    assert_eq!(
        entries.first().map(HighScore::score),
        Some(100 * (HIGH_SCORES_MAX_SIZE as u32 + 5 - 1))
    );
}

#[test]
fn new_gives_an_empty_list_under_the_given_path() {
    let hs = HighScores::new(".test".to_string());

    assert_eq!(0, hs.entries().len());
    assert_eq!(".test", hs.path);
}

#[test]
fn equal_scores_keep_their_insertion_order() {
    let mut hs = HighScores { path: ".test".to_string(), entries: Vec::new() };

    hs.add(200);
    let first_time = hs.entries()[0].time();
    hs.add(200);

    let entries = hs.entries();
    assert_eq!(200, entries[0].score());
    assert_eq!(200, entries[1].score());
    assert_eq!(first_time, entries[0].time());
}
