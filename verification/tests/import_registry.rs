use league_ratings::import::{load_matches, parse_score, ImportFault, ImportRow};
use league_ratings::matchlog::MatchLog;
use league_ratings::registry::Registry;

fn row(date: &str, p1: &str, s1: &str, s2: &str, p2: &str) -> ImportRow {
    ImportRow {
        date: date.to_owned(),
        player1: p1.to_owned(),
        score1: s1.to_owned(),
        score2: s2.to_owned(),
        player2: p2.to_owned(),
    }
}

fn five_rows() -> Vec<ImportRow> {
    vec![
        row("2024-01-06", "Alice", "3", "1", "Bob"),
        row("2024-01-06", "Bob", "2", "2", "Carol"),
        row("2024-01-07", "Alice", "0", "1", "Carol"),
        row("2024-01-13", "Bob", "1", "0", "Alice"),
        row("2024-01-14", "Carol", "2", "0", "Bob"),
    ]
}

#[test]
fn parse_score_accepts_plain_digit_strings() {
    assert_eq!(parse_score("0"), Some(0));
    assert_eq!(parse_score("3"), Some(3));
    assert_eq!(parse_score("007"), Some(7));
    assert_eq!(parse_score("2147483647"), Some(2147483647));
}

#[test]
fn parse_score_rejects_everything_else() {
    assert_eq!(parse_score(""), None);
    assert_eq!(parse_score("-1"), None);
    assert_eq!(parse_score("+2"), None);
    assert_eq!(parse_score("3 "), None);
    assert_eq!(parse_score("two"), None);
    assert_eq!(parse_score("2147483648"), None);
    assert_eq!(parse_score("99999999999999999999"), None);
}

#[test]
fn loading_five_rows_registers_three_players_and_five_matches() {
    let mut reg = Registry::new();
    let mut log = MatchLog::new();
    let rows = five_rows();
    let res = load_matches(&mut reg, &mut log, &rows, 1);
    assert_eq!(res, Ok(5));
    assert_eq!(reg.len(), 3);
    assert_eq!(log.len(), 5);
    assert_eq!(reg.get_player_id("Alice"), Some(1));
    assert_eq!(reg.get_player_id("Bob"), Some(2));
    assert_eq!(reg.get_player_id("Carol"), Some(3));
    for m in log.entries() {
        assert_eq!(m.rating_period, 1);
    }
    assert_eq!(log.entries()[0].player_1, 1);
    assert_eq!(log.entries()[0].player_2, 2);
    assert_eq!(log.entries()[0].score1, 3);
    assert_eq!(log.entries()[0].score2, 1);
    assert_eq!(log.entries()[0].date, "2024-01-06 00:00:00");
}

#[test]
fn loading_twice_appends_without_deduplication() {
    let mut reg = Registry::new();
    let mut log = MatchLog::new();
    let rows = five_rows();
    assert_eq!(load_matches(&mut reg, &mut log, &rows, 1), Ok(5));
    assert_eq!(load_matches(&mut reg, &mut log, &rows, 2), Ok(5));
    assert_eq!(reg.len(), 3);
    assert_eq!(log.len(), 10);
    assert_eq!(log.read_all_by_period(1).len(), 5);
    assert_eq!(log.read_all_by_period(2).len(), 5);
    assert_eq!(log.read_all_by_period(3).len(), 0);
}

#[test]
fn malformed_date_aborts_the_load_untouched() {
    let mut reg = Registry::new();
    let mut log = MatchLog::new();
    let rows = vec![
        row("2024-01-06", "Alice", "3", "1", "Bob"),
        row("2024-02-30", "Bob", "1", "0", "Carol"),
    ];
    let res = load_matches(&mut reg, &mut log, &rows, 1);
    let err = res.unwrap_err();
    assert_eq!(err.row, 1);
    assert_eq!(err.fault, ImportFault::Date);
    // Nothing was registered or appended: the load is all or nothing.
    assert_eq!(reg.len(), 0);
    assert_eq!(log.len(), 0);
}

#[test]
fn malformed_scores_abort_the_load() {
    let mut reg = Registry::new();
    let mut log = MatchLog::new();
    let bad_first = vec![row("2024-01-06", "Alice", "x", "1", "Bob")];
    let err = load_matches(&mut reg, &mut log, &bad_first, 1).unwrap_err();
    assert_eq!((err.row, err.fault), (0, ImportFault::Score1));
    let bad_second = vec![row("2024-01-06", "Alice", "1", "-2", "Bob")];
    let err = load_matches(&mut reg, &mut log, &bad_second, 1).unwrap_err();
    assert_eq!((err.row, err.fault), (0, ImportFault::Score2));
    assert_eq!(reg.len(), 0);
    assert_eq!(log.len(), 0);
}

#[test]
fn dates_are_stored_in_canonical_form() {
    let mut reg = Registry::new();
    let mut log = MatchLog::new();
    let rows = vec![row("2024-3-9", "Alice", "1", "0", "Bob")];
    assert_eq!(load_matches(&mut reg, &mut log, &rows, 4), Ok(1));
    assert_eq!(log.entries()[0].date, "2024-03-09 00:00:00");
}

#[test]
fn new_player_is_create_if_absent() {
    let mut reg = Registry::new();
    let a = reg.new_player("Alice");
    let b = reg.new_player("Bob");
    let a_again = reg.new_player("Alice");
    assert_eq!(a, 1);
    assert_eq!(b, 2);
    assert_eq!(a_again, 1);
    assert_eq!(reg.len(), 2);
    assert_eq!(reg.get_player_id("Alice"), Some(1));
    assert_eq!(reg.get_player_id("Carol"), None);
    let players = reg.into_players();
    assert_eq!(players[0].rating.rating_bits(), (1500.0f64).to_bits());
    assert_eq!(players[0].rating.deviation_bits(), (350.0f64).to_bits());
    assert_eq!(players[0].rating.volatility_bits(), (0.06f64).to_bits());
}
