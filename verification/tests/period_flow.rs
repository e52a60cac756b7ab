use league_ratings::import::{load_matches, ImportRow};
use league_ratings::matchlog::MatchLog;
use league_ratings::rating::Rating;
use league_ratings::registry::Registry;
use league_ratings::report::rank_players;

fn row(date: &str, p1: &str, s1: &str, s2: &str, p2: &str) -> ImportRow {
    ImportRow {
        date: date.to_owned(),
        player1: p1.to_owned(),
        score1: s1.to_owned(),
        score2: s2.to_owned(),
        player2: p2.to_owned(),
    }
}

#[test]
fn full_period_flow_moves_alice_up_and_bob_down() {
    let mut reg = Registry::new();
    let mut log = MatchLog::new();
    let rows = vec![row("2024-01-06", "Alice", "3", "1", "Bob")];
    assert_eq!(load_matches(&mut reg, &mut log, &rows, 1), Ok(1));

    let priors = reg.ratings();
    let matches = log.read_all_by_period(1);
    let posteriors = league_ratings::engine::run_period(&priors, &matches).unwrap();
    reg.apply_update(&posteriors);

    let players = reg.into_players();
    let alice = &players[0];
    let bob = &players[1];
    assert_eq!(alice.name, "Alice");
    assert_eq!(bob.name, "Bob");
    assert!(alice.rating.value().rating > 1500.0);
    assert!(bob.rating.value().rating < 1500.0);
    assert!(alice.rating.value().deviation < 350.0);
    assert!(bob.rating.value().deviation < 350.0);
}

#[test]
fn updating_an_empty_period_relaxes_everyone_in_place() {
    let mut reg = Registry::new();
    let mut log = MatchLog::new();
    let rows = vec![row("2024-01-06", "Alice", "2", "1", "Bob")];
    assert_eq!(load_matches(&mut reg, &mut log, &rows, 1), Ok(1));

    // Period 2 has no matches: every player passed in relaxes, nobody
    // else changes, and ids and names stay put.
    let priors = reg.ratings();
    let matches = log.read_all_by_period(2);
    assert_eq!(matches.len(), 0);
    let posteriors = league_ratings::engine::run_period(&priors, &matches).unwrap();
    assert_eq!(posteriors.len(), 2);
    for (i, p) in posteriors.iter().enumerate() {
        assert_eq!(p.0, i + 1);
        assert_eq!(p.1.rating_bits(), priors[i].1.rating_bits());
        assert_eq!(p.1.volatility_bits(), priors[i].1.volatility_bits());
        assert!(p.1.value().deviation <= 350.0);
    }
    reg.apply_update(&posteriors);
    assert_eq!(reg.len(), 2);
    assert_eq!(reg.get_player_id("Alice"), Some(1));
    assert_eq!(reg.get_player_id("Bob"), Some(2));
}

#[test]
fn apply_update_leaves_players_without_an_entry_alone() {
    let mut reg = Registry::new();
    reg.new_player("Alice");
    reg.new_player("Bob");
    let bumped = Rating::from_value(skillratings::glicko2::Glicko2Rating {
        rating: 1650.0,
        deviation: 120.0,
        volatility: 0.06,
    });
    reg.apply_update(&vec![(2usize, bumped)]);
    let players = reg.into_players();
    assert_eq!(players[0].rating.rating_bits(), (1500.0f64).to_bits());
    assert_eq!(players[1].rating.rating_bits(), (1650.0f64).to_bits());
    assert_eq!(players[1].rating.deviation_bits(), (120.0f64).to_bits());
}

#[test]
fn ranking_after_updates_reflects_new_ratings() {
    let mut reg = Registry::new();
    let mut log = MatchLog::new();
    let rows = vec![
        row("2024-01-06", "Alice", "2", "0", "Bob"),
        row("2024-01-06", "Bob", "0", "2", "Carol"),
    ];
    assert_eq!(load_matches(&mut reg, &mut log, &rows, 1), Ok(2));
    let priors = reg.ratings();
    let matches = log.read_all_by_period(1);
    let posteriors = league_ratings::engine::run_period(&priors, &matches).unwrap();
    reg.apply_update(&posteriors);
    let ranked = rank_players(reg.into_players());
    // Bob lost every game; he ranks last.
    assert_eq!(ranked[2].name, "Bob");
    assert!(ranked[0].rating.value().rating >= ranked[1].rating.value().rating);
    assert!(ranked[1].rating.value().rating >= ranked[2].rating.value().rating);
}
