use league_ratings::engine::{calculate_rating_period, run_period, RatingPeriodMatch};
use league_ratings::rating::Rating;
use league_ratings::registry::Player;
use league_ratings::report::rank_players;
use skillratings::glicko2::Glicko2Rating;

fn triple(rating: f64, deviation: f64, volatility: f64) -> Rating {
    Rating::from_value(Glicko2Rating { rating, deviation, volatility })
}

fn default_triple() -> Rating {
    triple(1500.0, 350.0, 0.06)
}

#[test]
fn default_rating_bits_encode_default_triple() {
    let r = Rating::default_rating();
    assert_eq!(r.rating_bits(), (1500.0f64).to_bits());
    assert_eq!(r.deviation_bits(), (350.0f64).to_bits());
    assert_eq!(r.volatility_bits(), (0.06f64).to_bits());
    let v = r.value();
    assert_eq!(v.rating, 1500.0);
    assert_eq!(v.deviation, 350.0);
    assert_eq!(v.volatility, 0.06);
}

#[test]
fn no_games_keeps_rating_and_volatility_exactly() {
    let players = vec![(1usize, triple(1482.5, 100.0, 0.0587))];
    let matches: Vec<RatingPeriodMatch> = Vec::new();
    let res = calculate_rating_period(&players, &matches);
    assert_eq!(res.len(), 1);
    assert_eq!(res[0].0, 1);
    let out = res[0].1.value();
    // Rating and volatility survive the round trip through the engine
    // bit-for-bit; only the deviation moves.
    assert_eq!(out.rating.to_bits(), (1482.5f64).to_bits());
    assert_eq!(out.volatility.to_bits(), (0.0587f64).to_bits());
    assert!(out.deviation >= 100.0);
    assert!(out.deviation <= 350.0);
}

#[test]
fn no_games_deviation_grows_toward_ceiling() {
    let players = vec![(1usize, default_triple()), (2usize, triple(1700.0, 50.0, 0.06))];
    let matches: Vec<RatingPeriodMatch> = Vec::new();
    let res = calculate_rating_period(&players, &matches);
    // At the 350 ceiling the deviation stays put; below it, it grows.
    let at_ceiling = res[0].1.value();
    assert_eq!(at_ceiling.deviation, 350.0);
    let below = res[1].1.value();
    assert!(below.deviation > 50.0);
    assert!(below.deviation <= 350.0);
}

#[test]
fn no_games_twice_applies_the_same_relaxation() {
    let players = vec![(7usize, triple(1500.0, 100.0, 0.06))];
    let matches: Vec<RatingPeriodMatch> = Vec::new();
    let res1 = calculate_rating_period(&players, &matches);
    let res2 = calculate_rating_period(&res1, &matches);
    let relax = |d: f64, vol: f64| ((d / 173.7178).hypot(vol) * 173.7178).min(350.0);
    let d1 = res1[0].1.value().deviation;
    let d2 = res2[0].1.value().deviation;
    assert!((d1 - relax(100.0, 0.06)).abs() < 1e-9);
    assert!((d2 - relax(d1, 0.06)).abs() < 1e-9);
    assert!(d2 > d1);
    assert_eq!(res2[0].1.value().rating, 1500.0);
    assert_eq!(res2[0].1.value().volatility, 0.06);
}

#[test]
fn single_win_raises_and_single_loss_lowers() {
    let players = vec![(1usize, default_triple()), (2usize, default_triple())];
    let matches = vec![RatingPeriodMatch { players: (1, 2), score1: 1, score2: 0 }];
    let res = calculate_rating_period(&players, &matches);
    let winner = res[0].1.value();
    let loser = res[1].1.value();
    assert!(winner.rating > 1500.0);
    assert!(loser.rating < 1500.0);
}

#[test]
fn established_players_move_less() {
    let wide = vec![(1usize, default_triple()), (2usize, default_triple())];
    let narrow = vec![
        (1usize, triple(1500.0, 50.0, 0.06)),
        (2usize, triple(1500.0, 50.0, 0.06)),
    ];
    let matches = vec![RatingPeriodMatch { players: (1, 2), score1: 1, score2: 0 }];
    let wide_res = calculate_rating_period(&wide, &matches);
    let narrow_res = calculate_rating_period(&narrow, &matches);
    let wide_gain = wide_res[0].1.value().rating - 1500.0;
    let narrow_gain = narrow_res[0].1.value().rating - 1500.0;
    assert!(wide_gain > 0.0);
    assert!(narrow_gain > 0.0);
    assert!(narrow_gain < wide_gain);
}

#[test]
fn three_one_match_moves_both_players() {
    // Alice and Bob start from the defaults and play one match that Alice
    // wins 3-1: four unit games, three wins and one loss for Alice.
    let players = vec![(1usize, default_triple()), (2usize, default_triple())];
    let matches = vec![RatingPeriodMatch { players: (1, 2), score1: 3, score2: 1 }];
    let res = calculate_rating_period(&players, &matches);
    let alice = res[0].1.value();
    let bob = res[1].1.value();
    assert!(alice.rating > 1500.0);
    assert!(bob.rating < 1500.0);
    assert!(alice.deviation < 350.0);
    assert!(bob.deviation < 350.0);
}

#[test]
fn run_period_refuses_unregistered_players() {
    let players = vec![(1usize, default_triple())];
    let matches = vec![RatingPeriodMatch { players: (1, 2), score1: 1, score2: 0 }];
    assert!(run_period(&players, &matches).is_none());
    let ok = run_period(&players, &Vec::new());
    assert!(ok.is_some());
    assert_eq!(ok.unwrap().len(), 1);
}

#[test]
fn score_expansion_matches_unit_game_list() {
    // A 2-0 sweep and two 1-0 wins against the same opponent carry the
    // same observation list, so they move the winner identically.
    let players = vec![(1usize, default_triple()), (2usize, default_triple())];
    let swept = vec![RatingPeriodMatch { players: (1, 2), score1: 2, score2: 0 }];
    let split = vec![
        RatingPeriodMatch { players: (1, 2), score1: 1, score2: 0 },
        RatingPeriodMatch { players: (1, 2), score1: 1, score2: 0 },
    ];
    let res_swept = calculate_rating_period(&players, &swept);
    let res_split = calculate_rating_period(&players, &split);
    assert_eq!(
        res_swept[0].1.value().rating.to_bits(),
        res_split[0].1.value().rating.to_bits()
    );
}

#[test]
fn side_two_perspective_is_mirrored() {
    // The same result recorded from the other side moves the players the
    // same way: player 2 winning 0-1 as side one equals 1-0 as side two.
    let players = vec![(1usize, default_triple()), (2usize, default_triple())];
    let as_side_one = vec![RatingPeriodMatch { players: (2, 1), score1: 1, score2: 0 }];
    let as_side_two = vec![RatingPeriodMatch { players: (1, 2), score1: 0, score2: 1 }];
    let a = calculate_rating_period(&players, &as_side_one);
    let b = calculate_rating_period(&players, &as_side_two);
    assert_eq!(a[1].1.value().rating.to_bits(), b[1].1.value().rating.to_bits());
    assert_eq!(a[0].1.value().rating.to_bits(), b[0].1.value().rating.to_bits());
}

#[test]
fn ranking_orders_by_rating_descending() {
    let players = vec![
        Player { id: 1, name: String::from("high"), rating: triple(1600.0, 60.0, 0.06) },
        Player { id: 2, name: String::from("low"), rating: triple(1500.0, 60.0, 0.06) },
        Player { id: 3, name: String::from("mid"), rating: triple(1550.0, 60.0, 0.06) },
    ];
    let ranked = rank_players(players);
    let names: Vec<&str> = ranked.iter().map(|p| p.name.as_str()).collect();
    assert_eq!(names, vec!["high", "mid", "low"]);
    assert_eq!(ranked[0].rating.value().rating, 1600.0);
    assert_eq!(ranked[1].rating.value().rating, 1550.0);
    assert_eq!(ranked[2].rating.value().rating, 1500.0);
}

#[test]
fn ranking_handles_negative_ratings() {
    let players = vec![
        Player { id: 1, name: String::from("sunk"), rating: triple(-25.0, 60.0, 0.06) },
        Player { id: 2, name: String::from("afloat"), rating: triple(10.0, 60.0, 0.06) },
    ];
    let ranked = rank_players(players);
    assert_eq!(ranked[0].name, "afloat");
    assert_eq!(ranked[1].name, "sunk");
}
