use vstd::prelude::*;

use crate::rating::{glicko2_update, games_bits, rate_period_call, Rating, DEFAULT_DEVIATION_BITS};

verus! {

/// One match of a rating period, as the engine consumes it: the two
/// players' ids and the count of unit games each side won.
#[derive(Clone, Copy, Debug)]
pub struct RatingPeriodMatch {
    pub players: (usize, usize),
    pub score1: usize,
    pub score2: usize,
}

/// Whether some entry of the prior-rating list carries the given player id.
pub open spec fn contains_id(ps: Seq<(usize, Rating)>, id: usize) -> bool {
    exists|i: int| 0 <= i < ps.len() && ps[i].0 == id
}

/// Whether the prior-rating list names each player id at most once.
pub open spec fn distinct_ids(ps: Seq<(usize, Rating)>) -> bool {
    forall|i: int, j: int| 0 <= i < j < ps.len() ==> ps[i].0 != ps[j].0
}

/// Whether both participants of every match have an entry in the
/// prior-rating list.
pub open spec fn all_registered(ps: Seq<(usize, Rating)>, ms: Seq<RatingPeriodMatch>) -> bool {
    forall|i: int| 0 <= i < ms.len() ==> contains_id(ps, #[trigger] ms[i].players.0)
        && contains_id(ps, ms[i].players.1)
}

/// The prior-rating list as a map from player id to triple; with distinct
/// ids, each id maps to its entry's triple.
pub open spec fn prior_map(ps: Seq<(usize, Rating)>) -> Map<usize, Rating>
    decreases ps.len(),
{
    if ps.len() == 0 {
        Map::empty()
    } else {
        prior_map(ps.drop_last()).insert(ps.last().0, ps.last().1)
    }
}

pub proof fn lemma_prior_map_entry(ps: Seq<(usize, Rating)>, i: int)
    requires
        distinct_ids(ps),
        0 <= i < ps.len(),
    ensures
        prior_map(ps).contains_key(ps[i].0),
        prior_map(ps)[ps[i].0] == ps[i].1,
    decreases ps.len(),
{
    if i == ps.len() - 1 {
    } else {
        let pre = ps.drop_last();
        assert forall|a: int, b: int| 0 <= a < b < pre.len() implies pre[a].0 != pre[b].0 by {
            assert(pre[a] == ps[a]);
            assert(pre[b] == ps[b]);
        }
        lemma_prior_map_entry(pre, i);
        assert(pre[i] == ps[i]);
        assert(ps[i].0 != ps.last().0);
    }
}

/// The ordered unit games one match contributes to the given player's game
/// list: each point a side scored becomes one full win or loss against the
/// other side, wins first, from the player's perspective. A match the
/// player did not take part in contributes nothing.
pub open spec fn unit_games(pid: usize, m: RatingPeriodMatch) -> Seq<(usize, bool)> {
    if m.players.0 == pid {
        Seq::new(m.score1 as nat, |i: int| (m.players.1, true))
            + Seq::new(m.score2 as nat, |i: int| (m.players.1, false))
    } else if m.players.1 == pid {
        Seq::new(m.score2 as nat, |i: int| (m.players.0, true))
            + Seq::new(m.score1 as nat, |i: int| (m.players.0, false))
    } else {
        Seq::empty()
    }
}

/// The player's full game list for a period: the unit games of every match,
/// in match order.
pub open spec fn period_games(pid: usize, ms: Seq<RatingPeriodMatch>) -> Seq<(usize, bool)>
    decreases ms.len(),
{
    if ms.len() == 0 {
        Seq::empty()
    } else {
        period_games(pid, ms.drop_last()) + unit_games(pid, ms.last())
    }
}

/// The player's game list with each opponent id replaced by the bit
/// patterns of the opponent's pre-period triple: exactly the observation
/// list the Glicko-2 update consumes.
pub open spec fn period_game_list(
    pid: usize,
    ms: Seq<RatingPeriodMatch>,
    ps: Seq<(usize, Rating)>,
) -> Seq<((u64, u64, u64), bool)> {
    period_games(pid, ms).map_values(|g: (usize, bool)| (prior_map(ps)[g.0].bits(), g.1))
}

/// The prior triple of the player with the given id.
fn find_rating(players: &Vec<(usize, Rating)>, id: usize) -> (r: Rating)
    requires
        distinct_ids(players@),
        contains_id(players@, id),
    ensures
        r == prior_map(players@)[id],
{
    let ghost witness: int = choose|i: int| 0 <= i < players@.len() && players@[i].0 == id;
    let n = players.len();
    let mut j: usize = 0;
    while players[j].0 != id
        invariant
            n == players@.len(),
            0 <= j <= witness < n,
            players@[witness].0 == id,
            forall|k: int| 0 <= k < j ==> players@[k].0 != id,
            distinct_ids(players@),
            contains_id(players@, id),
        decreases players@.len() - j,
    {
        j += 1;
    }
    proof {
        lemma_prior_map_entry(players@, j as int);
    }
    players[j].1
}

/// Appends `n` copies of the same observation to the game list.
fn push_copies(games: &mut Vec<(Rating, bool)>, opp: Rating, win: bool, n: usize)
    ensures
        final(games)@ == old(games)@ + Seq::new(n as nat, |i: int| (opp, win)),
{
    let mut k: usize = 0;
    while k < n
        invariant
            k <= n,
            games@ == old(games)@ + Seq::new(k as nat, |i: int| (opp, win)),
        decreases n - k,
    {
        games.push((opp, win));
        proof {
            assert(old(games)@ + Seq::new((k + 1) as nat, |i: int| (opp, win))
                =~= (old(games)@ + Seq::new(k as nat, |i: int| (opp, win))).push((opp, win)));
        }
        k += 1;
    }
    proof {
        assert(games@ =~= old(games)@ + Seq::new(n as nat, |i: int| (opp, win)));
    }
}

/// Builds the player's observation list for the period: every match is
/// expanded into its unit games, each paired with the opponent's pre-period
/// triple.
fn collect_games(
    pid: usize,
    period_matches: &Vec<RatingPeriodMatch>,
    players: &Vec<(usize, Rating)>,
) -> (g: Vec<(Rating, bool)>)
    requires
        distinct_ids(players@),
        all_registered(players@, period_matches@),
    ensures
        games_bits(g@) == period_game_list(pid, period_matches@, players@),
        g@.len() == period_games(pid, period_matches@).len(),
{
    let ghost ms = period_matches@;
    let mut g: Vec<(Rating, bool)> = Vec::new();
    let mut i: usize = 0;
    while i < period_matches.len()
        invariant
            i <= ms.len(),
            ms == period_matches@,
            distinct_ids(players@),
            all_registered(players@, ms),
            g@.len() == period_games(pid, ms.take(i as int)).len(),
            games_bits(g@) == period_game_list(pid, ms.take(i as int), players@),
        decreases ms.len() - i,
    {
        let m = period_matches[i];
        let ghost g_before = g@;
        if m.players.0 == pid {
            let opp = find_rating(players, m.players.1);
            push_copies(&mut g, opp, true, m.score1);
            push_copies(&mut g, opp, false, m.score2);
            proof {
                assert(g@ =~= g_before + unit_games(pid, ms[i as int]).map_values(
                    |u: (usize, bool)| (prior_map(players@)[u.0], u.1),
                ));
                lemma_step(pid, ms, players@, i as int, g_before, g@);
            }
        } else if m.players.1 == pid {
            let opp = find_rating(players, m.players.0);
            push_copies(&mut g, opp, true, m.score2);
            push_copies(&mut g, opp, false, m.score1);
            proof {
                assert(g@ =~= g_before + unit_games(pid, ms[i as int]).map_values(
                    |u: (usize, bool)| (prior_map(players@)[u.0], u.1),
                ));
                lemma_step(pid, ms, players@, i as int, g_before, g@);
            }
        } else {
            proof {
                assert(g@ =~= g_before + unit_games(pid, ms[i as int]).map_values(
                    |u: (usize, bool)| (prior_map(players@)[u.0], u.1),
                ));
                lemma_step(pid, ms, players@, i as int, g_before, g@);
            }
        }
        i += 1;
    }
    proof {
        assert(ms.take(ms.len() as int) =~= ms);
    }
    g
}

/// One loop step of `collect_games`: if the vector grew by exactly the
/// current match's unit games (with the right opponent triples), the
/// invariant carries to the next prefix.
proof fn lemma_step(
    pid: usize,
    ms: Seq<RatingPeriodMatch>,
    ps: Seq<(usize, Rating)>,
    i: int,
    g_before: Seq<(Rating, bool)>,
    g_after: Seq<(Rating, bool)>,
)
    requires
        distinct_ids(ps),
        0 <= i < ms.len(),
        all_registered(ps, ms),
        games_bits(g_before) == period_game_list(pid, ms.take(i), ps),
        g_before.len() == period_games(pid, ms.take(i)).len(),
        g_after == g_before + unit_games(pid, ms[i]).map_values(
            |u: (usize, bool)| (prior_map(ps)[u.0], u.1),
        ),
    ensures
        games_bits(g_after) == period_game_list(pid, ms.take(i + 1), ps),
        g_after.len() == period_games(pid, ms.take(i + 1)).len(),
{
    let t1 = ms.take(i + 1);
    assert(t1.drop_last() =~= ms.take(i));
    assert(t1.last() == ms[i]);
    assert(period_games(pid, t1) == period_games(pid, ms.take(i)) + unit_games(pid, ms[i]));
    let pm = |u: (usize, bool)| (prior_map(ps)[u.0], u.1);
    let n0 = g_before.len() as int;
    assert forall|j: int| 0 <= j < games_bits(g_after).len() implies games_bits(g_after)[j]
        == period_game_list(pid, t1, ps)[j] by {
        if j < n0 {
            assert(g_after[j] == g_before[j]);
            assert(games_bits(g_before)[j] == period_game_list(pid, ms.take(i), ps)[j]);
            assert(period_games(pid, t1)[j] == period_games(pid, ms.take(i))[j]);
        } else {
            let u = unit_games(pid, ms[i]);
            assert(g_after[j] == pm(u[j - n0]));
            assert(period_games(pid, t1)[j] == u[j - n0]);
        }
    }
    assert(games_bits(g_after) =~= period_game_list(pid, t1, ps));
}

/// The result of one rating-period run, pointwise: every prior entry goes
/// to the posterior the Glicko-2 update gives it from its game list.
pub open spec fn period_result_ok(
    ps: Seq<(usize, Rating)>,
    ms: Seq<RatingPeriodMatch>,
    res: Seq<(usize, Rating)>,
) -> bool {
    &&& res.len() == ps.len()
    &&& forall|i: int| 0 <= i < res.len() ==> (#[trigger] res[i]).0 == ps[i].0
    &&& forall|i: int| 0 <= i < res.len() ==> (#[trigger] res[i]).1.bits()
        == glicko2_update(ps[i].1.bits(), period_game_list(ps[i].0, ms, ps))
}

/// One full rating-period computation.
///
/// `players` holds the pre-period triple of every player in scope for the
/// period — exactly those entries are updated, and every participant of
/// every match must be among them. The result carries, in the same order,
/// one posterior triple per entry: the Glicko-2 update of the prior over
/// the player's expanded game list, which for a player with no games in
/// the period keeps rating and volatility unchanged and relaxes the
/// deviation toward (never past) the 350.0 ceiling.
pub fn calculate_rating_period(
    players: &Vec<(usize, Rating)>,
    period_matches: &Vec<RatingPeriodMatch>,
) -> (res: Vec<(usize, Rating)>)
    requires
        distinct_ids(players@),
        all_registered(players@, period_matches@),
    ensures
        period_result_ok(players@, period_matches@, res@),
        forall|i: int| 0 <= i < res@.len()
            && period_games(players@[i].0, period_matches@).len() == 0
            ==> (#[trigger] res@[i]).1.bits().0 == players@[i].1.bits().0
                && res@[i].1.bits().2 == players@[i].1.bits().2
                && res@[i].1.bits().1 <= DEFAULT_DEVIATION_BITS,
{
    let mut res: Vec<(usize, Rating)> = Vec::new();
    let mut i: usize = 0;
    while i < players.len()
        invariant
            i <= players@.len(),
            distinct_ids(players@),
            all_registered(players@, period_matches@),
            res@.len() == i,
            forall|k: int| 0 <= k < i ==> (#[trigger] res@[k]).0 == players@[k].0,
            forall|k: int| 0 <= k < i ==> (#[trigger] res@[k]).1.bits()
                == glicko2_update(players@[k].1.bits(),
                    period_game_list(players@[k].0, period_matches@, players@)),
            forall|k: int| 0 <= k < i
                && period_games(players@[k].0, period_matches@).len() == 0
                ==> (#[trigger] res@[k]).1.bits().0 == players@[k].1.bits().0
                    && res@[k].1.bits().2 == players@[k].1.bits().2
                    && res@[k].1.bits().1 <= DEFAULT_DEVIATION_BITS,
        decreases players@.len() - i,
    {
        let pid = players[i].0;
        let games = collect_games(pid, period_matches, players);
        let posterior = rate_period_call(&players[i].1, &games);
        res.push((pid, posterior));
        i += 1;
    }
    res
}

/// Whether the prior-rating list carries the given id.
fn contains_id_exec(players: &Vec<(usize, Rating)>, id: usize) -> (b: bool)
    ensures
        b == contains_id(players@, id),
{
    let mut j: usize = 0;
    while j < players.len()
        invariant
            j <= players@.len(),
            forall|k: int| 0 <= k < j ==> players@[k].0 != id,
        decreases players@.len() - j,
    {
        if players[j].0 == id {
            return true;
        }
        j += 1;
    }
    false
}

/// Whether both participants of every match have a prior-rating entry.
pub fn check_registered(
    players: &Vec<(usize, Rating)>,
    period_matches: &Vec<RatingPeriodMatch>,
) -> (b: bool)
    ensures
        b == all_registered(players@, period_matches@),
{
    let mut i: usize = 0;
    while i < period_matches.len()
        invariant
            i <= period_matches@.len(),
            forall|k: int| 0 <= k < i ==> contains_id(players@,
                (#[trigger] period_matches@[k]).players.0) && contains_id(players@,
                period_matches@[k].players.1),
        decreases period_matches@.len() - i,
    {
        let m = period_matches[i];
        if !contains_id_exec(players, m.players.0) || !contains_id_exec(players, m.players.1) {
            return false;
        }
        i += 1;
    }
    true
}

/// One rating-period run behind the integrity check that the contract of
/// `calculate_rating_period` demands: `None` exactly when some match
/// references a player without a prior-rating entry — the match log points
/// at an unregistered player — and the computed posteriors otherwise.
pub fn run_period(
    players: &Vec<(usize, Rating)>,
    period_matches: &Vec<RatingPeriodMatch>,
) -> (res: Option<Vec<(usize, Rating)>>)
    requires
        distinct_ids(players@),
    ensures
        match res {
            Some(out) => all_registered(players@, period_matches@) && period_result_ok(
                players@, period_matches@, out@) && distinct_ids(out@) && forall|i: int|
                0 <= i < out@.len() && period_games(players@[i].0, period_matches@).len() == 0
                ==> (#[trigger] out@[i]).1.bits().0 == players@[i].1.bits().0
                    && out@[i].1.bits().2 == players@[i].1.bits().2
                    && out@[i].1.bits().1 <= DEFAULT_DEVIATION_BITS,
            None => !all_registered(players@, period_matches@),
        },
{
    if !check_registered(players, period_matches) {
        return None;
    }
    let out = calculate_rating_period(players, period_matches);
    proof {
        assert forall|a: int, b: int| 0 <= a < b < out@.len() implies out@[a].0 != out@[b].0 by {
            assert(out@[a].0 == players@[a].0);
            assert(out@[b].0 == players@[b].0);
        }
    }
    Some(out)
}

/// Two successive rating periods in which a player has no matches relax
/// that player by the same rule each time: the second posterior is the
/// empty-game-list update of the first, which itself is the empty-game-list
/// update of the prior — nothing besides the stored triple carries over
/// from one run to the next.
pub proof fn lemma_no_games_twice(
    ps: Seq<(usize, Rating)>,
    res1: Seq<(usize, Rating)>,
    res2: Seq<(usize, Rating)>,
)
    requires
        period_result_ok(ps, Seq::empty(), res1),
        period_result_ok(res1, Seq::empty(), res2),
    ensures
        res2.len() == ps.len(),
        forall|i: int| 0 <= i < res2.len() ==> (#[trigger] res2[i]).0 == ps[i].0,
        forall|i: int| 0 <= i < res2.len() ==> (#[trigger] res2[i]).1.bits() == glicko2_update(
            glicko2_update(ps[i].1.bits(), Seq::empty()), Seq::empty()),
{
    assert forall|i: int| 0 <= i < res2.len() implies (#[trigger] res2[i]).1.bits()
        == glicko2_update(glicko2_update(ps[i].1.bits(), Seq::empty()), Seq::empty()) by {
        assert(period_games(ps[i].0, Seq::empty()) =~= Seq::<(usize, bool)>::empty());
        assert(period_game_list(ps[i].0, Seq::empty(), ps) =~= Seq::<((u64, u64, u64),
            bool)>::empty());
        assert(period_games(res1[i].0, Seq::empty()) =~= Seq::<(usize, bool)>::empty());
        assert(period_game_list(res1[i].0, Seq::empty(), res1) =~= Seq::<((u64, u64, u64),
            bool)>::empty());
        assert(res1[i].1.bits() == glicko2_update(ps[i].1.bits(), Seq::empty()));
        assert(res2[i].1.bits() == glicko2_update(res1[i].1.bits(), Seq::empty()));
    }
}

} // verus!
