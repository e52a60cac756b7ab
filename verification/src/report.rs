use vstd::prelude::*;

use crate::registry::{Player, PlayerV};

verus! {

broadcast use vstd::seq_lib::group_to_multiset_ensures;

/// An order-preserving injection from a rating's IEEE-754 bit pattern into
/// the unsigned integers: flipping the sign bit of a non-negative value,
/// complementing a negative one. For any two rating values that are not
/// NaN, the numeric order of the ratings is the order of their keys, so
/// ranking can compare plain integers.
pub open spec fn spec_rank_key(bits: u64) -> u64 {
    if bits >= 0x8000000000000000 {
        (0xFFFFFFFFFFFFFFFF - bits) as u64
    } else {
        (bits + 0x8000000000000000) as u64
    }
}

/// The sort key of a rating's bit pattern.
pub fn rank_key(bits: u64) -> (k: u64)
    ensures
        k == spec_rank_key(bits),
{
    if bits >= 0x8000000000000000 {
        0xFFFFFFFFFFFFFFFF - bits
    } else {
        bits + 0x8000000000000000
    }
}

/// The views of a player list.
pub open spec fn views_of(ps: Seq<Player>) -> Seq<PlayerV> {
    ps.map_values(|p: Player| p@)
}

/// Descending rating order: earlier players never rank below later ones.
pub open spec fn ranked(ps: Seq<PlayerV>) -> bool {
    forall|i: int, j: int| 0 <= i < j < ps.len() ==> spec_rank_key((#[trigger] ps[i]).rating.0)
        >= spec_rank_key((#[trigger] ps[j]).rating.0)
}

/// Sorts players by rating, highest first: the result is a rearrangement
/// of the input in descending rating order.
pub fn rank_players(players: Vec<Player>) -> (out: Vec<Player>)
    ensures
        out@.len() == players@.len(),
        ranked(views_of(out@)),
        views_of(out@).to_multiset() == views_of(players@).to_multiset(),
{
    let mut rest = players;
    let mut out: Vec<Player> = Vec::new();
    while rest.len() > 0
        invariant
            out@.len() + rest@.len() == views_of(players@).len(),
            views_of(out@).to_multiset().add(views_of(rest@).to_multiset()) == views_of(
                players@).to_multiset(),
            ranked(views_of(out@)),
            forall|a: int, b: int| 0 <= a < out@.len() && 0 <= b < rest@.len() ==> spec_rank_key(
                (#[trigger] out@[a])@.rating.0) >= spec_rank_key((#[trigger] rest@[b])@.rating.0),
        decreases rest@.len(),
    {
        let mut best: usize = 0;
        let mut bi: usize = 1;
        while bi < rest.len()
            invariant
                rest@.len() > 0,
                best < bi <= rest@.len(),
                forall|k: int| 0 <= k < bi ==> spec_rank_key((#[trigger] rest@[
                    best as int])@.rating.0) >= spec_rank_key(rest@[k]@.rating.0),
            decreases rest@.len() - bi,
        {
            if rank_key(rest[bi].rating.rating_bits()) > rank_key(rest[best].rating.rating_bits())
            {
                best = bi;
            }
            bi += 1;
        }
        let ghost rest_pre = rest@;
        let ghost out_pre = out@;
        let p = rest.remove(best);
        out.push(p);
        proof {
            assert(views_of(rest_pre).contains(p@)) by {
                assert(views_of(rest_pre)[best as int] == p@);
            }
            assert(views_of(rest@) =~= views_of(rest_pre).remove(best as int));
            assert(views_of(out@) =~= views_of(out_pre).push(p@));
            assert(views_of(rest@).to_multiset() =~= views_of(rest_pre).to_multiset().remove(
                p@));
            assert(views_of(out@).to_multiset() =~= views_of(out_pre).to_multiset().insert(p@));
            assert(views_of(out@).to_multiset().add(views_of(rest@).to_multiset()) =~= views_of(
                players@).to_multiset());
            assert(ranked(views_of(out@))) by {
                assert forall|i: int, j: int| 0 <= i < j < out@.len() implies spec_rank_key(
                    (#[trigger] views_of(out@)[i]).rating.0) >= spec_rank_key(
                    (#[trigger] views_of(out@)[j]).rating.0) by {
                    if j < out@.len() - 1 {
                        assert(out@[i]@ == out_pre[i]@ && out@[j]@ == out_pre[j]@);
                    } else {
                        assert(views_of(out@)[j] == p@);
                        if i < out@.len() - 1 {
                            assert(out@[i]@ == out_pre[i]@);
                            assert(spec_rank_key(out_pre[i]@.rating.0) >= spec_rank_key(
                                rest_pre[best as int]@.rating.0));
                        }
                    }
                }
            }
            assert forall|a: int, b: int| 0 <= a < out@.len() && 0 <= b < rest@.len() implies
                spec_rank_key((#[trigger] out@[a])@.rating.0) >= spec_rank_key(
                (#[trigger] rest@[b])@.rating.0) by {
                assert(rest@[b] == rest_pre[if b < best { b } else { b + 1 }]);
                assert(spec_rank_key(rest_pre[best as int]@.rating.0) >= spec_rank_key(
                    rest_pre[if b < best { b } else { b + 1 }]@.rating.0));
                if a < out@.len() - 1 {
                    assert(out@[a]@ == out_pre[a]@);
                } else {
                    assert(out@[a] == p);
                }
            }
        }
    }
    out
}

} // verus!
