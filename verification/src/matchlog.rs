use vstd::prelude::*;

use crate::engine::RatingPeriodMatch;

verus! {

/// The mathematical image of a logged match.
pub ghost struct StoredMatchV {
    pub player_1: usize,
    pub player_2: usize,
    pub score1: usize,
    pub score2: usize,
    pub date: Seq<char>,
    pub rating_period: i32,
}

/// One completed match as the log records it: the two players' ids, how
/// many unit games each side won, the contest's date rendered in canonical
/// form, and the rating period the match is assigned to.
pub struct StoredMatch {
    pub player_1: usize,
    pub player_2: usize,
    pub score1: usize,
    pub score2: usize,
    pub date: String,
    pub rating_period: i32,
}

impl View for StoredMatch {
    type V = StoredMatchV;

    open spec fn view(&self) -> StoredMatchV {
        StoredMatchV {
            player_1: self.player_1,
            player_2: self.player_2,
            score1: self.score1,
            score2: self.score2,
            date: self.date@,
            rating_period: self.rating_period,
        }
    }
}

/// The matches of one rating period, in insertion order, shaped for the
/// engine.
pub open spec fn period_slice(s: Seq<StoredMatchV>, period: i32) -> Seq<RatingPeriodMatch>
    decreases s.len(),
{
    if s.len() == 0 {
        Seq::empty()
    } else {
        period_slice(s.drop_last(), period) + (if s.last().rating_period == period {
            seq![RatingPeriodMatch {
                players: (s.last().player_1, s.last().player_2),
                score1: s.last().score1,
                score2: s.last().score2,
            }]
        } else {
            Seq::empty()
        })
    }
}

/// The append-only log of completed matches. Matches are never edited or
/// deleted, so the full history stays available for recomputation.
pub struct MatchLog {
    entries: Vec<StoredMatch>,
}

impl View for MatchLog {
    type V = Seq<StoredMatchV>;

    closed spec fn view(&self) -> Seq<StoredMatchV> {
        self.entries@.map_values(|m: StoredMatch| m@)
    }
}

impl MatchLog {
    /// An empty log.
    pub fn new() -> (r: MatchLog)
        ensures
            r@ == Seq::<StoredMatchV>::empty(),
    {
        let r = MatchLog { entries: Vec::new() };
        proof {
            assert(r@ =~= Seq::<StoredMatchV>::empty());
        }
        r
    }

    /// The number of logged matches.
    pub fn len(&self) -> (n: usize)
        ensures
            n == self@.len(),
    {
        self.entries.len()
    }

    /// Appends one match and hands back its assigned id, the next number
    /// in insertion order, starting at 1.
    pub fn append(&mut self, m: StoredMatch) -> (id: usize)
        requires
            old(self)@.len() < usize::MAX,
        ensures
            final(self)@ == old(self)@.push(m@),
            id == old(self)@.len() + 1,
    {
        let id = self.entries.len() + 1;
        self.entries.push(m);
        proof {
            assert(self@ =~= old(self)@.push(m@));
        }
        id
    }

    /// All matches tagged with the given rating period, in insertion
    /// order, shaped for the engine.
    pub fn read_all_by_period(&self, period: i32) -> (ms: Vec<RatingPeriodMatch>)
        ensures
            ms@ == period_slice(self@, period),
    {
        let mut ms: Vec<RatingPeriodMatch> = Vec::new();
        let mut i: usize = 0;
        while i < self.entries.len()
            invariant
                i <= self@.len(),
                self@.len() == self.entries@.len(),
                ms@ == period_slice(self@.take(i as int), period),
            decreases self@.len() - i,
        {
            let e = &self.entries[i];
            if e.rating_period == period {
                ms.push(RatingPeriodMatch {
                    players: (e.player_1, e.player_2),
                    score1: e.score1,
                    score2: e.score2,
                });
            }
            proof {
                assert(self@.take(i + 1).drop_last() =~= self@.take(i as int));
                assert(self@.take(i + 1).last() == self@[i as int]);
            }
            i += 1;
        }
        proof {
            assert(self@.take(self@.len() as int) =~= self@);
        }
        ms
    }

    /// The logged matches, for callers that persist them.
    pub fn entries(&self) -> (es: &Vec<StoredMatch>)
        ensures
            es@.len() == self@.len(),
            forall|i: int| 0 <= i < es@.len() ==> (#[trigger] es@[i])@ == self@[i],
    {
        &self.entries
    }
}

} // verus!
