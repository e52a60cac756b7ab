use vstd::prelude::*;

use crate::engine::distinct_ids;
use crate::rating::{
    Rating, DEFAULT_DEVIATION_BITS, DEFAULT_RATING_BITS, DEFAULT_VOLATILITY_BITS,
};

verus! {

/// The mathematical image of a registered player: the id, the name's
/// characters, and the rating triple's bit patterns.
pub ghost struct PlayerV {
    pub id: usize,
    pub name: Seq<char>,
    pub rating: (u64, u64, u64),
}

/// A registered player: a stable id assigned at first sighting, a unique
/// display name, and the current rating triple.
pub struct Player {
    pub id: usize,
    pub name: String,
    pub rating: Rating,
}

impl View for Player {
    type V = PlayerV;

    open spec fn view(&self) -> PlayerV {
        PlayerV { id: self.id, name: self.name@, rating: self.rating.bits() }
    }
}

/// Whether some player of the list carries the given name.
pub open spec fn has_name(s: Seq<PlayerV>, name: Seq<char>) -> bool {
    exists|i: int| 0 <= i < s.len() && s[i].name == name
}

/// The position of the player with the given name (meaningful when names
/// are unique and the name is present).
pub open spec fn name_index(s: Seq<PlayerV>, name: Seq<char>) -> int {
    choose|i: int| 0 <= i < s.len() && s[i].name == name
}

/// The id of the player with the given name.
pub open spec fn id_of(s: Seq<PlayerV>, name: Seq<char>) -> usize {
    s[name_index(s, name)].id
}

/// No two players share a name.
pub open spec fn unique_names(s: Seq<PlayerV>) -> bool {
    forall|i: int, j: int| 0 <= i < j < s.len() ==> s[i].name != s[j].name
}

/// Ids are assigned in order of first sighting, starting at 1.
pub open spec fn sequential_ids(s: Seq<PlayerV>) -> bool {
    forall|i: int| 0 <= i < s.len() ==> (#[trigger] s[i]).id == i + 1
}

/// The bit patterns of the default triple 1500.0 / 350.0 / 0.06 that every
/// new player starts with.
pub open spec fn default_triple() -> (u64, u64, u64) {
    (DEFAULT_RATING_BITS, DEFAULT_DEVIATION_BITS, DEFAULT_VOLATILITY_BITS)
}

/// Registering a name with a chosen rating: a no-op when the name is
/// already present, an appended player with the next id otherwise.
pub open spec fn add_one(s: Seq<PlayerV>, name: Seq<char>, bits: (u64, u64, u64)) -> Seq<PlayerV> {
    if has_name(s, name) {
        s
    } else {
        s.push(PlayerV { id: (s.len() + 1) as usize, name, rating: bits })
    }
}

/// Registering a name with the default triple.
pub open spec fn reg_one(s: Seq<PlayerV>, name: Seq<char>) -> Seq<PlayerV> {
    add_one(s, name, default_triple())
}

/// Whether some update entry targets the given id.
pub open spec fn has_uid(us: Seq<(usize, Rating)>, id: usize) -> bool {
    exists|j: int| 0 <= j < us.len() && us[j].0 == id
}

/// Registering names only ever appends: the existing players stay where
/// they are.
pub proof fn lemma_reg_one_extends(s: Seq<PlayerV>, name: Seq<char>, bits: (u64, u64, u64))
    ensures
        add_one(s, name, bits).len() >= s.len(),
        add_one(s, name, bits).take(s.len() as int) == s,
{
    if has_name(s, name) {
        assert(add_one(s, name, bits).take(s.len() as int) =~= s);
    } else {
        assert(add_one(s, name, bits).take(s.len() as int) =~= s);
    }
}

/// A name already present keeps its id when the list grows at the end.
pub proof fn lemma_lookup_stable(s: Seq<PlayerV>, t: Seq<PlayerV>, name: Seq<char>)
    requires
        s.len() <= t.len(),
        t.take(s.len() as int) == s,
        unique_names(t),
        has_name(s, name),
    ensures
        has_name(t, name),
        id_of(t, name) == id_of(s, name),
{
    let w = name_index(s, name);
    assert(0 <= w < s.len() && s[w].name == name);
    assert(t[w] == t.take(s.len() as int)[w]);
    assert(t[w].name == name);
    assert(has_name(t, name));
    let w2 = name_index(t, name);
    assert(0 <= w2 < t.len() && t[w2].name == name);
    assert(w2 == w) by {
        if w2 < w {
            assert(t[w2].name != t[w].name);
        } else if w < w2 {
            assert(t[w].name != t[w2].name);
        }
    }
}

/// The player registry: every known player with the current rating triple.
/// Names are unique and ids run 1, 2, ... in order of first sighting.
pub struct Registry {
    players: Vec<Player>,
}

impl View for Registry {
    type V = Seq<PlayerV>;

    closed spec fn view(&self) -> Seq<PlayerV> {
        self.players@.map_values(|p: Player| p@)
    }
}

impl Registry {
    /// The registry's invariant.
    pub open spec fn wf(self) -> bool {
        sequential_ids(self@) && unique_names(self@)
    }

    /// An empty registry.
    pub fn new() -> (r: Registry)
        ensures
            r@ == Seq::<PlayerV>::empty(),
            r.wf(),
    {
        let r = Registry { players: Vec::new() };
        proof {
            assert(r@ =~= Seq::<PlayerV>::empty());
        }
        r
    }

    /// The number of registered players.
    pub fn len(&self) -> (n: usize)
        ensures
            n == self@.len(),
    {
        self.players.len()
    }

    /// The position of the first player with the given name.
    fn find_index(&self, name: &String) -> (r: Option<usize>)
        ensures
            match r {
                Some(j) => j < self@.len() && self@[j as int].name == name@,
                None => !has_name(self@, name@),
            },
    {
        let mut j: usize = 0;
        while j < self.players.len()
            invariant
                j <= self@.len(),
                self@.len() == self.players@.len(),
                forall|k: int| 0 <= k < j ==> self@[k].name != name@,
            decreases self@.len() - j,
        {
            if self.players[j].name == *name {
                return Some(j);
            }
            j += 1;
        }
        None
    }

    /// Looks a player up by name and hands back the id, or `None` for an
    /// unknown name.
    pub fn get_player_id(&self, name: &str) -> (r: Option<usize>)
        requires
            self.wf(),
        ensures
            match r {
                Some(id) => has_name(self@, name@) && id == id_of(self@, name@),
                None => !has_name(self@, name@),
            },
    {
        let owned: String = name.to_owned();
        match self.find_index(&owned) {
            Some(j) => {
                proof {
                    assert(name_index(self@, name@) == j);
                }
                Some(self.players[j].id)
            },
            None => None,
        }
    }

    /// Registers a player under the given name with the given triple; a
    /// no-op when the name is taken. Returns whether a player was added.
    pub fn add_player(&mut self, name: String, rating: Rating) -> (added: bool)
        requires
            old(self).wf(),
            old(self)@.len() < usize::MAX,
        ensures
            final(self).wf(),
            added == !has_name(old(self)@, name@),
            final(self)@ == add_one(old(self)@, name@, rating.bits()),
    {
        match self.find_index(&name) {
            Some(_) => false,
            None => {
                let id = self.players.len() + 1;
                let p = Player { id, name, rating };
                self.players.push(p);
                proof {
                    assert(self@ =~= add_one(old(self)@, p.name@, rating.bits()));
                }
                true
            },
        }
    }

    /// Create-if-absent by name: hands back the id of the existing player,
    /// or registers the name with the default triple 1500.0 / 350.0 / 0.06
    /// and hands back the freshly assigned id.
    pub fn new_player(&mut self, name: &str) -> (id: usize)
        requires
            old(self).wf(),
            old(self)@.len() < usize::MAX,
        ensures
            final(self).wf(),
            final(self)@ == reg_one(old(self)@, name@),
            has_name(final(self)@, name@),
            id == id_of(final(self)@, name@),
    {
        let owned: String = name.to_owned();
        match self.find_index(&owned) {
            Some(j) => {
                proof {
                    assert(name_index(self@, name@) == j);
                }
                self.players[j].id
            },
            None => {
                let id = self.players.len() + 1;
                let p = Player { id, name: owned, rating: Rating::default_rating() };
                self.players.push(p);
                proof {
                    assert(self@ =~= reg_one(old(self)@, name@));
                    assert(self@[self@.len() - 1].name == name@);
                    assert(name_index(self@, name@) == self@.len() - 1);
                }
                id
            },
        }
    }

    /// The (id, triple) list the rating-period engine consumes: one entry
    /// per player, in registry order.
    pub fn ratings(&self) -> (rs: Vec<(usize, Rating)>)
        requires
            self.wf(),
        ensures
            rs@.len() == self@.len(),
            forall|i: int| 0 <= i < rs@.len() ==> (#[trigger] rs@[i]).0 == self@[i].id
                && rs@[i].1.bits() == self@[i].rating,
            distinct_ids(rs@),
    {
        let mut rs: Vec<(usize, Rating)> = Vec::new();
        let mut i: usize = 0;
        while i < self.players.len()
            invariant
                i <= self@.len(),
                self@.len() == self.players@.len(),
                self.wf(),
                rs@.len() == i,
                forall|k: int| 0 <= k < i ==> (#[trigger] rs@[k]).0 == self@[k].id
                    && rs@[k].1.bits() == self@[k].rating,
            decreases self@.len() - i,
        {
            rs.push((self.players[i].id, self.players[i].rating));
            i += 1;
        }
        proof {
            assert forall|a: int, b: int| 0 <= a < b < rs@.len() implies rs@[a].0 != rs@[b].0 by {
                assert(rs@[a].0 == self@[a].id);
                assert(rs@[b].0 == self@[b].id);
            }
        }
        rs
    }

    /// Writes a batch of posterior triples back, keying each entry by
    /// player id; every entry lands, and every player without an entry
    /// keeps its triple. Ids, names and order never change.
    pub fn apply_update(&mut self, updates: &Vec<(usize, Rating)>)
        requires
            old(self).wf(),
            distinct_ids(updates@),
            forall|j: int| 0 <= j < updates@.len() ==> 1 <= (#[trigger] updates@[j]).0
                <= old(self)@.len(),
        ensures
            final(self).wf(),
            final(self)@.len() == old(self)@.len(),
            forall|i: int| 0 <= i < old(self)@.len() ==> (#[trigger] final(self)@[i]).id
                == old(self)@[i].id && final(self)@[i].name == old(self)@[i].name,
            forall|j: int| 0 <= j < updates@.len() ==> final(self)@[(#[trigger] updates@[j]).0
                - 1].rating == updates@[j].1.bits(),
            forall|i: int| 0 <= i < old(self)@.len() && !has_uid(updates@, old(self)@[i].id)
                ==> (#[trigger] final(self)@[i]).rating == old(self)@[i].rating,
    {
        let mut k: usize = 0;
        while k < updates.len()
            invariant
                k <= updates@.len(),
                old(self).wf(),
                distinct_ids(updates@),
                forall|j: int| 0 <= j < updates@.len() ==> 1 <= (#[trigger] updates@[j]).0
                    <= old(self)@.len(),
                self@.len() == old(self)@.len(),
                self@.len() == self.players@.len(),
                self.wf(),
                forall|i: int| 0 <= i < old(self)@.len() ==> (#[trigger] self@[i]).id
                    == old(self)@[i].id && self@[i].name == old(self)@[i].name,
                forall|j: int| 0 <= j < k ==> self@[(#[trigger] updates@[j]).0 - 1].rating
                    == updates@[j].1.bits(),
                forall|i: int| 0 <= i < old(self)@.len() && !has_uid(updates@.take(k as int),
                    old(self)@[i].id) ==> (#[trigger] self@[i]).rating == old(self)@[i].rating,
            decreases updates@.len() - k,
        {
            let ghost pre = self@;
            let ghost prev = self.players@;
            let idx = updates[k].0 - 1;
            self.players[idx].rating = updates[k].1;
            proof {
                let ku = k as int;
                let us = updates@;
                assert forall|i: int| 0 <= i < pre.len() && i != idx implies self@[i] == pre[i] by {
                    assert(self.players@[i] == prev[i]);
                }
                assert(self@[idx as int].rating == us[ku].1.bits());
                assert(self@[idx as int].id == pre[idx as int].id);
                assert(self@[idx as int].name == pre[idx as int].name);
                assert(self.wf()) by {
                    assert forall|i: int| 0 <= i < self@.len() implies (#[trigger] self@[i]).id
                        == i + 1 && self@[i].name == pre[i].name by {
                        if i != idx {
                            assert(self@[i] == pre[i]);
                        }
                    }
                }
                assert forall|i: int| 0 <= i < old(self)@.len() implies (#[trigger] self@[i]).id
                    == old(self)@[i].id && self@[i].name == old(self)@[i].name by {
                    assert(pre[i].id == old(self)@[i].id && pre[i].name == old(self)@[i].name);
                    if i != idx {
                        assert(self@[i] == pre[i]);
                    }
                }
                assert forall|j: int| 0 <= j < ku + 1 implies self@[(#[trigger] us[j]).0
                    - 1].rating == us[j].1.bits() by {
                    if j < ku {
                        assert(us[j].0 != us[ku].0);
                        assert(us[j].0 - 1 != idx);
                        assert(self@[us[j].0 - 1] == pre[us[j].0 - 1]);
                    }
                }
                assert forall|i: int| 0 <= i < old(self)@.len() && !has_uid(us.take(ku + 1),
                    old(self)@[i].id) implies (#[trigger] self@[i]).rating
                    == old(self)@[i].rating by {
                    let idi = old(self)@[i].id;
                    assert(us.take(ku + 1)[ku] == us[ku]);
                    if i == idx {
                        assert(us[ku].0 == idx + 1);
                        assert(idi == i + 1);
                        assert(us.take(ku + 1)[ku].0 == idi);
                        assert(has_uid(us.take(ku + 1), idi));
                    } else {
                        assert(!has_uid(us.take(ku), idi)) by {
                            if has_uid(us.take(ku), idi) {
                                let w = choose|j: int| 0 <= j < us.take(ku).len()
                                    && us.take(ku)[j].0 == idi;
                                assert(us.take(ku + 1)[w] == us.take(ku)[w]);
                                assert(us.take(ku + 1)[w].0 == idi);
                                assert(has_uid(us.take(ku + 1), idi));
                            }
                        }
                        assert(self@[i] == pre[i]);
                    }
                }
            }
            k += 1;
        }
        proof {
            assert(updates@.take(updates@.len() as int) =~= updates@);
        }
    }

    /// Hands the players out, in registry order, consuming the registry.
    pub fn into_players(self) -> (ps: Vec<Player>)
        ensures
            ps@.map_values(|p: Player| p@) == self@,
    {
        self.players
    }
}

} // verus!
