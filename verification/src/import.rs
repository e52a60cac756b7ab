use vstd::prelude::*;

use vstd::string::StringSliceAdditionalSpecFns;
use vstd::utf8::encode_utf8;

use crate::matchlog::{MatchLog, StoredMatch, StoredMatchV};
use crate::registry::{
    has_name, id_of, lemma_lookup_stable, lemma_reg_one_extends, reg_one, unique_names, PlayerV,
    Registry,
};

verus! {

/// Which field of an import row was malformed.
#[derive(Clone, Copy, Debug, PartialEq, Eq, Structural)]
pub enum ImportFault {
    Date,
    Score1,
    Score2,
}

/// The first malformed field of an import file: the row it stands in and
/// which field it is.
#[derive(Clone, Copy, Debug, PartialEq, Eq, Structural)]
pub struct ImportError {
    pub row: usize,
    pub fault: ImportFault,
}

/// One raw row of an import file, fields in file order: date, first
/// player's name, the two scores, second player's name.
pub struct ImportRow {
    pub date: String,
    pub player1: String,
    pub score1: String,
    pub score2: String,
    pub player2: String,
}

/// The mathematical image of a raw import row.
pub ghost struct ImportRowV {
    pub date: Seq<char>,
    pub player1: Seq<char>,
    pub score1: Seq<char>,
    pub score2: Seq<char>,
    pub player2: Seq<char>,
}

impl View for ImportRow {
    type V = ImportRowV;

    open spec fn view(&self) -> ImportRowV {
        ImportRowV {
            date: self.date@,
            player1: self.player1@,
            score1: self.score1@,
            score2: self.score2@,
            player2: self.player2@,
        }
    }
}

/// One parsed match, not yet persisted: the canonical date text, the two
/// players' names and the count of unit games each side won.
pub struct Match {
    pub date: String,
    pub player1: String,
    pub score1: usize,
    pub score2: usize,
    pub player2: String,
}

/// The mathematical image of a parsed match.
pub ghost struct MatchV {
    pub date: Seq<char>,
    pub player1: Seq<char>,
    pub score1: usize,
    pub score2: usize,
    pub player2: Seq<char>,
}

impl View for Match {
    type V = MatchV;

    open spec fn view(&self) -> MatchV {
        MatchV {
            date: self.date@,
            player1: self.player1@,
            score1: self.score1,
            score2: self.score2,
            player2: self.player2@,
        }
    }
}

/// Whether every byte is an ASCII decimal digit.
pub open spec fn all_digits(bs: Seq<u8>) -> bool {
    forall|i: int| 0 <= i < bs.len() ==> 48 <= #[trigger] bs[i] <= 57
}

/// The number a digit string denotes, most significant digit first.
pub open spec fn digits_val(bs: Seq<u8>) -> int
    decreases bs.len(),
{
    if bs.len() == 0 {
        0
    } else {
        digits_val(bs.drop_last()) * 10 + (bs.last() - 48)
    }
}

/// A score field is valid when it is a non-empty string of decimal digits
/// denoting a value of at most 2147483647 (the store's integer range);
/// anything else — a sign, spaces, an overflowing value — is rejected.
pub open spec fn spec_parse_score(bs: Seq<u8>) -> Option<usize> {
    if bs.len() > 0 && all_digits(bs) && digits_val(bs) <= 0x7FFFFFFF {
        Some(digits_val(bs) as usize)
    } else {
        None
    }
}

/// The score a text field denotes, if any.
pub open spec fn score_field(s: Seq<char>) -> Option<usize> {
    spec_parse_score(encode_utf8(s))
}

proof fn lemma_digits_nonneg(bs: Seq<u8>)
    requires
        all_digits(bs),
    ensures
        digits_val(bs) >= 0,
    decreases bs.len(),
{
    if bs.len() > 0 {
        assert(all_digits(bs.drop_last())) by {
            assert forall|i: int| 0 <= i < bs.drop_last().len() implies 48
                <= #[trigger] bs.drop_last()[i] <= 57 by {
                assert(bs.drop_last()[i] == bs[i]);
            }
        }
        lemma_digits_nonneg(bs.drop_last());
    }
}

proof fn lemma_digits_prefix(bs: Seq<u8>, k: int)
    requires
        all_digits(bs),
        0 <= k <= bs.len(),
    ensures
        digits_val(bs.take(k)) <= digits_val(bs),
    decreases bs.len() - k,
{
    if k == bs.len() {
        assert(bs.take(k) =~= bs);
    } else {
        lemma_digits_prefix(bs, k + 1);
        assert(bs.take(k + 1).drop_last() =~= bs.take(k));
        assert(bs.take(k + 1).last() == bs[k]);
        assert(all_digits(bs.take(k))) by {
            assert forall|i: int| 0 <= i < bs.take(k).len() implies 48 <= #[trigger] bs.take(
                k)[i] <= 57 by {
                assert(bs.take(k)[i] == bs[i]);
            }
        }
        lemma_digits_nonneg(bs.take(k));
        assert(digits_val(bs.take(k)) * 10 >= digits_val(bs.take(k)));
    }
}

/// Parses a score field: a non-empty all-digit string denoting at most
/// 2147483647.
pub fn parse_score(s: &str) -> (r: Option<usize>)
    ensures
        r == spec_parse_score(s.spec_bytes()),
{
    let bs = s.as_bytes();
    let n = bs.len();
    if n == 0 {
        return None;
    }
    let mut acc: u64 = 0;
    let mut i: usize = 0;
    while i < n
        invariant
            i <= n,
            n == bs@.len(),
            bs@ == s.spec_bytes(),
            n > 0,
            all_digits(bs@.take(i as int)),
            acc == digits_val(bs@.take(i as int)),
            acc <= 0x7FFFFFFF,
        decreases n - i,
    {
        let b = bs[i];
        if b < 48 || b > 57 {
            proof {
                assert(!all_digits(s.spec_bytes()));
            }
            return None;
        }
        acc = acc * 10 + ((b - 48) as u64);
        proof {
            assert(bs@.take(i + 1).drop_last() =~= bs@.take(i as int));
            assert(bs@.take(i + 1).last() == bs@[i as int]);
            assert(all_digits(bs@.take(i + 1))) by {
                assert forall|k: int| 0 <= k < i + 1 implies 48 <= #[trigger] bs@.take(
                    i + 1)[k] <= 57 by {
                    if k < i {
                        assert(bs@.take(i as int)[k] == bs@.take(i + 1)[k]);
                    }
                }
            }
        }
        if acc > 0x7FFFFFFF {
            proof {
                if all_digits(s.spec_bytes()) {
                    lemma_digits_prefix(s.spec_bytes(), i + 1);
                }
            }
            return None;
        }
        i += 1;
    }
    proof {
        assert(bs@.take(n as int) =~= bs@);
    }
    Some(acc as usize)
}

/// The canonical rendering of a date text: `Some` exactly when the text
/// names a calendar date, carrying that date at midnight in the store's
/// date-and-time form.
pub uninterp spec fn canonical_date(s: Seq<char>) -> Option<Seq<char>>;

/// Relies on `chrono::NaiveDateTime::parse_from_str` with the format
/// `"%Y-%m-%d %H:%M"`, after a midnight time is appended to the text, and
/// on the parsed value's `to_string` rendering: whether the text names a
/// calendar date, and the canonical rendering of that date at midnight,
/// are functions of the text alone, named `canonical_date` here.
#[verifier::external_body]
fn canonical_date_call(s: &str) -> (r: Option<String>)
    ensures
        match r {
            Some(out) => canonical_date(s@) is Some && out@ == canonical_date(s@)->Some_0,
            None => canonical_date(s@) is None,
        },
{
    let padded = format!("{} 00:00", s);
    match chrono::NaiveDateTime::parse_from_str(&padded, "%Y-%m-%d %H:%M") {
        Ok(d) => Some(d.to_string()),
        Err(_) => None,
    }
}

/// The first malformed field of a row, checked in file order: date, first
/// score, second score.
pub open spec fn row_error(r: ImportRowV) -> Option<ImportFault> {
    if canonical_date(r.date) is None {
        Some(ImportFault::Date)
    } else if score_field(r.score1) is None {
        Some(ImportFault::Score1)
    } else if score_field(r.score2) is None {
        Some(ImportFault::Score2)
    } else {
        None
    }
}

/// Whether every field of the row parses.
pub open spec fn row_valid(r: ImportRowV) -> bool {
    row_error(r) is None
}

/// The parsed form of a valid row.
pub open spec fn parsed_of(r: ImportRowV) -> MatchV {
    MatchV {
        date: canonical_date(r.date)->Some_0,
        player1: r.player1,
        score1: score_field(r.score1)->Some_0,
        score2: score_field(r.score2)->Some_0,
        player2: r.player2,
    }
}

/// The registry after registering both names of every row, in file order,
/// first player first.
pub open spec fn reg_rows(s: Seq<PlayerV>, rows: Seq<ImportRowV>) -> Seq<PlayerV>
    decreases rows.len(),
{
    if rows.len() == 0 {
        s
    } else {
        reg_one(reg_one(reg_rows(s, rows.drop_last()), rows.last().player1), rows.last().player2)
    }
}

/// The log entries a batch of valid rows appends, given the registry that
/// holds every name of the batch.
pub open spec fn stored_of(
    rows: Seq<ImportRowV>,
    regv: Seq<PlayerV>,
    period: i32,
) -> Seq<StoredMatchV> {
    rows.map_values(|r: ImportRowV| StoredMatchV {
        player_1: id_of(regv, r.player1),
        player_2: id_of(regv, r.player2),
        score1: score_field(r.score1)->Some_0,
        score2: score_field(r.score2)->Some_0,
        date: canonical_date(r.date)->Some_0,
        rating_period: period,
    })
}

/// Stored entries do not change when the registry grows at the end, as
/// long as it already held every name of the batch.
proof fn lemma_stored_stable(
    rows: Seq<ImportRowV>,
    s: Seq<PlayerV>,
    t: Seq<PlayerV>,
    period: i32,
)
    requires
        s.len() <= t.len(),
        t.take(s.len() as int) == s,
        unique_names(t),
        forall|k: int| 0 <= k < rows.len() ==> has_name(s, (#[trigger] rows[k]).player1)
            && has_name(s, rows[k].player2),
    ensures
        stored_of(rows, s, period) == stored_of(rows, t, period),
{
    assert forall|k: int| 0 <= k < rows.len() implies stored_of(rows, s, period)[k]
        == stored_of(rows, t, period)[k] by {
        lemma_lookup_stable(s, t, rows[k].player1);
        lemma_lookup_stable(s, t, rows[k].player2);
    }
    assert(stored_of(rows, s, period) =~= stored_of(rows, t, period));
}

/// The views of a batch of raw rows.
pub open spec fn row_views(rows: Seq<ImportRow>) -> Seq<ImportRowV> {
    rows.map_values(|r: ImportRow| r@)
}

/// Ingests one import file: parses every row, registers every previously
/// unseen player name with the default triple, and appends one match per
/// row, tagged with the given rating period — in that order, so that a
/// malformed row aborts the whole load before anything is registered or
/// appended. Returns how many matches were appended, or the first
/// malformed field. Nothing is deduplicated: loading the same rows again
/// appends the same matches again.
pub fn load_matches(
    reg: &mut Registry,
    log: &mut MatchLog,
    rows: &Vec<ImportRow>,
    rating_period: i32,
) -> (res: Result<usize, ImportError>)
    requires
        old(reg).wf(),
        old(reg)@.len() + 2 * rows@.len() < usize::MAX,
        old(log)@.len() + rows@.len() < usize::MAX,
    ensures
        final(reg).wf(),
        match res {
            Ok(n) => {
                &&& n == rows@.len()
                &&& forall|i: int| 0 <= i < rows@.len() ==> row_valid((#[trigger] rows@[i])@)
                &&& final(reg)@ == reg_rows(old(reg)@, row_views(rows@))
                &&& final(log)@ == old(log)@ + stored_of(row_views(rows@), final(reg)@,
                    rating_period)
            },
            Err(e) => {
                &&& final(reg)@ == old(reg)@
                &&& final(log)@ == old(log)@
                &&& e.row < rows@.len()
                &&& row_error(rows@[e.row as int]@) == Some(e.fault)
                &&& forall|k: int| 0 <= k < e.row ==> row_valid((#[trigger] rows@[k])@)
            },
        },
{
    let ghost rv = rows@.map_values(|r: ImportRow| r@);
    let mut parsed: Vec<Match> = Vec::new();
    let mut i: usize = 0;
    while i < rows.len()
        invariant
            i <= rows@.len(),
            rv == rows@.map_values(|r: ImportRow| r@),
            parsed@.len() == i,
            old(reg).wf(),
            reg@ == old(reg)@,
            log@ == old(log)@,
            forall|k: int| 0 <= k < i ==> row_valid((#[trigger] rows@[k])@),
            forall|k: int| 0 <= k < i ==> (#[trigger] parsed@[k])@ == parsed_of(rv[k]),
        decreases rows@.len() - i,
    {
        let row = &rows[i];
        let date = match canonical_date_call(row.date.as_str()) {
            Some(d) => d,
            None => {
                return Err(ImportError { row: i, fault: ImportFault::Date });
            },
        };
        let s1 = match parse_score(row.score1.as_str()) {
            Some(v) => v,
            None => {
                return Err(ImportError { row: i, fault: ImportFault::Score1 });
            },
        };
        let s2 = match parse_score(row.score2.as_str()) {
            Some(v) => v,
            None => {
                return Err(ImportError { row: i, fault: ImportFault::Score2 });
            },
        };
        let m = Match {
            date,
            player1: row.player1.clone(),
            score1: s1,
            score2: s2,
            player2: row.player2.clone(),
        };
        proof {
            assert(m@ == parsed_of(rv[i as int]));
        }
        parsed.push(m);
        i += 1;
    }
    let ghost reg0 = old(reg)@;
    let ghost log0 = old(log)@;
    let mut j: usize = 0;
    while j < parsed.len()
        invariant
            j <= parsed@.len(),
            parsed@.len() == rows@.len(),
            rv == rows@.map_values(|r: ImportRow| r@),
            reg0 == old(reg)@,
            log0 == old(log)@,
            old(reg).wf(),
            old(reg)@.len() + 2 * rows@.len() < usize::MAX,
            old(log)@.len() + rows@.len() < usize::MAX,
            forall|k: int| 0 <= k < rows@.len() ==> row_valid((#[trigger] rows@[k])@),
            forall|k: int| 0 <= k < parsed@.len() ==> (#[trigger] parsed@[k])@ == parsed_of(rv[k]),
            reg.wf(),
            reg@ == reg_rows(reg0, rv.take(j as int)),
            reg@.len() <= reg0.len() + 2 * j,
            log@ == log0 + stored_of(rv.take(j as int), reg@, rating_period),
            log@.len() == log0.len() + j,
            forall|k: int| 0 <= k < j ==> has_name(reg@, (#[trigger] rv[k]).player1)
                && has_name(reg@, rv[k].player2),
        decreases parsed@.len() - j,
    {
        let ghost reg_a = reg@;
        let m = &parsed[j];
        let id1 = reg.new_player(m.player1.as_str());
        let ghost reg_b = reg@;
        let id2 = reg.new_player(m.player2.as_str());
        let ghost reg_c = reg@;
        let sm = StoredMatch {
            player_1: id1,
            player_2: id2,
            score1: m.score1,
            score2: m.score2,
            date: m.date.clone(),
            rating_period,
        };
        proof {
            lemma_reg_one_extends(reg_a, rv[j as int].player1, crate::registry::default_triple());
            lemma_reg_one_extends(reg_b, rv[j as int].player2, crate::registry::default_triple());
            assert(reg_c.take(reg_a.len() as int) =~= reg_a) by {
                assert forall|x: int| 0 <= x < reg_a.len() implies reg_c[x] == reg_a[x] by {
                    assert(reg_b.take(reg_a.len() as int)[x] == reg_a[x]);
                    assert(reg_c.take(reg_b.len() as int)[x] == reg_b[x]);
                }
            }
            assert(rv.take(j + 1).drop_last() =~= rv.take(j as int));
            assert(rv.take(j + 1).last() == rv[j as int]);
            assert(reg_c == reg_rows(reg0, rv.take(j + 1)));
            assert forall|k: int| 0 <= k < j + 1 implies has_name(reg_c, (#[trigger] rv[k]).player1)
                && has_name(reg_c, rv[k].player2) by {
                if k < j {
                    lemma_lookup_stable(reg_a, reg_c, rv[k].player1);
                    lemma_lookup_stable(reg_a, reg_c, rv[k].player2);
                } else {
                    lemma_lookup_stable(reg_b, reg_c, rv[j as int].player1);
                }
            }
        }
        log.append(sm);
        proof {
            lemma_stored_stable(rv.take(j as int), reg_a, reg_c, rating_period);
            lemma_lookup_stable(reg_b, reg_c, rv[j as int].player1);
            assert(sm@ == stored_of(rv.take(j + 1), reg_c, rating_period)[j as int]);
            assert forall|k: int| 0 <= k < j implies stored_of(rv.take(j as int), reg_c,
                rating_period)[k] == stored_of(rv.take(j + 1), reg_c, rating_period)[k] by {
                assert(rv.take(j as int)[k] == rv.take(j + 1)[k]);
            }
            assert(log@ =~= log0 + stored_of(rv.take(j + 1), reg_c, rating_period));
        }
        j += 1;
    }
    proof {
        assert(rv.take(rv.len() as int) =~= rv);
        assert(rv == row_views(rows@));
        assert(reg@ == reg_rows(old(reg)@, row_views(rows@)));
        assert(log@ == old(log)@ + stored_of(row_views(rows@), reg@, rating_period));
        assert forall|i2: int| 0 <= i2 < rows@.len() implies row_valid(
            (#[trigger] rows@[i2])@) by {
            assert(rv[i2] == rows@[i2]@);
        }
    }
    Ok(parsed.len())
}

} // verus!
