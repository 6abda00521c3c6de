//! Cadence intake: the configuration of a pass over monthly cadence records,
//! the decision of which record to read, and the folding of each record's
//! outcome into the pass's result.

use vstd::prelude::*;

use crate::moments::{are_letter_moments, is_letter_moment, letter_session_id, Moment};

verus! {

/// Configuration for cadence intake.
#[derive(Debug, Clone)]
pub struct CadenceIntakeConfig {
    /// Duration window to look back for monthly records (e.g. `"92d"`).
    pub since: String,
    /// Maximum candidate moments to pull from each monthly record.
    pub top_k: usize,
}

impl Default for CadenceIntakeConfig {
    /// Look back `92d`, keep at most 15 moments per record.
    fn default() -> (cfg: Self)
        ensures
            cfg.since@ == "92d"@,
            cfg.top_k == 15,
    {
        CadenceIntakeConfig { since: String::from_str("92d"), top_k: 15 }
    }
}

/// Result of a cadence intake pass: moments plus the source record IDs.
#[derive(Debug)]
pub struct CadenceIntakeResult {
    /// Candidate moments extracted from monthly records.
    pub moments: Vec<Moment>,
    /// ULID/ID strings of the monthly records that were consumed.
    pub source_ids: Vec<String>,
    /// Count of monthly records that were skipped (path missing / unreadable).
    pub skipped: usize,
}

impl Default for CadenceIntakeResult {
    /// No moments, no sources, nothing skipped.
    fn default() -> (r: Self)
        ensures
            r.moments@.len() == 0,
            r.source_ids@.len() == 0,
            r.skipped == 0,
    {
        CadenceIntakeResult { moments: Vec::new(), source_ids: Vec::new(), skipped: 0 }
    }
}

/// One monthly cadence record, as `cadence list monthly --json` lists it.
#[derive(Debug)]
pub struct CadenceRecord {
    /// The record's ULID/ID.
    pub id: String,
    /// The path of the record's Markdown letter, if it has one.
    pub path: Option<String>,
    /// The record's summary, if any.
    pub summary: Option<String>,
}

/// The letter to read for `record`: its path, when it has a non-empty one.
/// A record without one is skipped.
pub fn letter_path(record: &CadenceRecord) -> (path: Option<String>)
    ensures
        path is Some <==> (record.path matches Some(p) && p@.len() > 0),
        path matches Some(p) ==> p@ == record.path->0@,
{
    match &record.path {
        Some(p) => {
            if p.as_str().is_empty() {
                None
            } else {
                Some(p.clone())
            }
        },
        None => None,
    }
}

/// `x + 1`, saturating at `usize::MAX`.
pub open spec fn saturating_succ(x: usize) -> usize {
    if x < usize::MAX {
        (x + 1) as usize
    } else {
        x
    }
}

/// `after` is `before` with the outcome of one record folded in: a letter
/// that was read (`Some` of its moments) adds the record's id to the sources
/// and its moments after those already there; a record that was skipped or
/// whose letter could not be read (`None`) counts one more skip.
pub open spec fn absorbed(
    before: CadenceIntakeResult,
    after: CadenceIntakeResult,
    record_id: Seq<char>,
    letter: Option<Seq<Moment>>,
) -> bool {
    match letter {
        Some(ms) => {
            &&& after.source_ids@.len() == before.source_ids@.len() + 1
            &&& after.source_ids@.take(before.source_ids@.len() as int) == before.source_ids@
            &&& after.source_ids@.last()@ == record_id
            &&& after.moments@ == before.moments@ + ms
            &&& after.skipped == before.skipped
        },
        None => {
            &&& after.source_ids@ == before.source_ids@
            &&& after.moments@ == before.moments@
            &&& after.skipped == saturating_succ(before.skipped)
        },
    }
}

/// Folds the outcome of one record into `result`; see [`absorbed`].
pub fn absorb_letter(result: &mut CadenceIntakeResult, record_id: String, letter: Option<Vec<Moment>>)
    ensures
        absorbed(
            *old(result),
            *final(result),
            record_id@,
            match letter {
                Some(ms) => Some(ms@),
                None => None,
            },
        ),
{
    match letter {
        Some(mut moments) => {
            let ghost ids = result.source_ids@;
            result.source_ids.push(record_id);
            assert(result.source_ids@.take(ids.len() as int) =~= ids);
            result.moments.append(&mut moments);
        },
        None => {
            result.skipped = result.skipped.saturating_add(1);
        },
    }
}

/// Every record is accounted for once: folding in one record's outcome adds
/// exactly one to the count of sources plus skips (short of the skip count's
/// saturation), and never drops a moment already collected.
pub proof fn lemma_record_counted_once(
    before: CadenceIntakeResult,
    after: CadenceIntakeResult,
    record_id: Seq<char>,
    letter: Option<Seq<Moment>>,
)
    requires
        absorbed(before, after, record_id, letter),
        before.skipped < usize::MAX,
    ensures
        after.source_ids@.len() + after.skipped == before.source_ids@.len() + before.skipped + 1,
        before.moments@.is_prefix_of(after.moments@),
{
    assert(before.moments@.is_prefix_of(after.moments@)) by {
        if let Some(ms) = letter {
            assert((before.moments@ + ms).take(before.moments@.len() as int) == before.moments@);
        }
    }
}

/// Each record whose letter is read adds at most `top_k` moments, all tagged
/// with the record's id, and the record's id as the last source: folding in the
/// moments of a letter (as [`crate::moments::moments_from_scored`] gives them)
/// for record `record_id`.
pub proof fn lemma_record_moments_tagged(
    before: CadenceIntakeResult,
    after: CadenceIntakeResult,
    record_id: Seq<char>,
    scored: Seq<(u64, String, u32)>,
    top_k: nat,
    moments: Seq<Moment>,
)
    requires
        are_letter_moments(record_id, scored, top_k, moments),
        absorbed(before, after, record_id, Some(moments)),
    ensures
        after.moments@.len() <= before.moments@.len() + top_k,
        after.source_ids@.last()@ == record_id,
        forall|i: int|
            before.moments@.len() <= i < after.moments@.len() ==> {
                &&& (#[trigger] after.moments@[i]).session_id@ == letter_session_id(record_id)
                &&& "source=cadence-monthly emphasis="@.is_prefix_of(after.moments@[i].why@)
            },
{
    crate::moments::lemma_letter_moments(record_id, scored, top_k, moments);
    let b = before.moments@.len() as int;
    assert forall|i: int| b <= i < after.moments@.len() implies {
        &&& (#[trigger] after.moments@[i]).session_id@ == letter_session_id(record_id)
        &&& "source=cadence-monthly emphasis="@.is_prefix_of(after.moments@[i].why@)
    } by {
        assert(after.moments@[i] == moments[i - b]);
        let sel = crate::ranking::top_selection(crate::moments::score_keys(scored), top_k);
        assert(is_letter_moment(moments[i - b], record_id, sel[i - b], scored[sel[i - b] as int]));
    }
}

/// A whole pass accounts for every record: starting from the empty result
/// and folding in the outcomes of `n` records one after another, the sources
/// and skips add up to `n` (short of the skip count's saturation).
pub proof fn lemma_pass_counts_every_record(
    results: Seq<CadenceIntakeResult>,
    record_ids: Seq<Seq<char>>,
    letters: Seq<Option<Seq<Moment>>>,
)
    requires
        results.len() == record_ids.len() + 1,
        letters.len() == record_ids.len(),
        results[0].source_ids@.len() == 0,
        results[0].skipped == 0,
        forall|i: int|
            0 <= i < record_ids.len() ==> absorbed(
                #[trigger] results[i],
                results[i + 1],
                record_ids[i],
                letters[i],
            ),
        results.last().skipped < usize::MAX,
    ensures
        results.last().source_ids@.len() + results.last().skipped == record_ids.len(),
    decreases record_ids.len(),
{
    let n = record_ids.len();
    if n > 0 {
        let prev = results.drop_last();
        assert(absorbed(results[n - 1], results[n as int], record_ids[n - 1], letters[n - 1]));
        assert(results[n - 1].skipped <= results[n as int].skipped);
        assert forall|i: int| 0 <= i < record_ids.drop_last().len() implies absorbed(
            #[trigger] prev[i],
            prev[i + 1],
            record_ids.drop_last()[i],
            letters.drop_last()[i],
        ) by {
            assert(absorbed(results[i], results[i + 1], record_ids[i], letters[i]));
        }
        lemma_pass_counts_every_record(prev, record_ids.drop_last(), letters.drop_last());
        lemma_record_counted_once(results[n - 1], results[n as int], record_ids[n - 1], letters[n - 1]);
    }
}

/// Folding in a letter that was read appends all of its moments, after those
/// already collected and whatever their number; a record skipped or unread
/// leaves the moments as they were.
pub proof fn lemma_letter_appended(
    before: CadenceIntakeResult,
    after: CadenceIntakeResult,
    record_id: Seq<char>,
    letter: Option<Seq<Moment>>,
)
    requires
        absorbed(before, after, record_id, letter),
    ensures
        letter matches Some(ms) ==> {
            &&& after.moments@.len() == before.moments@.len() + ms.len()
            &&& after.moments@.take(before.moments@.len() as int) == before.moments@
            &&& after.moments@.skip(before.moments@.len() as int) == ms
            &&& after.source_ids@.len() == before.source_ids@.len() + 1
            &&& after.source_ids@.last()@ == record_id
        },
        letter is None ==> after.moments@ == before.moments@ && after.source_ids@
            == before.source_ids@,
{
    if let Some(ms) = letter {
        assert((before.moments@ + ms).take(before.moments@.len() as int) =~= before.moments@);
        assert((before.moments@ + ms).skip(before.moments@.len() as int) =~= ms);
    }
}

/// The number of moments in the letters that were read.
pub open spec fn letters_moment_count(letters: Seq<Option<Seq<Moment>>>) -> nat
    decreases letters.len(),
{
    if letters.len() == 0 {
        0
    } else {
        letters_moment_count(letters.drop_last()) + match letters.last() {
            Some(ms) => ms.len(),
            None => 0,
        }
    }
}

/// A whole pass keeps every moment of every letter read: starting from the
/// empty result and folding in the outcomes of the records one after another,
/// the moments collected number the sum of the moments of the letters read
/// (three letters of 15 moments give 45).
pub proof fn lemma_pass_collects_every_moment(
    results: Seq<CadenceIntakeResult>,
    record_ids: Seq<Seq<char>>,
    letters: Seq<Option<Seq<Moment>>>,
)
    requires
        results.len() == record_ids.len() + 1,
        letters.len() == record_ids.len(),
        results[0].moments@.len() == 0,
        forall|i: int|
            0 <= i < record_ids.len() ==> absorbed(
                #[trigger] results[i],
                results[i + 1],
                record_ids[i],
                letters[i],
            ),
    ensures
        results.last().moments@.len() == letters_moment_count(letters),
    decreases record_ids.len(),
{
    let n = record_ids.len();
    if n > 0 {
        let prev = results.drop_last();
        assert(absorbed(results[n - 1], results[n as int], record_ids[n - 1], letters[n - 1]));
        assert forall|i: int| 0 <= i < record_ids.drop_last().len() implies absorbed(
            #[trigger] prev[i],
            prev[i + 1],
            record_ids.drop_last()[i],
            letters.drop_last()[i],
        ) by {
            assert(absorbed(results[i], results[i + 1], record_ids[i], letters[i]));
        }
        lemma_pass_collects_every_moment(prev, record_ids.drop_last(), letters.drop_last());
        lemma_letter_appended(results[n - 1], results[n as int], record_ids[n - 1], letters[n - 1]);
    }
}

} // verus!
