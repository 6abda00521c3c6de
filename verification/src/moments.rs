//! Candidate moments drawn from a monthly letter: its chunks, ranked by
//! score, the best `top_k` of them tagged with the record they came from.

use vstd::prelude::*;

use crate::ranking::{is_top_selection, ranks_before, top_positions, top_selection};
use crate::text::{decimal, push_decimal};

verus! {

/// One candidate moment for the zine.
#[derive(Debug)]
pub struct Moment {
    /// Where the moment came from; for a letter, `cadence-monthly:<record id>`.
    pub session_id: String,
    /// The position of the moment in its source; for a letter, the chunk index.
    pub turn_index: usize,
    /// Timestamp; letters have none per chunk, so it is empty for them.
    pub ts: String,
    /// The user's text; empty for a letter, which is not a user turn.
    pub user_text: String,
    /// The moment's text.
    pub assistant_text: String,
    /// The ranking score, as the bit pattern of a non-negative `f64`; for such
    /// values the bit pattern orders as the number does.
    pub score_bits: u64,
    /// A one-sentence explanation of the rank.
    pub why: String,
}

/// The session id of a moment drawn from the letter of record `record_id`.
pub open spec fn letter_session_id(record_id: Seq<char>) -> Seq<char> {
    "cadence-monthly:"@ + record_id
}

/// The explanation of a moment drawn from chunk `idx` of a letter, which has
/// `emphasis` emphasised runs.
pub open spec fn letter_why(emphasis: u32, idx: usize) -> Seq<char> {
    "source=cadence-monthly emphasis="@ + decimal(emphasis as nat) + " chunk-idx="@ + decimal(
        idx as nat,
    )
}

/// `m` is the moment for chunk `idx` of the letter of record `record_id`,
/// scored `(score_bits, text, emphasis)`.
pub open spec fn is_letter_moment(
    m: Moment,
    record_id: Seq<char>,
    idx: usize,
    chunk: (u64, String, u32),
) -> bool {
    &&& m.session_id@ == letter_session_id(record_id)
    &&& m.turn_index == idx
    &&& m.ts@ == Seq::<char>::empty()
    &&& m.user_text@ == Seq::<char>::empty()
    &&& m.assistant_text@ == chunk.1@
    &&& m.score_bits == chunk.0
    &&& m.why@ == letter_why(chunk.2, idx)
}

/// The score keys of scored chunks.
pub open spec fn score_keys(scored: Seq<(u64, String, u32)>) -> Seq<u64> {
    scored.map_values(|c: (u64, String, u32)| c.0)
}

/// `moments` are the moments of the `top_k` best-scored chunks of the letter
/// of record `record_id`, best first (of equal scores, the earlier chunk first).
pub open spec fn are_letter_moments(
    record_id: Seq<char>,
    scored: Seq<(u64, String, u32)>,
    top_k: nat,
    moments: Seq<Moment>,
) -> bool {
    let sel = top_selection(score_keys(scored), top_k);
    &&& is_top_selection(score_keys(scored), top_k, sel)
    &&& moments.len() == sel.len()
    &&& forall|t: int|
        0 <= t < moments.len() ==> is_letter_moment(
            #[trigger] moments[t],
            record_id,
            sel[t],
            scored[sel[t] as int],
        )
}

/// Turns the scored chunks of the letter of record `record_id` into at most
/// `top_k` moments: a stable sort by descending score, cut to `top_k`, each
/// chunk tagged with the record and its chunk index. `scored[i]` is chunk
/// `i` as `(score_bits, text, emphasis)`.
pub fn moments_from_scored(record_id: &str, scored: &Vec<(u64, String, u32)>, top_k: usize) -> (moments: Vec<Moment>)
    ensures
        are_letter_moments(record_id@, scored@, top_k as nat, moments@),
{
    let mut keys: Vec<u64> = Vec::new();
    let mut i: usize = 0;
    while i < scored.len()
        invariant
            i <= scored@.len(),
            keys@ == score_keys(scored@).take(i as int),
        decreases scored@.len() - i,
    {
        keys.push(scored[i].0);
        assert(keys@ =~= score_keys(scored@).take(i + 1));
        i += 1;
    }
    assert(keys@ =~= score_keys(scored@));
    let sel = top_positions(&keys, top_k);
    let mut moments: Vec<Moment> = Vec::new();
    let mut t: usize = 0;
    while t < sel.len()
        invariant
            keys@ == score_keys(scored@),
            sel@ == top_selection(keys@, top_k as nat),
            is_top_selection(keys@, top_k as nat, sel@),
            t <= sel@.len(),
            moments@.len() == t,
            forall|u: int|
                0 <= u < t ==> is_letter_moment(
                    #[trigger] moments@[u],
                    record_id@,
                    sel@[u],
                    scored@[sel@[u] as int],
                ),
        decreases sel@.len() - t,
    {
        let idx = sel[t];
        let chunk = &scored[idx];
        let mut session_id = String::from_str("cadence-monthly:");
        session_id.append(record_id);
        let mut why = String::from_str("source=cadence-monthly emphasis=");
        push_decimal(&mut why, chunk.2 as u64);
        why.append(" chunk-idx=");
        push_decimal(&mut why, idx as u64);
        let m = Moment {
            session_id,
            turn_index: idx,
            ts: String::new(),
            user_text: String::new(),
            assistant_text: chunk.1.clone(),
            score_bits: chunk.0,
            why,
        };
        moments.push(m);
        t += 1;
    }
    moments
}

/// What the moments of a letter satisfy: there are `min(top_k, chunks)` of
/// them, all tagged with the record and the `cadence-monthly` source, from
/// distinct chunks, in non-increasing score order, and no chunk left out
/// scores higher than one kept.
pub proof fn lemma_letter_moments(
    record_id: Seq<char>,
    scored: Seq<(u64, String, u32)>,
    top_k: nat,
    moments: Seq<Moment>,
)
    requires
        are_letter_moments(record_id, scored, top_k, moments),
    ensures
        moments.len() <= top_k,
        moments.len() <= scored.len(),
        moments.len() == top_k || moments.len() == scored.len(),
        forall|t: int|
            0 <= t < moments.len() ==> {
                &&& (#[trigger] moments[t]).turn_index < scored.len()
                &&& "cadence-monthly:"@.is_prefix_of(moments[t].session_id@)
                &&& moments[t].session_id@ == "cadence-monthly:"@ + record_id
                &&& moments[t].session_id@.len() == "cadence-monthly:"@.len() + record_id.len()
                &&& moments[t].session_id@.skip("cadence-monthly:"@.len() as int) == record_id
                &&& "source=cadence-monthly emphasis="@.is_prefix_of(moments[t].why@)
            },
        forall|t: int, u: int|
            0 <= t < u < moments.len() ==> #[trigger] moments[t].turn_index != #[trigger] moments[u].turn_index
                && moments[t].score_bits >= moments[u].score_bits,
        forall|t: int, i: usize|
            #![trigger scored[i as int], moments[t]]
            0 <= t < moments.len() && i < scored.len() && (forall|u: int|
                0 <= u < moments.len() ==> #[trigger] moments[u].turn_index != i) ==> scored[i as int].0
                <= moments[t].score_bits,
{
    let keys = score_keys(scored);
    let sel = top_selection(keys, top_k);
    assert forall|t: int| 0 <= t < moments.len() implies {
        &&& (#[trigger] moments[t]).turn_index < scored.len()
        &&& "cadence-monthly:"@.is_prefix_of(moments[t].session_id@)
        &&& moments[t].session_id@ == "cadence-monthly:"@ + record_id
        &&& moments[t].session_id@.len() == "cadence-monthly:"@.len() + record_id.len()
        &&& moments[t].session_id@.skip("cadence-monthly:"@.len() as int) == record_id
        &&& "source=cadence-monthly emphasis="@.is_prefix_of(moments[t].why@)
    } by {
        assert(("cadence-monthly:"@ + record_id).skip("cadence-monthly:"@.len() as int) =~= record_id);
        assert(is_letter_moment(moments[t], record_id, sel[t], scored[sel[t] as int]));
        assert(sel[t] < keys.len());
        let w = "source=cadence-monthly emphasis="@;
        assert(moments[t].why@ == w + (decimal(scored[sel[t] as int].2 as nat) + " chunk-idx="@
            + decimal(sel[t] as nat)));
    }
    assert forall|t: int, u: int| 0 <= t < u < moments.len() implies #[trigger] moments[t].turn_index
        != #[trigger] moments[u].turn_index && moments[t].score_bits >= moments[u].score_bits by {
        assert(is_letter_moment(moments[t], record_id, sel[t], scored[sel[t] as int]));
        assert(is_letter_moment(moments[u], record_id, sel[u], scored[sel[u] as int]));
        assert(ranks_before(keys, sel[t] as int, sel[u] as int));
        assert(keys[sel[t] as int] == scored[sel[t] as int].0);
        assert(keys[sel[u] as int] == scored[sel[u] as int].0);
    }
    assert forall|t: int, i: usize|
        #![trigger scored[i as int], moments[t]]
        0 <= t < moments.len() && i < scored.len() && (forall|u: int|
            0 <= u < moments.len() ==> #[trigger] moments[u].turn_index != i) implies scored[i as int].0
            <= moments[t].score_bits by {
        assert(is_letter_moment(moments[t], record_id, sel[t], scored[sel[t] as int]));
        if sel.contains(i) {
            let u = choose|u: int| 0 <= u < sel.len() && sel[u] == i;
            assert(is_letter_moment(moments[u], record_id, sel[u], scored[sel[u] as int]));
            assert(moments[u].turn_index == i);
        } else {
            assert(ranks_before(keys, sel[t] as int, i as int));
            assert(keys[sel[t] as int] == scored[sel[t] as int].0);
            assert(keys[i as int] == scored[i as int].0);
        }
    }
}

} // verus!
