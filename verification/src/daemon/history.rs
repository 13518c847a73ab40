//! Stored conversations as history entries, and the history interface's
//! guard and filter.
use vstd::prelude::*;
use crate::dbus::exceptions::ClaDbusError;
use crate::dbus::structures::HistoryEntry;
use crate::text::{append_str, chars_of, contains_seq, find_chars, lemma_find_from, occurs_at, string_of};
use super::models::{HistoryModel, InteractionModel};

verus! {

/// `parts` joined with newlines.
pub open spec fn join_lines(parts: Seq<Seq<char>>) -> Seq<char>
    decreases parts.len(),
{
    if parts.len() == 0 {
        seq![]
    } else if parts.len() == 1 {
        parts[0]
    } else {
        join_lines(parts.drop_last()) + seq!['\n'] + parts.last()
    }
}

/// The questions of the interactions, in order.
pub open spec fn questions(interactions: Seq<InteractionModel>) -> Seq<Seq<char>> {
    interactions.map_values(|i: InteractionModel| i.question@)
}

/// The responses of the interactions, in order.
pub open spec fn responses(interactions: Seq<InteractionModel>) -> Seq<Seq<char>> {
    interactions.map_values(|i: InteractionModel| i.response@)
}

/// The questions or the responses of `interactions`, joined with newlines.
fn join_field(interactions: &[InteractionModel], want_question: bool) -> (r: String)
    ensures
        r@ == join_lines(if want_question { questions(interactions@) } else { responses(interactions@) }),
{
    let ghost all = if want_question { questions(interactions@) } else { responses(interactions@) };
    let mut out: Vec<char> = Vec::new();
    let mut i: usize = 0;
    assert(all.take(0) =~= Seq::<Seq<char>>::empty());
    while i < interactions.len()
        invariant
            i <= interactions.len(),
            all == (if want_question { questions(interactions@) } else { responses(interactions@) }),
            all.len() == interactions@.len(),
            out@ == join_lines(all.take(i as int)),
        decreases interactions.len() - i,
    {
        if i > 0 {
            out.push('\n');
        }
        if want_question {
            append_str(&mut out, interactions[i].question.as_str());
        } else {
            append_str(&mut out, interactions[i].response.as_str());
        }
        proof {
            assert(all.take(i + 1).drop_last() =~= all.take(i as int));
            assert(all.take(i + 1).last() == all[i as int]);
            if i == 0 {
                assert(all.take(1) =~= seq![all[0]]);
            }
        }
        i += 1;
    }
    assert(all.take(interactions.len() as int) =~= all);
    string_of(out.as_slice())
}

/// One history entry per history record: its interactions' questions and
/// responses, each joined with newlines.
pub fn history_entry(history: &HistoryModel, interactions: &[InteractionModel]) -> (r: HistoryEntry)
    ensures
        r.id@ == history.id@,
        r.chat_id@ == history.chat_id@,
        r.question@ == join_lines(questions(interactions@)),
        r.response@ == join_lines(responses(interactions@)),
        r.created_at@ == history.created_at@,
{
    HistoryEntry {
        id: history.id.clone(),
        chat_id: history.chat_id.clone(),
        question: join_field(interactions, true),
        response: join_field(interactions, false),
        created_at: history.created_at.clone(),
    }
}

/// History operations are refused while history recording is disabled.
pub fn ensure_history_enabled(history_enabled: bool) -> (r: Result<(), ClaDbusError>)
    ensures
        history_enabled ==> r is Ok,
        !history_enabled ==> r matches Err(ClaDbusError::HistoryNotEnabled),
{
    if history_enabled {
        Ok(())
    } else {
        Err(ClaDbusError::HistoryNotEnabled)
    }
}

/// The view of a history entry.
pub type EntryView = (Seq<char>, Seq<char>, Seq<char>, Seq<char>, Seq<char>);

/// Whether an entry mentions `filter` in its question or its response.
pub open spec fn entry_matches(entry: EntryView, filter: Seq<char>) -> bool {
    contains_seq(entry.2, filter) || contains_seq(entry.3, filter)
}

/// The views of the entries.
pub open spec fn entry_views(entries: Seq<HistoryEntry>) -> Seq<EntryView> {
    entries.map_values(|e: HistoryEntry| e@)
}

/// Whether `pat` occurs in `v`.
fn contains_chars(v: &[char], pat: &[char]) -> (b: bool)
    ensures
        b == contains_seq(v@, pat@),
{
    proof {
        lemma_find_from(v@, pat@, 0);
    }
    match find_chars(v, pat, 0) {
        Some(_) => true,
        None => {
            proof {
                assert forall|i: int| !#[trigger] occurs_at(v@, pat@, i) by {
                    if 0 <= i {
                        assert(!occurs_at(v@, pat@, i));
                    }
                }
            }
            false
        },
    }
}

/// The entries that mention `filter` in their question or response, in order.
pub fn filter_entries(entries: &Vec<HistoryEntry>, filter: &str) -> (r: Vec<HistoryEntry>)
    ensures
        entry_views(r@) == entry_views(entries@).filter(|e: EntryView| entry_matches(e, filter@)),
{
    let f = chars_of(filter);
    let mut out: Vec<HistoryEntry> = Vec::new();
    let mut i: usize = 0;
    proof {
        reveal(Seq::filter);
        assert(entry_views(entries@).take(0) =~= Seq::<EntryView>::empty());
        assert(entry_views(out@) =~= Seq::<EntryView>::empty());
    }
    while i < entries.len()
        invariant
            i <= entries.len(),
            f@ == filter@,
            entry_views(out@) == entry_views(entries@).take(i as int).filter(|e: EntryView| entry_matches(e, filter@)),
        decreases entries.len() - i,
    {
        let q = chars_of(entries[i].question.as_str());
        let a = chars_of(entries[i].response.as_str());
        let keep = contains_chars(q.as_slice(), f.as_slice()) || contains_chars(a.as_slice(), f.as_slice());
        let ghost before = out@;
        if keep {
            out.push(entries[i].duplicate());
        }
        proof {
            reveal(Seq::filter);
            let all = entry_views(entries@);
            assert(all.take(i + 1).drop_last() =~= all.take(i as int));
            assert(all.take(i + 1).last() == entries@[i as int]@);
            if keep {
                assert(entry_views(out@) =~= entry_views(before).push(entries@[i as int]@));
            } else {
                assert(entry_views(out@) =~= entry_views(before));
            }
        }
        i += 1;
    }
    assert(entry_views(entries@).take(entries.len() as int) =~= entry_views(entries@));
    out
}

/// Filtering keeps every entry that mentions the filter: an entry whose
/// question or whose response holds the filter text at some position is in
/// the result.
pub proof fn lemma_filter_keeps_mentions(entries: Seq<EntryView>, filter: Seq<char>, i: int, k: int)
    requires
        0 <= i < entries.len(),
        occurs_at(entries[i].2, filter, k) || occurs_at(entries[i].3, filter, k),
    ensures
        entries.filter(|e: EntryView| entry_matches(e, filter)).contains(entries[i]),
{
    let pred = |e: EntryView| entry_matches(e, filter);
    assert(pred(entries[i]));
    entries.lemma_filter_contains(pred, i);
}

/// Filtering keeps only entries that mention the filter: every kept entry
/// holds the filter text in its question or its response.
pub proof fn lemma_filter_keeps_only_mentions(entries: Seq<EntryView>, filter: Seq<char>, j: int)
    requires
        0 <= j < entries.filter(|e: EntryView| entry_matches(e, filter)).len(),
    ensures
        mentions(entries.filter(|e: EntryView| entry_matches(e, filter))[j], filter),
{
    let pred = |e: EntryView| entry_matches(e, filter);
    entries.lemma_filter_pred(pred, j);
}

/// Whether the question or the response of `e` holds `filter` somewhere.
pub open spec fn mentions(e: EntryView, filter: Seq<char>) -> bool {
    exists|k: int| occurs_at(e.2, filter, k) || occurs_at(e.3, filter, k)
}

} // verus!
