//! Searching an event log for the events whose first topic is a given symbol.
//!
//! An event's first topic names what happened (`init`, `f_lock`, ...); its
//! data carries the details. A query looks for the events whose first topic is
//! the symbol asked for.

use vstd::prelude::*;

use crate::host::{
    converts_to_symbol, event_at, event_count, host_events, is_symbol_text, log_holds_symbol,
    symbol_equals_text, val_at, val_count, EventView, HostEvents,
};

verus! {

/// The characters of an event's first topic, where it has one and it is a symbol.
pub open spec fn leading_symbol(ev: EventView) -> Option<Seq<char>> {
    if ev.0.len() > 0 {
        ev.0[0].1
    } else {
        None
    }
}

/// Whether an event's first topic is the symbol `sym`.
pub open spec fn leads_with(ev: EventView, sym: Seq<char>) -> bool {
    leading_symbol(ev) == Some(sym)
}

/// Whether some event of the log leads with `sym`.
pub open spec fn log_has_topic(log: Seq<EventView>, sym: Seq<char>) -> bool {
    exists|i: int| 0 <= i < log.len() && #[trigger] leads_with(log[i], sym)
}

/// The index of the first event at or after `from` that leads with `sym`.
pub open spec fn first_match_from(log: Seq<EventView>, sym: Seq<char>, from: int) -> Option<int>
    decreases log.len() - from,
{
    if from < 0 || from >= log.len() {
        None
    } else if leads_with(log[from], sym) {
        Some(from)
    } else {
        first_match_from(log, sym, from + 1)
    }
}

/// The index of the first event of the log that leads with `sym`.
pub open spec fn first_match(log: Seq<EventView>, sym: Seq<char>) -> Option<int> {
    first_match_from(log, sym, 0)
}

/// The data of the first event of the log that leads with `sym`.
pub open spec fn log_find_data(log: Seq<EventView>, sym: Seq<char>) -> Option<u64> {
    match first_match(log, sym) {
        Some(i) => Some(log[i].1),
        None => None,
    }
}

/// The first match from `from` on is the first index at or after `from` whose
/// event leads with `sym`.
proof fn lemma_first_match_from(log: Seq<EventView>, sym: Seq<char>, from: int)
    requires
        0 <= from <= log.len(),
    ensures
        first_match_from(log, sym, from) matches Some(i) ==> {
            &&& from <= i < log.len()
            &&& leads_with(log[i], sym)
            &&& forall|k: int| from <= k < i ==> !#[trigger] leads_with(log[k], sym)
        },
        first_match_from(log, sym, from) is None ==> forall|k: int|
            from <= k < log.len() ==> !#[trigger] leads_with(log[k], sym),
    decreases log.len() - from,
{
    if from < log.len() {
        lemma_first_match_from(log, sym, from + 1);
    }
}

/// What characterises the first match: an index whose event leads with `sym`
/// and before which no event does is the first match.
proof fn lemma_first_match_is(log: Seq<EventView>, sym: Seq<char>, i: int)
    requires
        0 <= i < log.len(),
        leads_with(log[i], sym),
        forall|k: int| 0 <= k < i ==> !#[trigger] leads_with(log[k], sym),
    ensures
        first_match(log, sym) == Some(i),
{
    lemma_first_match_from(log, sym, 0);
}

/// Looking up an event's data and asking whether such an event exists agree:
/// the data is found exactly when some event leads with the symbol.
pub proof fn law_find_data_agrees_with_has_topic(log: Seq<EventView>, sym: Seq<char>)
    ensures
        log_find_data(log, sym) is Some <==> log_has_topic(log, sym),
{
    lemma_first_match_from(log, sym, 0);
}

/// The data found is that of the first event leading with the symbol: that
/// event leads with it, and no event before it does.
pub proof fn law_find_data_takes_first_match(log: Seq<EventView>, sym: Seq<char>, d: u64)
    requires
        log_find_data(log, sym) == Some(d),
    ensures
        exists|i: int|
            0 <= i < log.len() && #[trigger] leads_with(log[i], sym) && log[i].1 == d
                && forall|k: int| 0 <= k < i ==> !#[trigger] leads_with(log[k], sym),
{
    lemma_first_match_from(log, sym, 0);
    let i = first_match(log, sym)->0;
    assert(leads_with(log[i], sym));
}

/// Appending events never takes a found answer away, nor changes it: the data
/// found in a log is still the data found once more events follow it.
pub proof fn law_append_keeps_answer(log: Seq<EventView>, more: Seq<EventView>, sym: Seq<char>)
    ensures
        log_has_topic(log, sym) ==> log_has_topic(log + more, sym),
        log_find_data(log, sym) is Some ==> log_find_data(log + more, sym) == log_find_data(log, sym),
{
    let all = log + more;
    lemma_first_match_from(log, sym, 0);
    if log_has_topic(log, sym) {
        let i = choose|i: int| 0 <= i < log.len() && #[trigger] leads_with(log[i], sym);
        assert(all[i] == log[i]);
        assert(leads_with(all[i], sym));
    }
    if let Some(i) = first_match(log, sym) {
        assert forall|k: int| 0 <= k < i implies !#[trigger] leads_with(all[k], sym) by {
            assert(all[k] == log[k]);
        }
        assert(all[i] == log[i]);
        lemma_first_match_is(all, sym, i);
    }
}

/// An event that does not lead with the symbol changes nothing, wherever it
/// stands in the log.
pub proof fn law_other_event_changes_nothing(
    before: Seq<EventView>,
    ev: EventView,
    after: Seq<EventView>,
    sym: Seq<char>,
)
    requires
        !leads_with(ev, sym),
    ensures
        log_has_topic(before + seq![ev] + after, sym) == log_has_topic(before + after, sym),
        log_find_data(before + seq![ev] + after, sym) == log_find_data(before + after, sym),
{
    let with = before + seq![ev] + after;
    let without = before + after;
    let n = before.len() as int;
    assert forall|k: int| 0 <= k < n implies with[k] == without[k] by {}
    assert forall|k: int| n < k < with.len() implies with[k] == without[k - 1] by {}
    assert(with[n] == ev);
    if log_has_topic(with, sym) {
        let i = choose|i: int| 0 <= i < with.len() && #[trigger] leads_with(with[i], sym);
        if i < n {
            assert(leads_with(without[i], sym));
        } else {
            assert(leads_with(without[i - 1], sym));
        }
    }
    if log_has_topic(without, sym) {
        let i = choose|i: int| 0 <= i < without.len() && #[trigger] leads_with(without[i], sym);
        if i < n {
            assert(leads_with(with[i], sym));
        } else {
            assert(with[i + 1] == without[i]);
            assert(leads_with(with[i + 1], sym));
        }
    }
    lemma_first_match_from(with, sym, 0);
    lemma_first_match_from(without, sym, 0);
    if let Some(i) = first_match(without, sym) {
        if i < n {
            assert forall|k: int| 0 <= k < i implies !#[trigger] leads_with(with[k], sym) by {
                assert(with[k] == without[k]);
            }
            lemma_first_match_is(with, sym, i);
        } else {
            assert forall|k: int| 0 <= k < i + 1 implies !#[trigger] leads_with(with[k], sym) by {
                if k < n {
                    assert(with[k] == without[k]);
                } else if k > n {
                    assert(with[k] == without[k - 1]);
                }
            }
            assert(with[i + 1] == without[i]);
            lemma_first_match_is(with, sym, i + 1);
        }
    } else {
        assert(!log_has_topic(without, sym));
        assert(!log_has_topic(with, sym));
    }
}

/// Only the leading topics matter, and not their order: two logs in which the
/// same symbols lead some event agree on whether a symbol leads one.
pub proof fn law_has_topic_depends_on_leading_symbols(a: Seq<EventView>, b: Seq<EventView>, sym: Seq<char>)
    requires
        forall|i: int| 0 <= i < a.len() ==> exists|j: int|
            0 <= j < b.len() && leading_symbol(b[j]) == #[trigger] leading_symbol(a[i]),
        forall|j: int| 0 <= j < b.len() ==> exists|i: int|
            0 <= i < a.len() && leading_symbol(a[i]) == #[trigger] leading_symbol(b[j]),
    ensures
        log_has_topic(a, sym) == log_has_topic(b, sym),
{
    if log_has_topic(a, sym) {
        let i = choose|i: int| 0 <= i < a.len() && #[trigger] leads_with(a[i], sym);
        let _ = leading_symbol(a[i]);
        let j = choose|j: int| 0 <= j < b.len() && leading_symbol(b[j]) == leading_symbol(a[i]);
        assert(leads_with(b[j], sym));
    }
    if log_has_topic(b, sym) {
        let j = choose|j: int| 0 <= j < b.len() && #[trigger] leads_with(b[j], sym);
        let _ = leading_symbol(b[j]);
        let i = choose|i: int| 0 <= i < a.len() && leading_symbol(a[i]) == leading_symbol(b[j]);
        assert(leads_with(a[i], sym));
    }
}

/// The data of the first event in the log whose first topic is the symbol
/// `sym`, as the payload of that data; `None` where no event leads with `sym`.
pub fn find_data(all: &HostEvents, sym: &str) -> (res: Option<u64>)
    requires
        host_events(*all) is Some,
        is_symbol_text(sym@),
    ensures
        res == log_find_data(host_events(*all)->0, sym@),
{
    let ghost log = host_events(*all)->0;
    let n = event_count(all);
    let mut i: u32 = 0;
    while i < n
        invariant
            host_events(*all) == Some(log),
            n == log.len(),
            i <= n,
            is_symbol_text(sym@),
            forall|k: int| 0 <= k < i ==> !#[trigger] leads_with(log[k], sym@),
        decreases n - i,
    {
        let (topics, data) = event_at(all, i);
        if val_count(&topics) > 0 {
            let t = val_at(&topics, 0);
            if converts_to_symbol(all, t) {
                assert(log[i as int].0[0].0 == t);
                assert(log_holds_symbol(log, t));
                if symbol_equals_text(all, t, sym) {
                    assert(leads_with(log[i as int], sym@));
                    proof {
                        lemma_first_match_is(log, sym@, i as int);
                    }
                    return Some(data);
                }
                assert(!leads_with(log[i as int], sym@));
            }
        }
        i += 1;
    }
    proof {
        lemma_first_match_from(log, sym@, 0);
    }
    None
}

/// An event counts as leading with `sym` exactly when it has a first topic and
/// that topic is the symbol `sym`: its data, its later topics and their number,
/// and the length of `sym` play no part. So the symbol is found in a log
/// exactly when some event's first topic is that symbol.
pub proof fn law_has_topic_reads_first_topics_only(log: Seq<EventView>, sym: Seq<char>)
    ensures
        log_has_topic(log, sym) <==> exists|i: int|
            0 <= i < log.len() && log[i].0.len() > 0 && (#[trigger] log[i].0[0]).1 == Some(sym),
{
    if log_has_topic(log, sym) {
        let i = choose|i: int| 0 <= i < log.len() && #[trigger] leads_with(log[i], sym);
        assert(log[i].0[0].1 == Some(sym));
    }
    if exists|i: int| 0 <= i < log.len() && log[i].0.len() > 0 && (#[trigger] log[i].0[0]).1 == Some(sym) {
        let i = choose|i: int| 0 <= i < log.len() && log[i].0.len() > 0 && (#[trigger] log[i].0[0]).1 == Some(sym);
        assert(leads_with(log[i], sym));
    }
}

/// The data found is that of the first event whose first topic is the symbol
/// `sym`, whatever that data is and whatever topics follow the first.
pub proof fn law_find_data_gives_first_led_event(log: Seq<EventView>, sym: Seq<char>, i: int)
    requires
        0 <= i < log.len(),
        log[i].0.len() > 0,
        log[i].0[0].1 == Some(sym),
        forall|k: int| 0 <= k < i ==> !(log[k].0.len() > 0 && (#[trigger] log[k].0[0]).1 == Some(sym)),
    ensures
        log_find_data(log, sym) == Some(log[i].1),
{
    assert forall|k: int| 0 <= k < i implies !#[trigger] leads_with(log[k], sym) by {
        if leads_with(log[k], sym) {
            assert(log[k].0[0].1 == Some(sym));
        }
    }
    assert(leads_with(log[i], sym));
    lemma_first_match_is(log, sym, i);
}

/// Nothing is found exactly when no event's first topic is the symbol `sym`;
/// and what is found is the data of an event whose first topic is `sym`, with
/// no earlier event led by `sym`.
pub proof fn law_find_data_result(log: Seq<EventView>, sym: Seq<char>)
    ensures
        log_find_data(log, sym) is None <==> forall|k: int|
            0 <= k < log.len() ==> !(log[k].0.len() > 0 && (#[trigger] log[k].0[0]).1 == Some(sym)),
        log_find_data(log, sym) matches Some(d) ==> exists|i: int|
            0 <= i < log.len() && log[i].0.len() > 0 && (#[trigger] log[i].0[0]).1 == Some(sym)
                && log[i].1 == d
                && forall|k: int| 0 <= k < i ==> !(log[k].0.len() > 0 && (#[trigger] log[k].0[0]).1 == Some(sym)),
{
    lemma_first_match_from(log, sym, 0);
    law_has_topic_reads_first_topics_only(log, sym);
    law_find_data_agrees_with_has_topic(log, sym);
    if let Some(i) = first_match(log, sym) {
        assert(leads_with(log[i], sym));
        assert forall|k: int| 0 <= k < i implies !(log[k].0.len() > 0 && (#[trigger] log[k].0[0]).1 == Some(sym)) by {
            if log[k].0.len() > 0 && log[k].0[0].1 == Some(sym) {
                assert(leads_with(log[k], sym));
            }
        }
        assert(log[i].0[0].1 == Some(sym));
    }
}

/// Whether the log holds an event whose first topic is the symbol `sym`.
pub fn has_topic(all: &HostEvents, sym: &str) -> (found: bool)
    requires
        host_events(*all) is Some,
        is_symbol_text(sym@),
    ensures
        found == log_has_topic(host_events(*all)->0, sym@),
{
    proof {
        law_find_data_agrees_with_has_topic(host_events(*all)->0, sym@);
    }
    find_data(all, sym).is_some()
}

}
