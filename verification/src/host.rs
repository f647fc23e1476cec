//! The Soroban host values that the event queries read, and the calls into
//! `soroban_sdk` that read them. A host value (`soroban_sdk::Val`) is a 64-bit
//! word, its payload: the low eight bits are a tag that says what kind of
//! value it is, and the rest is either the value itself (small values) or a
//! handle to an object that the host holds (object values). A symbol is a
//! short name (`a-zA-Z0-9_`, at most 32 characters), held in the payload when
//! it has at most 9 characters and as a host object otherwise; host objects do
//! not change once made.

use vstd::prelude::*;

use soroban_sdk::{Symbol, TryIntoVal, Val};

verus! {

#[verifier::external_type_specification]
#[verifier::external_body]
pub struct ExVal(soroban_sdk::Val);

#[verifier::external_type_specification]
#[verifier::external_body]
pub struct ExAddress(soroban_sdk::Address);

#[verifier::external_type_specification]
#[verifier::external_body]
#[verifier::reject_recursive_types(T)]
pub struct ExHostVec<T>(soroban_sdk::Vec<T>);

/// The event log as the host hands it out (`Env::events().all()`): for each
/// event, the contract that published it, its topics and its data.
pub type HostEvents = soroban_sdk::Vec<(soroban_sdk::Address, soroban_sdk::Vec<soroban_sdk::Val>, soroban_sdk::Val)>;

/// A host vector of untyped values, such as the topics of one event.
pub type HostVals = soroban_sdk::Vec<soroban_sdk::Val>;

/// One host value as the queries see it: its payload, and the characters of
/// the symbol it is, where it is a symbol.
pub type TopicView = (u64, Option<Seq<char>>);

/// One event as the queries see it: its topics, and the payload of its data.
pub type EventView = (Seq<TopicView>, u64);

/// What an event log holds: its events, in order. `None` where the host cannot
/// read it: a handle that the host did not issue (the log's own, or one that it
/// holds), or an item that is not an (address, topics, data) triple.
pub uninterp spec fn host_events(all: HostEvents) -> Option<Seq<EventView>>;

/// What a vector of untyped host values holds: its values, in order. `None`
/// where the host cannot read it: a handle that the host did not issue.
pub uninterp spec fn host_vals(v: HostVals) -> Option<Seq<TopicView>>;

/// The tag that the host gives a small symbol (`Tag::SymbolSmall`).
pub open spec fn is_small_symbol(p: u64) -> bool {
    p % 256 == 14
}

/// The tag that the host gives a symbol held as an object (`Tag::SymbolObject`).
pub open spec fn is_symbol_object(p: u64) -> bool {
    p % 256 == 74
}

/// Whether a payload is tagged as a symbol, the one test that converting a
/// host value to a `Symbol` makes.
pub open spec fn is_symbol(p: u64) -> bool {
    is_small_symbol(p) || is_symbol_object(p)
}

/// A character that a symbol may hold.
pub open spec fn is_symbol_char(c: char) -> bool {
    ('a' <= c && c <= 'z') || ('A' <= c && c <= 'Z') || ('0' <= c && c <= '9') || c == '_'
}

/// A text that `Symbol::new` accepts: at most 32 characters, each of `a-zA-Z0-9_`.
pub open spec fn is_symbol_text(s: Seq<char>) -> bool {
    s.len() <= 32 && forall|k: int| 0 <= k < s.len() ==> #[trigger] is_symbol_char(s[k])
}

/// Whether some topic of some event in the log is a symbol with this payload.
pub open spec fn log_holds_symbol(log: Seq<EventView>, p: u64) -> bool {
    exists|i: int, j: int|
        0 <= i < log.len() && 0 <= j < log[i].0.len() && (#[trigger] log[i].0[j]).0 == p
            && log[i].0[j].1 is Some
}

/// `soroban_sdk::Vec::len` on an event log: the number of events.
#[verifier::external_body]
pub(crate) fn event_count(all: &HostEvents) -> (n: u32)
    requires
        host_events(*all) is Some,
    ensures
        n == host_events(*all)->0.len(),
{
    all.len()
}

/// `soroban_sdk::Vec::get` on an event log: the topics of event `i`, and the
/// payload of its data. The contract that published the event is not handed on.
#[verifier::external_body]
pub(crate) fn event_at(all: &HostEvents, i: u32) -> (res: (HostVals, u64))
    requires
        host_events(*all) is Some,
        i < host_events(*all)->0.len(),
    ensures
        host_vals(res.0) == Some(host_events(*all)->0[i as int].0),
        res.1 == host_events(*all)->0[i as int].1,
{
    let (_contract, topics, data) = all.get(i).unwrap();
    (topics, data.get_payload())
}

/// `soroban_sdk::Vec::len` on a vector of untyped values.
#[verifier::external_body]
pub(crate) fn val_count(v: &HostVals) -> (n: u32)
    requires
        host_vals(*v) is Some,
    ensures
        n == host_vals(*v)->0.len(),
{
    v.len()
}

/// `soroban_sdk::Vec::get` on a vector of untyped values: the payload of item
/// `j`. The item holds a symbol exactly when its payload is tagged as one.
#[verifier::external_body]
pub(crate) fn val_at(v: &HostVals, j: u32) -> (p: u64)
    requires
        host_vals(*v) is Some,
        j < host_vals(*v)->0.len(),
    ensures
        p == host_vals(*v)->0[j as int].0,
        is_symbol(p) <==> host_vals(*v)->0[j as int].1 is Some,
{
    v.get(j).unwrap().get_payload()
}

/// `TryIntoVal::try_into_val` from a host value to a `Symbol`, in the host of
/// the log: it succeeds exactly when the value is tagged as a symbol.
#[verifier::external_body]
pub(crate) fn converts_to_symbol(all: &HostEvents, p: u64) -> (ok: bool)
    ensures
        ok == is_symbol(p),
{
    let res: Result<Symbol, _> = Val::from_payload(p).try_into_val(all.env());
    res.is_ok()
}

/// `Symbol == Symbol` between a symbol that the log holds (by its payload) and
/// the symbol `Symbol::new` makes of `text`, both in the host of the log:
/// symbols compare by their characters, whether held small or as objects.
#[verifier::external_body]
pub(crate) fn symbol_equals_text(all: &HostEvents, p: u64, text: &str) -> (eq: bool)
    requires
        host_events(*all) is Some,
        log_holds_symbol(host_events(*all)->0, p),
        is_symbol_text(text@),
    ensures
        forall|i: int, j: int|
            0 <= i < host_events(*all)->0.len() && 0 <= j < host_events(*all)->0[i].0.len()
                && (#[trigger] host_events(*all)->0[i].0[j]).0 == p
                ==> (eq <==> host_events(*all)->0[i].0[j].1 == Some(text@)),
{
    let held: Result<Symbol, _> = Val::from_payload(p).try_into_val(all.env());
    match held {
        Ok(s) => s == Symbol::new(all.env(), text),
        Err(_) => false,
    }
}

}
