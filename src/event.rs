//! Input events as the dispatcher sees them, and their textual records.
use vstd::prelude::*;

verus! {

/// One raw event from the input feed, tagged with its type. The key is given
/// by its human-readable identifier.
pub enum InputEvent {
    KeyPress(String),
    KeyRelease(String),
    Other,
}

/// The record written for a pressed key: its identifier and a newline.
pub open spec fn record_of(key: Seq<char>) -> Seq<char> {
    key.push('\n')
}

/// Whether the event is one that gets buffered.
pub open spec fn is_key_press(e: InputEvent) -> bool {
    e is KeyPress
}

/// The key-press events of `events`, in order.
pub open spec fn key_presses(events: Seq<InputEvent>) -> Seq<InputEvent>
    decreases events.len(),
{
    if events.len() == 0 {
        events
    } else {
        let rest = key_presses(events.drop_last());
        if is_key_press(events.last()) {
            rest.push(events.last())
        } else {
            rest
        }
    }
}

/// The records of the key-press events of `events`, in order.
pub open spec fn accepted_records(events: Seq<InputEvent>) -> Seq<Seq<char>>
    decreases events.len(),
{
    if events.len() == 0 {
        Seq::empty()
    } else {
        let rest = accepted_records(events.drop_last());
        match events.last() {
            InputEvent::KeyPress(k) => rest.push(record_of(k@)),
            _ => rest,
        }
    }
}

/// The records of `recs` joined, first to last.
pub open spec fn joined(recs: Seq<Seq<char>>) -> Seq<char>
    decreases recs.len(),
{
    if recs.len() == 0 {
        Seq::empty()
    } else {
        joined(recs.drop_last()) + recs.last()
    }
}

/// Formats the record of a pressed key.
pub fn format_record(key: &str) -> (r: String)
    ensures
        r@ == record_of(key@),
{
    let mut r = String::from_str(key);
    let nl = "\n";
    proof {
        reveal_strlit("\n");
    }
    r.append(nl);
    assert(r@ =~= record_of(key@));
    r
}

} // verus!
