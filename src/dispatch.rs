//! The buffering dispatcher: accepts key presses, and hands the buffered
//! records to a sink as one payload whenever the threshold is reached.
use crate::event::{format_record, joined, record_of, InputEvent};
use crate::sink::{Log, LogError};
use vstd::prelude::*;

verus! {

/// The largest threshold a dispatcher can be made with.
pub const MAX_THRESHOLD: u32 = 1_000_000;

/// What one event does to the buffer `buf` under threshold `t`: the buffer
/// afterwards, and the payload flushed, if any.
pub open spec fn step(t: nat, buf: Seq<Seq<char>>, e: InputEvent) -> (Seq<Seq<char>>, Option<Seq<char>>) {
    match e {
        InputEvent::KeyPress(k) => {
            let b = buf.push(record_of(k@));
            if b.len() >= t {
                (Seq::empty(), Some(joined(b)))
            } else {
                (b, None)
            }
        },
        _ => (buf, None),
    }
}

/// The buffer left and the payloads flushed, in order, after `events` are
/// fed one by one to a dispatcher holding `buf` under threshold `t`.
pub open spec fn trace(t: nat, buf: Seq<Seq<char>>, events: Seq<InputEvent>) -> (Seq<Seq<char>>, Seq<Seq<char>>)
    decreases events.len(),
{
    if events.len() == 0 {
        (buf, Seq::empty())
    } else {
        let prev = trace(t, buf, events.drop_last());
        let next = step(t, prev.0, events.last());
        match next.1 {
            Some(p) => (next.0, prev.1.push(p)),
            None => (next.0, prev.1),
        }
    }
}

/// The text of each string, in order.
pub open spec fn texts(v: Seq<String>) -> Seq<Seq<char>> {
    v.map_values(|s: String| s@)
}

/// The text of an optional string.
pub open spec fn opt_text(r: Option<String>) -> Option<Seq<char>> {
    match r {
        Some(s) => Some(s@),
        None => None,
    }
}

/// Joins `recs` into one string, first to last.
pub fn join_records(recs: &Vec<String>) -> (r: String)
    ensures
        r@ == joined(texts(recs@)),
{
    let mut out = String::new();
    let mut i: usize = 0;
    while i < recs.len()
        invariant
            i <= recs.len(),
            out@ == joined(texts(recs@).take(i as int)),
        decreases recs.len() - i,
    {
        let ghost before = texts(recs@).take(i as int);
        out.append(recs[i].as_str());
        i = i + 1;
        proof {
            let now = texts(recs@).take(i as int);
            assert(now.drop_last() =~= before);
        }
    }
    assert(texts(recs@).take(recs.len() as int) =~= texts(recs@));
    out
}

/// Collects the records of key presses and flushes them in batches.
pub struct Dispatcher {
    records: Vec<String>,
    threshold: u32,
}

impl Dispatcher {
    /// The records buffered and not yet flushed, oldest first.
    pub closed spec fn buffered(&self) -> Seq<Seq<char>> {
        texts(self.records@)
    }

    /// The number of records that triggers a flush.
    pub closed spec fn limit(&self) -> nat {
        self.threshold as nat
    }

    /// The threshold is in range and the buffer holds fewer records than it.
    pub closed spec fn wf(&self) -> bool {
        &&& 1 <= self.threshold <= MAX_THRESHOLD
        &&& self.records.len() < self.threshold
    }

    /// A dispatcher with an empty buffer that flushes every `threshold` key
    /// presses.
    pub fn new(threshold: u32) -> (r: Self)
        requires
            1 <= threshold <= MAX_THRESHOLD,
        ensures
            r.wf(),
            r.limit() == threshold,
            r.buffered() == Seq::<Seq<char>>::empty(),
    {
        let r = Dispatcher { records: Vec::new(), threshold };
        assert(r.buffered() =~= Seq::<Seq<char>>::empty());
        r
    }

    /// The number of records that triggers a flush.
    pub fn threshold(&self) -> (r: u32)
        ensures
            r == self.limit(),
    {
        self.threshold
    }

    /// The number of records buffered.
    pub fn len(&self) -> (r: usize)
        ensures
            r == self.buffered().len(),
    {
        self.records.len()
    }

    /// The records buffered, oldest first.
    pub fn buffered_records(&self) -> (r: Vec<String>)
        ensures
            texts(r@) == self.buffered(),
    {
        self.records.clone()
    }

    /// Takes one event. A key press is formatted and buffered; when the
    /// buffer reaches the threshold its records are joined, the buffer is
    /// cleared, and the joined payload is returned for the sink. Other
    /// events change nothing.
    pub fn accept(&mut self, event: &InputEvent) -> (r: Option<String>)
        requires
            old(self).wf(),
        ensures
            final(self).wf(),
            final(self).limit() == old(self).limit(),
            final(self).buffered() == step(old(self).limit(), old(self).buffered(), *event).0,
            opt_text(r) == step(old(self).limit(), old(self).buffered(), *event).1,
    {
        match event {
            InputEvent::KeyPress(key) => {
                let rec = format_record(key.as_str());
                let ghost before = self.records@;
                self.records.push(rec);
                assert(texts(self.records@) =~= texts(before).push(record_of(key@)));
                if self.records.len() >= self.threshold as usize {
                    let payload = join_records(&self.records);
                    self.records.clear();
                    assert(texts(self.records@) =~= Seq::<Seq<char>>::empty());
                    Some(payload)
                } else {
                    None
                }
            },
            _ => None,
        }
    }

    /// Takes one event as `accept` does, and hands a payload that comes due
    /// to `sink` in one call. The buffer is cleared whether or not the sink
    /// takes the payload; its error is returned as it came.
    pub fn dispatch<L: Log>(&mut self, sink: &L, event: &InputEvent) -> (r: Result<(), LogError>)
        requires
            old(self).wf(),
        ensures
            final(self).wf(),
            final(self).limit() == old(self).limit(),
            final(self).buffered() == step(old(self).limit(), old(self).buffered(), *event).0,
            step(old(self).limit(), old(self).buffered(), *event).1 is None ==> r is Ok,
    {
        match self.accept(event) {
            Some(payload) => sink.log(payload.as_str()),
            None => Ok(()),
        }
    }
}

} // verus!
