//! Properties of feeding a dispatcher a whole sequence of events.
use crate::dispatch::{step, trace};
use crate::event::{accepted_records, is_key_press, joined, key_presses, record_of, InputEvent};
use vstd::arithmetic::div_mod::{lemma_fundamental_div_mod, lemma_fundamental_div_mod_converse, lemma_mod_pos_bound};
use vstd::arithmetic::mul::lemma_mul_inequality;
use vstd::prelude::*;

verus! {

/// How the quotient and remainder by `t` move when `n` grows by one.
proof fn lemma_div_step(n: int, t: int)
    requires
        n >= 0,
        t >= 1,
    ensures
        0 <= n % t < t,
        n / t >= 0,
        (n / t) * t == n - n % t,
        n % t + 1 < t ==> (n + 1) / t == n / t && (n + 1) % t == n % t + 1,
        n % t + 1 == t ==> (n + 1) / t == n / t + 1 && (n + 1) % t == 0,
{
    lemma_fundamental_div_mod(n, t);
    lemma_mod_pos_bound(n, t);
    assert(t * (n / t) == (n / t) * t) by (nonlinear_arith);
    if n / t < 0 {
        assert((n / t) * t <= -t) by (nonlinear_arith)
            requires n / t < 0, t >= 1;
    }
    if n % t + 1 < t {
        lemma_fundamental_div_mod_converse(n + 1, t, n / t, n % t + 1);
    } else {
        assert((n / t + 1) * t == (n / t) * t + t) by (nonlinear_arith);
        lemma_fundamental_div_mod_converse(n + 1, t, n / t + 1, 0);
    }
}

/// With threshold `t`, starting from an empty buffer, the key presses among
/// `events` are flushed in batches of exactly `t` records, in arrival order:
/// there are `n / t` flushes for `n` key presses, and the last `n % t` records
/// stay buffered.
pub proof fn lemma_flush_batches(t: nat, events: Seq<InputEvent>)
    requires
        t >= 1,
    ensures
        ({
            let recs = accepted_records(events);
            let n = recs.len();
            let (buf, out) = trace(t, Seq::empty(), events);
            &&& out.len() == n / t
            &&& forall|i: int|
                0 <= i < out.len() ==> #[trigger] out[i] == joined(recs.subrange(i * t, (i + 1) * t))
            &&& buf == recs.subrange(n - n % t, n as int)
        }),
    decreases events.len(),
{
    let recs = accepted_records(events);
    let n = recs.len() as int;
    let ti = t as int;
    if events.len() == 0 {
        lemma_div_step(0, ti);
        assert(0int / ti == 0) by (nonlinear_arith) requires ti >= 1;
        assert(recs.subrange(0, 0) =~= Seq::<Seq<char>>::empty());
    } else {
        let pre = events.drop_last();
        lemma_flush_batches(t, pre);
        let recs0 = accepted_records(pre);
        let n0 = recs0.len() as int;
        let (buf0, out0) = trace(t, Seq::empty(), pre);
        lemma_div_step(n0, ti);
        let q0 = n0 / ti;
        match events.last() {
            InputEvent::KeyPress(k) => {
                let rec = record_of(k@);
                assert(recs == recs0.push(rec));
                let b = buf0.push(rec);
                assert(b =~= recs.subrange(n0 - n0 % ti, n));
                assert forall|i: int| 0 <= i < out0.len() implies
                    #[trigger] out0[i] == joined(recs.subrange(i * ti, (i + 1) * ti)) by {
                    lemma_mul_inequality(i + 1, q0, ti);
                    lemma_mul_inequality(0, i, ti);
                    assert(i * ti <= (i + 1) * ti) by (nonlinear_arith) requires ti >= 1;
                    assert(recs.subrange(i * ti, (i + 1) * ti) =~= recs0.subrange(i * ti, (i + 1) * ti));
                }
                if b.len() >= t {
                    let out = out0.push(joined(b));
                    assert((q0 + 1) * ti == q0 * ti + ti) by (nonlinear_arith);
                    assert forall|i: int| 0 <= i < out.len() implies
                        #[trigger] out[i] == joined(recs.subrange(i * ti, (i + 1) * ti)) by {
                        if i < out0.len() {
                            assert(out[i] == out0[i]);
                        }
                    }
                    assert(recs.subrange(n - n % ti, n) =~= Seq::<Seq<char>>::empty());
                } else {
                }
            },
            _ => {
                assert(recs == recs0);
            },
        }
    }
}

/// Events other than key presses leave no trace: feeding `events` gives the
/// same buffer and the same payloads as feeding only its key presses.
pub proof fn lemma_only_key_presses_flushed(t: nat, buf: Seq<Seq<char>>, events: Seq<InputEvent>)
    ensures
        trace(t, buf, events) == trace(t, buf, key_presses(events)),
    decreases events.len(),
{
    if events.len() > 0 {
        let pre = events.drop_last();
        lemma_only_key_presses_flushed(t, buf, pre);
        if is_key_press(events.last()) {
            let kp = key_presses(events);
            assert(kp.drop_last() =~= key_presses(pre));
        }
    }
}

/// With threshold one, every key press is flushed on its own, as its single
/// record, and nothing stays buffered.
pub proof fn lemma_threshold_one(events: Seq<InputEvent>)
    ensures
        trace(1, Seq::empty(), events).0 == Seq::<Seq<char>>::empty(),
        trace(1, Seq::empty(), events).1 == accepted_records(events),
    decreases events.len(),
{
    if events.len() > 0 {
        let pre = events.drop_last();
        lemma_threshold_one(pre);
        match events.last() {
            InputEvent::KeyPress(k) => {
                let one = Seq::<Seq<char>>::empty().push(record_of(k@));
                assert(one.drop_last() =~= Seq::<Seq<char>>::empty());
                assert(joined(Seq::<Seq<char>>::empty()) == Seq::<char>::empty());
                assert(joined(one) =~= record_of(k@));
            },
            _ => {},
        }
    }
}

} // verus!
