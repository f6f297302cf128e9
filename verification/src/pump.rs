//! The input pump: gathers locally typed bytes into complete lines.
//!
//! Each poll hands the pump whatever bytes are available right now
//! (possibly none). The pump appends them to a pending buffer and gives
//! back every complete newline-terminated line, newline stripped, in
//! order; the trailing unterminated segment stays buffered for the next
//! poll, so no byte is ever lost.

use vstd::prelude::*;

verus! {

/// The byte that terminates a line.
pub const LINE_END: u8 = 10;

/// The complete lines of `buf`, in order: the maximal newline-free
/// segments each of which is followed by a newline byte in `buf`.
pub open spec fn complete_lines(buf: Seq<u8>) -> Seq<Seq<u8>>
    decreases buf.len(),
{
    if buf.len() == 0 {
        Seq::empty()
    } else if buf.last() == LINE_END {
        complete_lines(buf.drop_last()).push(pending_rest(buf.drop_last()))
    } else {
        complete_lines(buf.drop_last())
    }
}

/// What `buf` leaves pending: its bytes after the last newline, or all
/// of `buf` if it has no newline.
pub open spec fn pending_rest(buf: Seq<u8>) -> Seq<u8>
    decreases buf.len(),
{
    if buf.len() == 0 {
        Seq::empty()
    } else if buf.last() == LINE_END {
        Seq::empty()
    } else {
        pending_rest(buf.drop_last()).push(buf.last())
    }
}

/// The lines joined back together, each followed by its newline.
pub open spec fn join_lines(lines: Seq<Seq<u8>>) -> Seq<u8>
    decreases lines.len(),
{
    if lines.len() == 0 {
        Seq::empty()
    } else {
        join_lines(lines.drop_last()) + lines.last().push(LINE_END)
    }
}

/// Splitting loses nothing: the complete lines of `buf`, rejoined with
/// their newlines and followed by the pending rest, are `buf` itself.
pub proof fn lemma_lines_round_trip(buf: Seq<u8>)
    ensures
        join_lines(complete_lines(buf)) + pending_rest(buf) == buf,
    decreases buf.len(),
{
    if buf.len() == 0 {
        assert(join_lines(complete_lines(buf)) + pending_rest(buf) =~= buf);
    } else {
        let d = buf.drop_last();
        lemma_lines_round_trip(d);
        if buf.last() == LINE_END {
            let l = complete_lines(d);
            let r = pending_rest(d);
            assert(l.push(r).drop_last() =~= l);
            assert(join_lines(complete_lines(buf)) + pending_rest(buf) =~= (join_lines(l) + r)
                .push(LINE_END));
            assert(d.push(buf.last()) =~= buf);
        } else {
            assert(join_lines(complete_lines(buf)) + pending_rest(buf) =~= (join_lines(
                complete_lines(d),
            ) + pending_rest(d)).push(buf.last()));
            assert(d.push(buf.last()) =~= buf);
        }
    }
}

/// No complete line contains a newline, and neither does the pending
/// rest.
pub proof fn lemma_lines_newline_free(buf: Seq<u8>)
    ensures
        forall|i: int|
            0 <= i < complete_lines(buf).len() ==> !complete_lines(buf)[i].contains(LINE_END),
        !pending_rest(buf).contains(LINE_END),
    decreases buf.len(),
{
    if buf.len() == 0 {
    } else {
        let d = buf.drop_last();
        lemma_lines_newline_free(d);
        if buf.last() == LINE_END {
            let l = complete_lines(d);
            let r = pending_rest(d);
            assert(forall|i: int| 0 <= i < l.len() ==> l.push(r)[i] == l[i]);
            assert(l.push(r)[l.len() as int] == r);
        } else {
            let r = pending_rest(d);
            assert(forall|i: int| 0 <= i < r.len() ==> r.push(buf.last())[i] == r[i]);
        }
    }
}

/// Joining distributes over appending line sequences.
pub proof fn lemma_join_append(a: Seq<Seq<u8>>, b: Seq<Seq<u8>>)
    ensures
        join_lines(a + b) == join_lines(a) + join_lines(b),
    decreases b.len(),
{
    if b.len() == 0 {
        assert(a + b =~= a);
        assert(join_lines(a) + join_lines(b) =~= join_lines(a));
    } else {
        lemma_join_append(a, b.drop_last());
        assert((a + b).drop_last() =~= a + b.drop_last());
        assert(join_lines(a) + join_lines(b) =~= (join_lines(a) + join_lines(b.drop_last()))
            + b.last().push(LINE_END));
    }
}

/// All the lines a fresh sequence of polls produces, oldest first,
/// starting from a pending buffer `pending`.
pub open spec fn run_lines(pending: Seq<u8>, inputs: Seq<Seq<u8>>) -> Seq<Seq<u8>>
    decreases inputs.len(),
{
    if inputs.len() == 0 {
        Seq::empty()
    } else {
        complete_lines(pending + inputs.first()) + run_lines(
            pending_rest(pending + inputs.first()),
            inputs.drop_first(),
        )
    }
}

/// The pending buffer left after a sequence of polls.
pub open spec fn run_pending(pending: Seq<u8>, inputs: Seq<Seq<u8>>) -> Seq<u8>
    decreases inputs.len(),
{
    if inputs.len() == 0 {
        pending
    } else {
        run_pending(pending_rest(pending + inputs.first()), inputs.drop_first())
    }
}

/// All the fed bytes, in order.
pub open spec fn concat_inputs(inputs: Seq<Seq<u8>>) -> Seq<u8>
    decreases inputs.len(),
{
    if inputs.len() == 0 {
        Seq::empty()
    } else {
        inputs.first() + concat_inputs(inputs.drop_first())
    }
}

/// Polling loses no byte, however the fed bytes are cut into polls: the
/// concatenation of every line produced, newlines reinserted, followed
/// by the final pending buffer, equals the initial pending buffer
/// followed by all the fed bytes.
pub proof fn lemma_pump_round_trip(pending: Seq<u8>, inputs: Seq<Seq<u8>>)
    ensures
        join_lines(run_lines(pending, inputs)) + run_pending(pending, inputs) == pending
            + concat_inputs(inputs),
    decreases inputs.len(),
{
    if inputs.len() == 0 {
        assert(join_lines(run_lines(pending, inputs)) + run_pending(pending, inputs) =~= pending
            + concat_inputs(inputs));
    } else {
        let whole = pending + inputs.first();
        let rest = inputs.drop_first();
        lemma_lines_round_trip(whole);
        lemma_pump_round_trip(pending_rest(whole), rest);
        lemma_join_append(complete_lines(whole), run_lines(pending_rest(whole), rest));
        assert(join_lines(run_lines(pending, inputs)) + run_pending(pending, inputs)
            =~= join_lines(complete_lines(whole)) + (join_lines(run_lines(pending_rest(whole), rest))
            + run_pending(pending_rest(whole), rest)));
        assert(join_lines(complete_lines(whole)) + (pending_rest(whole) + concat_inputs(rest))
            =~= (join_lines(complete_lines(whole)) + pending_rest(whole)) + concat_inputs(rest));
        assert(whole + concat_inputs(rest) =~= pending + concat_inputs(inputs));
    }
}

/// Accumulates bytes until a newline completes each line.
pub struct InputPump {
    pending: Vec<u8>,
}

impl View for InputPump {
    type V = Seq<u8>;

    closed spec fn view(&self) -> Seq<u8> {
        self.pending@
    }
}

impl InputPump {
    /// A pump with nothing buffered.
    pub fn new() -> (r: InputPump)
        ensures
            r@ == Seq::<u8>::empty(),
    {
        InputPump { pending: Vec::new() }
    }

    /// The bytes typed so far that no newline has completed yet.
    pub fn pending_bytes(&self) -> (r: &Vec<u8>)
        ensures
            r@ == self@,
    {
        &self.pending
    }

    /// Appends the freshly read bytes and extracts every complete line,
    /// in order, leaving the trailing unterminated segment pending.
    pub fn poll(&mut self, input: &[u8]) -> (lines: Vec<Vec<u8>>)
        ensures
            lines@.map_values(|l: Vec<u8>| l@) == complete_lines(old(self)@ + input@),
            final(self)@ == pending_rest(old(self)@ + input@),
    {
        let ghost whole: Seq<u8> = old(self)@ + input@;
        let mut i: usize = 0;
        while i < input.len()
            invariant
                i <= input.len(),
                self.pending@ == old(self)@ + input@.take(i as int),
            decreases input.len() - i,
        {
            self.pending.push(input[i]);
            proof {
                assert(old(self)@ + input@.take(i as int + 1) =~= (old(self)@ + input@.take(
                    i as int,
                )).push(input@[i as int]));
            }
            i = i + 1;
        }
        assert(self.pending@ =~= whole);
        let mut lines: Vec<Vec<u8>> = Vec::new();
        let mut cur: Vec<u8> = Vec::new();
        let mut j: usize = 0;
        while j < self.pending.len()
            invariant
                j <= self.pending.len(),
                self.pending@ == whole,
                lines@.map_values(|l: Vec<u8>| l@) == complete_lines(whole.take(j as int)),
                cur@ == pending_rest(whole.take(j as int)),
            decreases self.pending.len() - j,
        {
            let b = self.pending[j];
            proof {
                assert(whole.take(j as int + 1).drop_last() =~= whole.take(j as int));
                assert(whole.take(j as int + 1).last() == b);
            }
            if b == LINE_END {
                let ghost prior = lines@.map_values(|l: Vec<u8>| l@);
                lines.push(cur);
                cur = Vec::new();
                proof {
                    assert(lines@.map_values(|l: Vec<u8>| l@) =~= prior.push(
                        pending_rest(whole.take(j as int)),
                    ));
                }
            } else {
                cur.push(b);
            }
            j = j + 1;
        }
        assert(whole.take(self.pending.len() as int) =~= whole);
        self.pending = cur;
        lines
    }
}

} // verus!
