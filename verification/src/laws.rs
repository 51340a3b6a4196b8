//! Global laws of the lifecycle machine, stated over the endpoint's
//! mathematical model: lockstep call sequences are always accepted, and
//! records within a batch are numbered in push order.

use vstd::prelude::*;
use crate::endpoint::{
    expected_step, published_of, sat_next, spec_batch_start, spec_commit, spec_push,
    spec_push_seq, EndpointModel, FtState, PushInput,
};
use crate::log::PublishedModel;
use crate::position::OutputPosition;

verus! {

/// Whether a run of batches, whose steps count up one by one from `k`, is
/// accepted call after call: each `batch_start` succeeds, the batch's pushes
/// are applied, and the fully acknowledged `batch_end` closes it.
pub open spec fn lockstep_run_ok(m: EndpointModel, k: u64, batches: Seq<Seq<PushInput>>) -> bool
    decreases batches.len(),
{
    if batches.len() == 0 {
        true
    } else {
        let started = spec_batch_start(m, k);
        &&& started.1 is Ok
        &&& lockstep_run_ok(
            spec_commit(spec_push_seq(started.0, batches.first())),
            sat_next(k),
            batches.drop_first(),
        )
    }
}

/// However many records are pushed, the batch stays open at the same step
/// and the next expected first-batch step is untouched.
proof fn lemma_push_seq_state(opened: EndpointModel, rs: Seq<PushInput>)
    requires
        opened.state is BatchOpen,
    ensures
        spec_push_seq(opened, rs).state is BatchOpen,
        spec_push_seq(opened, rs).state->BatchOpen_0.step == opened.state->BatchOpen_0.step,
        spec_push_seq(opened, rs).next_step == opened.next_step,
    decreases rs.len(),
{
    if rs.len() > 0 {
        lemma_push_seq_state(opened, rs.drop_last());
    }
}

/// Pushes keep the batch open at the same step, append their records in
/// order at consecutive substeps, and leave earlier records untouched.
proof fn lemma_push_seq_detail(opened: EndpointModel, rs: Seq<PushInput>)
    requires
        opened.state is BatchOpen,
        opened.state->BatchOpen_0.substep + rs.len() <= u64::MAX,
    ensures
        spec_push_seq(opened, rs).state is BatchOpen,
        spec_push_seq(opened, rs).state->BatchOpen_0.step == opened.state->BatchOpen_0.step,
        spec_push_seq(opened, rs).state->BatchOpen_0.substep == opened.state->BatchOpen_0.substep
            + rs.len(),
        spec_push_seq(opened, rs).next_step == opened.next_step,
        spec_push_seq(opened, rs).buffer.len() == opened.buffer.len() + rs.len(),
        forall|i: int|
            0 <= i < opened.buffer.len() ==> spec_push_seq(opened, rs).buffer[i]
                == opened.buffer[i],
        forall|i: int|
            0 <= i < rs.len() ==> {
                let rec = #[trigger] spec_push_seq(opened, rs).buffer[opened.buffer.len() + i];
                &&& rec.position.step == opened.state->BatchOpen_0.step
                &&& rec.position.substep == opened.state->BatchOpen_0.substep + i
                &&& rec.payload == rs[i].payload
                &&& rec.headers == rs[i].headers
            },
    decreases rs.len(),
{
    if rs.len() > 0 {
        lemma_push_seq_detail(opened, rs.drop_last());
        let prev = spec_push_seq(opened, rs.drop_last());
        let last = rs.last();
        assert(spec_push_seq(opened, rs) == spec_push(prev, last.payload, last.headers));
    }
}

/// For all valid call sequences whose `batch_start` steps begin at the
/// expected step and increase by exactly one per batch, the state machine
/// accepts every call, whatever each batch pushes.
pub proof fn lemma_lockstep_accepted(m: EndpointModel, k: u64, batches: Seq<Seq<PushInput>>)
    requires
        expected_step(m) == Some(k),
        k + batches.len() <= u64::MAX,
    ensures
        lockstep_run_ok(m, k, batches),
    decreases batches.len(),
{
    if batches.len() > 0 {
        let started = spec_batch_start(m, k);
        assert(started.1 is Ok);
        let opened = started.0;
        lemma_push_seq_state(opened, batches.first());
        let closed = spec_commit(spec_push_seq(opened, batches.first()));
        assert(closed.state == FtState::BatchClosed(k));
        assert(expected_step(closed) == Some(sat_next(k)));
        lemma_lockstep_accepted(closed, sat_next(k), batches.drop_first());
    }
}

/// Any `batch_start` step other than the expected one — the resume step for
/// the first batch, one past the last closed step afterwards — is rejected
/// and changes nothing; so is any `batch_start` while no step is expected.
pub proof fn lemma_off_step_rejected(m: EndpointModel, step: u64)
    requires
        expected_step(m) != Some(step),
    ensures
        spec_batch_start(m, step).1 is Err,
        spec_batch_start(m, step).0 == m,
{
}

/// The substep assigned to the Nth record pushed into a batch (1-indexed)
/// equals N-1, whether it was pushed as a raw buffer or as a key/value pair,
/// and the count restarts at zero at each `batch_start`: opening the batch
/// for `step` and pushing the records `rs` leaves exactly those records
/// buffered, in push order, the record at index `i` tagged `(step, i)`.
pub proof fn lemma_push_order_positions(m: EndpointModel, step: u64, rs: Seq<PushInput>)
    requires
        spec_batch_start(m, step).1 is Ok,
        rs.len() <= u64::MAX,
    ensures
        ({
            let after = spec_push_seq(spec_batch_start(m, step).0, rs);
            &&& after.buffer.len() == rs.len()
            &&& forall|i: int|
                0 <= i < rs.len() ==> (#[trigger] after.buffer[i]).position == (OutputPosition {
                    step,
                    substep: i as u64,
                })
            &&& forall|i: int|
                0 <= i < rs.len() ==> (#[trigger] after.buffer[i]).payload == rs[i].payload
                    && after.buffer[i].headers == rs[i].headers
        }),
{
    let opened = spec_batch_start(m, step).0;
    assert(opened.state == FtState::BatchOpen(OutputPosition { step, substep: 0 }));
    assert(opened.buffer.len() == 0);
    lemma_push_seq_detail(opened, rs);
    let after = spec_push_seq(opened, rs);
    assert forall|i: int| 0 <= i < rs.len() implies (#[trigger] after.buffer[i]).position
        == (OutputPosition { step, substep: i as u64 }) && after.buffer[i].payload
        == rs[i].payload && after.buffer[i].headers == rs[i].headers by {
        let rec = after.buffer[opened.buffer.len() + i];
        assert(opened.buffer.len() + i == i);
        assert(after.buffer[i] == rec);
        assert(rec.position.step == step);
        assert(rec.position.substep == i);
    }
}

/// After a fully acknowledged `batch_end`, every record pushed during that
/// batch appears in the durable log, in push order, right after whatever the
/// log already held: each appended record carries the configured subject and
/// its pushed payload and header set (and, by the push-order law, the header
/// set built for its exact position).
pub proof fn lemma_batch_durability(
    m: EndpointModel,
    step: u64,
    rs: Seq<PushInput>,
    log: Seq<PublishedModel>,
    subject: Seq<char>,
)
    requires
        spec_batch_start(m, step).1 is Ok,
        rs.len() <= u64::MAX,
    ensures
        ({
            let after = spec_push_seq(spec_batch_start(m, step).0, rs);
            let flushed = log + published_of(subject, after.buffer);
            &&& flushed.len() == log.len() + rs.len()
            &&& forall|i: int|
                0 <= i < rs.len() ==> {
                    let rec = #[trigger] flushed[log.len() + i];
                    &&& rec.subject == subject
                    &&& rec.payload == rs[i].payload
                    &&& rec.headers == rs[i].headers
                }
        }),
{
    lemma_push_order_positions(m, step, rs);
    let after = spec_push_seq(spec_batch_start(m, step).0, rs);
    let flushed = log + published_of(subject, after.buffer);
    assert forall|i: int| 0 <= i < rs.len() implies {
        let rec = #[trigger] flushed[log.len() + i];
        &&& rec.subject == subject
        &&& rec.payload == rs[i].payload
        &&& rec.headers == rs[i].headers
    } by {
        assert(flushed[log.len() + i] == published_of(subject, after.buffer)[i]);
        assert(published_of(subject, after.buffer)[i].payload == after.buffer[i].payload);
        assert(published_of(subject, after.buffer)[i].headers == after.buffer[i].headers);
    }
}

} // verus!

