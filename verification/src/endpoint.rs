//! The fault-tolerant output endpoint: the lifecycle state machine, the
//! batch buffer, and the flush protocol that publishes buffered records in
//! push order.

use vstd::prelude::*;
use vstd::string::StringExecFns;
use async_nats::HeaderMap;
use crate::config::NatsOutputConfig;
use crate::encode::{encode_key_value, spec_encode_key_value, view_opt_bytes};
use crate::errors::OutputError;
use crate::headers::{
    build_headers, built_headers, extra_ok, extra_view, header_entries, no_extra_headers,
    static_view, static_view_owned,
};
use crate::log::{MemoryLog, PublishedModel, PublishedRecord};
use crate::position::OutputPosition;
use crate::recovery::{resolve_resume_step, spec_resume_step, view_last_headers};

verus! {

/// State of the fault-tolerant NATS output endpoint.
#[derive(Clone, Copy, Debug, PartialEq, Eq, Structural)]
pub enum FtState {
    /// Just created.
    New,
    /// `complete_connect` has run; the resume step is known and no batch is
    /// open.
    Connected,
    /// A batch is accepting records; the next pushed record will receive this
    /// position.
    BatchOpen(OutputPosition),
    /// The batch for this step has been fully published and acknowledged.
    BatchClosed(u64),
}

/// One record buffered between a push and the next `batch_end`.
#[derive(Debug)]
pub struct BufferedRecord {
    pub position: OutputPosition,
    pub payload: Vec<u8>,
    pub headers: HeaderMap,
}

/// Mathematical image of a buffered record.
#[verifier::ext_equal]
pub struct RecordModel {
    pub position: OutputPosition,
    pub payload: Seq<u8>,
    pub headers: Map<Seq<char>, Seq<char>>,
}

impl View for BufferedRecord {
    type V = RecordModel;

    open spec fn view(&self) -> RecordModel {
        RecordModel {
            position: self.position,
            payload: self.payload@,
            headers: header_entries(self.headers),
        }
    }
}

/// The mathematical image of a buffer of records.
pub open spec fn records_view(v: Seq<BufferedRecord>) -> Seq<RecordModel> {
    Seq::new(v.len(), |i: int| v[i]@)
}

/// Mathematical image of the endpoint: its lifecycle state, the step the
/// next first batch must carry, and the buffered records in push order.
#[verifier::ext_equal]
pub struct EndpointModel {
    pub state: FtState,
    pub next_step: u64,
    pub buffer: Seq<RecordModel>,
}

impl EndpointModel {
    /// Well-formedness: outside an open batch the buffer is empty; inside
    /// one, the buffered records carry consecutive substeps of the open step,
    /// ending right below the substep the next record will receive.
    pub open spec fn wf(&self) -> bool {
        match self.state {
            FtState::BatchOpen(p) => {
                &&& self.buffer.len() <= p.substep
                &&& forall|i: int|
                    0 <= i < self.buffer.len() ==> (#[trigger] self.buffer[i]).position.step
                        == p.step && self.buffer[i].position.substep == p.substep
                        - self.buffer.len() + i
            },
            _ => self.buffer.len() == 0,
        }
    }
}

/// The step a well-driven engine must pass to the next `batch_start`:
/// the resume step right after connecting, one past the last closed step
/// after a batch, and nothing while a batch is open or before connecting.
pub open spec fn expected_step(m: EndpointModel) -> Option<u64> {
    match m.state {
        FtState::Connected => Some(m.next_step),
        FtState::BatchClosed(s) => if s < u64::MAX {
            Some((s + 1) as u64)
        } else {
            None
        },
        _ => None,
    }
}

/// One past `step`, clamped at the counter's ceiling.
pub open spec fn sat_next(step: u64) -> u64 {
    if step < u64::MAX {
        (step + 1) as u64
    } else {
        u64::MAX
    }
}

/// The model after a batch for `step` opens: position `(step, 0)`, buffer
/// cleared.
pub open spec fn open_batch(m: EndpointModel, step: u64) -> EndpointModel {
    EndpointModel {
        state: FtState::BatchOpen(OutputPosition { step, substep: 0 }),
        next_step: m.next_step,
        buffer: Seq::empty(),
    }
}

/// What `batch_start` does: from `Connected` the step must equal the resume
/// step; after a closed batch it must be one past the closed step; any other
/// state or step is a protocol error that changes nothing.
pub open spec fn spec_batch_start(m: EndpointModel, step: u64) -> (EndpointModel, Result<
    (),
    OutputError,
>) {
    match m.state {
        FtState::New => (m, Err(OutputError::NotConnected)),
        FtState::Connected => {
            if step == m.next_step {
                (open_batch(m, step), Ok(()))
            } else {
                (m, Err(OutputError::StepMismatch { expected: m.next_step, got: step }))
            }
        },
        FtState::BatchOpen(_) => (m, Err(OutputError::BatchAlreadyOpen)),
        FtState::BatchClosed(s) => {
            if s < u64::MAX && step == s + 1 {
                (open_batch(m, step), Ok(()))
            } else {
                (m, Err(OutputError::StepMismatch { expected: sat_next(s), got: step }))
            }
        },
    }
}

/// What a push does to an open batch: append the record at the open
/// position, then advance the substep.
pub open spec fn spec_push(
    m: EndpointModel,
    payload: Seq<u8>,
    headers: Map<Seq<char>, Seq<char>>,
) -> EndpointModel
    recommends
        m.state is BatchOpen,
{
    let p = m.state->BatchOpen_0;
    EndpointModel {
        state: FtState::BatchOpen(
            OutputPosition { step: p.step, substep: (p.substep + 1) as u64 },
        ),
        next_step: m.next_step,
        buffer: m.buffer.push(RecordModel { position: p, payload, headers }),
    }
}

/// The payload and header set of one pushed record, as a push hands them to
/// the model.
#[verifier::ext_equal]
pub struct PushInput {
    pub payload: Seq<u8>,
    pub headers: Map<Seq<char>, Seq<char>>,
}

/// The model after a sequence of pushes, applied in order.
pub open spec fn spec_push_seq(m: EndpointModel, rs: Seq<PushInput>) -> EndpointModel
    decreases rs.len(),
{
    if rs.len() == 0 {
        m
    } else {
        spec_push(spec_push_seq(m, rs.drop_last()), rs.last().payload, rs.last().headers)
    }
}

/// What a fully acknowledged `batch_end` does: the batch closes, the buffer
/// empties, and the next expected step advances by one.
pub open spec fn spec_commit(m: EndpointModel) -> EndpointModel {
    match m.state {
        FtState::BatchOpen(p) => EndpointModel {
            state: FtState::BatchClosed(p.step),
            next_step: sat_next(p.step),
            buffer: Seq::empty(),
        },
        _ => m,
    }
}

/// The records a flush hands the log, in push order, on the configured
/// subject.
pub open spec fn published_of(subject: Seq<char>, records: Seq<RecordModel>) -> Seq<
    PublishedModel,
> {
    Seq::new(
        records.len(),
        |i: int|
            PublishedModel {
                subject: subject,
                payload: records[i].payload,
                headers: records[i].headers,
            },
    )
}

/// How many of `n` records a log that already holds `held` records and
/// refuses writes from `fail_from` will acknowledge.
pub open spec fn flush_capacity(held: nat, fail_from: Option<usize>, n: nat) -> nat {
    match fail_from {
        None => n,
        Some(k) => {
            if held >= k {
                0
            } else if k - held >= n {
                n
            } else {
                (k - held) as nat
            }
        },
    }
}

/// The fields the connector's tracing span records.
pub struct SpanFields {
    pub ft: bool,
    pub subject: String,
    pub stream: String,
    pub server: Option<String>,
}

/// The span fields for a fault-tolerant output on `subject` backed by
/// `stream`.
pub fn span(subject: &str, stream: &str) -> (s: SpanFields)
    ensures
        s.ft == true,
        s.subject@ == subject@,
        s.stream@ == stream@,
        s.server is None,
{
    SpanFields {
        ft: true,
        subject: String::from_str(subject),
        stream: String::from_str(stream),
        server: None,
    }
}

/// NATS fault-tolerant output endpoint using JetStream for durability.
///
/// The network sits outside this type: the unverified shell owns the
/// connection, queries the log on connect, performs each publish of a flush,
/// and reports the outcomes back through [`Self::complete_connect`],
/// [`Self::batch_end_apply`] or [`Self::batch_end_into`].
#[derive(Debug)]
pub struct NatsFtOutputEndpoint {
    pub config: NatsOutputConfig,
    pub state: FtState,
    pub next_step: u64,
    pub buffered_messages: Vec<BufferedRecord>,
}

impl View for NatsFtOutputEndpoint {
    type V = EndpointModel;

    open spec fn view(&self) -> EndpointModel {
        EndpointModel {
            state: self.state,
            next_step: self.next_step,
            buffer: records_view(self.buffered_messages@),
        }
    }
}

impl NatsFtOutputEndpoint {
    pub open spec fn wf(&self) -> bool {
        self@.wf()
    }

    /// Create an endpoint in the `New` state. Fails exactly when the
    /// configuration carries no JetStream settings, or carries them with
    /// fault tolerance disabled.
    pub fn new(config: NatsOutputConfig) -> (r: Result<NatsFtOutputEndpoint, OutputError>)
        ensures
            match config.jetstream {
                None => r matches Err(e) && e == OutputError::MissingJetStreamConfig,
                Some(js) => {
                    if !js.enable_fault_tolerance {
                        r matches Err(e) && e == OutputError::FaultToleranceDisabled
                    } else {
                        r matches Ok(ep) && ep.config == config && ep.state == FtState::New
                            && ep.next_step == 0 && ep@.buffer.len() == 0 && ep.wf()
                    }
                },
            },
    {
        match &config.jetstream {
            None => {
                return Err(OutputError::MissingJetStreamConfig);
            },
            Some(js) => {
                if !js.enable_fault_tolerance {
                    return Err(OutputError::FaultToleranceDisabled);
                }
            },
        }
        let ep = NatsFtOutputEndpoint {
            config,
            state: FtState::New,
            next_step: 0,
            buffered_messages: Vec::new(),
        };
        proof {
            assert(ep@.buffer =~= Seq::<RecordModel>::empty());
        }
        Ok(ep)
    }

    /// The fields of this endpoint's tracing span.
    pub fn span(&self) -> (s: SpanFields)
        requires
            self.config.jetstream is Some,
        ensures
            s.ft == true,
            s.subject@ == self.config.subject@,
            s.stream@ == self.config.jetstream->Some_0.stream_name@,
            s.server matches Some(u) && u@ == self.config.connection_config.server_url@,
    {
        let js = match &self.config.jetstream {
            Some(js) => js,
            None => {
                proof {
                    assert(false);
                }
                return SpanFields {
                    ft: true,
                    subject: String::new(),
                    stream: String::new(),
                    server: None,
                };
            },
        };
        SpanFields {
            ft: true,
            subject: self.config.subject.clone(),
            stream: js.stream_name.clone(),
            server: Some(self.config.connection_config.server_url.clone()),
        }
    }

    /// Record the established session: the resume step is derived from the
    /// last record the log holds on the configured subject (`None` when the
    /// subject holds none), and the endpoint becomes `Connected`.
    pub fn complete_connect(&mut self, last_headers: Option<&HeaderMap>)
        requires
            old(self).wf(),
            old(self).state is New || old(self).state is Connected,
        ensures
            final(self).wf(),
            final(self).config == old(self).config,
            final(self).state == FtState::Connected,
            final(self).next_step == spec_resume_step(view_last_headers(last_headers)),
            final(self)@.buffer == old(self)@.buffer,
    {
        let resume = resolve_resume_step(last_headers);
        self.next_step = resume;
        self.state = FtState::Connected;
    }

    /// A conservative cap on batch sizes; JetStream's default maximum
    /// message size is larger but server-configurable.
    pub fn max_buffer_size_bytes(&self) -> (n: usize)
        ensures
            n == 1000000,
    {
        1_000_000
    }

    /// This endpoint survives restarts.
    pub fn is_fault_tolerant(&self) -> (r: bool)
        ensures
            r == true,
    {
        true
    }

    /// Open the batch for `step`. Accepted exactly when `step` is the
    /// expected one: the resume step for the first batch, one past the last
    /// closed step afterwards. Rejections leave the endpoint unchanged.
    pub fn batch_start(&mut self, step: u64) -> (r: Result<(), OutputError>)
        requires
            old(self).wf(),
        ensures
            final(self).wf(),
            final(self).config == old(self).config,
            final(self)@ == spec_batch_start(old(self)@, step).0,
            r == spec_batch_start(old(self)@, step).1,
            r is Ok <==> expected_step(old(self)@) == Some(step),
    {
        match self.state {
            FtState::New => Err(OutputError::NotConnected),
            FtState::Connected => {
                if step != self.next_step {
                    return Err(OutputError::StepMismatch { expected: self.next_step, got: step });
                }
                self.state = FtState::BatchOpen(OutputPosition::new(step));
                self.buffered_messages.clear();
                proof {
                    assert(self@.buffer =~= Seq::<RecordModel>::empty());
                    assert(self@ =~= open_batch(old(self)@, step));
                }
                Ok(())
            },
            FtState::BatchOpen(_) => Err(OutputError::BatchAlreadyOpen),
            FtState::BatchClosed(closed_step) => {
                let expected = if closed_step < u64::MAX {
                    closed_step + 1
                } else {
                    u64::MAX
                };
                if !(closed_step < u64::MAX && step == expected) {
                    return Err(OutputError::StepMismatch { expected, got: step });
                }
                self.state = FtState::BatchOpen(OutputPosition::new(step));
                self.buffered_messages.clear();
                proof {
                    assert(self@.buffer =~= Seq::<RecordModel>::empty());
                    assert(self@ =~= open_batch(old(self)@, step));
                }
                Ok(())
            },
        }
    }

    /// Buffer raw payload bytes at the open position: the record is appended
    /// with the reserved position headers and the statically configured
    /// headers, and the substep advances. Outside an open batch nothing
    /// changes and the call is a protocol error.
    pub fn push_buffer(&mut self, buffer: &[u8]) -> (r: Result<(), OutputError>)
        requires
            old(self).wf(),
            old(self).state matches FtState::BatchOpen(p) ==> p.substep < u64::MAX,
        ensures
            final(self).wf(),
            final(self).config == old(self).config,
            match old(self)@.state {
                FtState::BatchOpen(p) => r is Ok && final(self)@ == spec_push(
                    old(self)@,
                    buffer@,
                    built_headers(
                        p.step,
                        p.substep,
                        static_view_owned(old(self).config.headers),
                        no_extra_headers(),
                    ),
                ),
                _ => r matches Err(e) && e == OutputError::NotInBatch && final(self)@ == old(self)@,
            },
    {
        let p = match self.state {
            FtState::BatchOpen(p) => p,
            _ => {
                return Err(OutputError::NotInBatch);
            },
        };
        let extra: Vec<(String, Option<Vec<u8>>)> = Vec::new();
        proof {
            assert(extra_view(extra@) =~= no_extra_headers());
        }
        let cfg_headers = self.config.headers.as_ref();
        proof {
            assert(static_view(cfg_headers) =~= static_view_owned(self.config.headers));
        }
        let headers = match build_headers(cfg_headers, &extra, &p) {
            Ok(h) => h,
            Err(e) => {
                proof {
                    assert(false);
                }
                return Err(e);
            },
        };
        let payload = vstd::slice::slice_to_vec(buffer);
        self.push_record(p, payload, headers);
        Ok(())
    }

    /// Encode a key/value pair and buffer it at the open position, with the
    /// reserved position headers, the statically configured headers and the
    /// caller's headers layered in that order. Outside an open batch nothing
    /// changes; a malformed key, value or header value rejects just this
    /// record.
    pub fn push_key(
        &mut self,
        key: Option<&[u8]>,
        val: Option<&[u8]>,
        headers: &Vec<(String, Option<Vec<u8>>)>,
    ) -> (r: Result<(), OutputError>)
        requires
            old(self).wf(),
            old(self).state matches FtState::BatchOpen(p) ==> p.substep < u64::MAX,
        ensures
            final(self).wf(),
            final(self).config == old(self).config,
            match old(self)@.state {
                FtState::BatchOpen(p) => {
                    match spec_encode_key_value(view_opt_bytes(key), view_opt_bytes(val)) {
                        Err(enc_err) => r matches Err(e) && e == enc_err && final(self)@ == old(self)@,
                        Ok(payload) => {
                            if extra_ok(extra_view(headers@)) {
                                r is Ok && final(self)@ == spec_push(
                                    old(self)@,
                                    payload,
                                    built_headers(
                                        p.step,
                                        p.substep,
                                        static_view_owned(old(self).config.headers),
                                        extra_view(headers@),
                                    ),
                                )
                            } else {
                                r matches Err(e) && e == OutputError::InvalidHeaderValue && final(self)@ == old(self)@
                            }
                        },
                    }
                },
                _ => r matches Err(e) && e == OutputError::NotInBatch && final(self)@ == old(self)@,
            },
    {
        let p = match self.state {
            FtState::BatchOpen(p) => p,
            _ => {
                return Err(OutputError::NotInBatch);
            },
        };
        let payload = match encode_key_value(key, val) {
            Ok(payload) => payload,
            Err(e) => {
                return Err(e);
            },
        };
        let cfg_headers = self.config.headers.as_ref();
        proof {
            assert(static_view(cfg_headers) =~= static_view_owned(self.config.headers));
        }
        let header_map = match build_headers(cfg_headers, headers, &p) {
            Ok(h) => h,
            Err(e) => {
                return Err(e);
            },
        };
        self.push_record(p, payload, header_map);
        Ok(())
    }

    /// Append one prepared record at the open position and advance the
    /// substep.
    fn push_record(&mut self, p: OutputPosition, payload: Vec<u8>, headers: HeaderMap)
        requires
            old(self).wf(),
            old(self).state == FtState::BatchOpen(p),
            p.substep < u64::MAX,
        ensures
            final(self).wf(),
            final(self).config == old(self).config,
            final(self)@ == spec_push(old(self)@, payload@, header_entries(headers)),
    {
        let ghost pushed = RecordModel {
            position: p,
            payload: payload@,
            headers: header_entries(headers),
        };
        let record = BufferedRecord { position: p, payload, headers };
        self.buffered_messages.push(record);
        let mut position = p;
        position.next_substep();
        self.state = FtState::BatchOpen(position);
        proof {
            assert(self@.buffer =~= old(self)@.buffer.push(pushed));
            assert(self@ =~= spec_push(old(self)@, pushed.payload, pushed.headers));
            assert forall|i: int| 0 <= i < self@.buffer.len() implies (#[trigger] self@.buffer[i])
                .position.step == position.step && self@.buffer[i].position.substep
                == position.substep - self@.buffer.len() + i by {
                if i < self@.buffer.len() - 1 {
                    assert(self@.buffer[i] == old(self)@.buffer[i]);
                }
            }
        }
    }

    /// The records the currently open batch has buffered, in push order.
    pub fn buffered_records(&self) -> (r: &Vec<BufferedRecord>)
        ensures
            records_view(r@) == self@.buffer,
    {
        &self.buffered_messages
    }

    /// Flush the open batch into an in-memory log, then close the batch:
    /// each buffered record is published in push order, waiting for the
    /// log's acknowledgment before the next. The first refusal aborts the
    /// flush; acknowledged records stay in the log, the rest are dropped
    /// from the buffer, and the batch stays open with the error surfaced.
    #[verifier::loop_isolation(false)]
    pub fn batch_end_into(&mut self, log: &mut MemoryLog) -> (r: Result<(), OutputError>)
        requires
            old(self).wf(),
        ensures
            final(self).wf(),
            final(self).config == old(self).config,
            final(log).fail_from == old(log).fail_from,
            match old(self)@.state {
                FtState::BatchOpen(p) => ({
                    let n = old(self)@.buffer.len();
                    let c = flush_capacity(old(log)@.len(), old(log).fail_from, n);
                    &&& final(log)@ == old(log)@ + published_of(
                        old(self).config.subject@,
                        old(self)@.buffer.take(c as int),
                    )
                    &&& final(self)@.buffer.len() == 0
                    &&& if c == n {
                        r is Ok && final(self)@ == spec_commit(old(self)@)
                    } else {
                        r matches Err(e) && e == OutputError::Publish && final(self).state == old(self).state && final(self).next_step == old(self).next_step
                    }
                }),
                _ => r matches Err(e) && e == OutputError::NotInBatch && final(self)@ == old(self)@
                    && final(log)@ == old(log)@,
            },
    {
        let p = match self.state {
            FtState::BatchOpen(p) => p,
            _ => {
                return Err(OutputError::NotInBatch);
            },
        };
        let mut buf: Vec<BufferedRecord> = Vec::new();
        core::mem::swap(&mut buf, &mut self.buffered_messages);
        let ghost orig = records_view(buf@);
        let ghost base = old(log)@;
        let ghost n = orig.len();
        proof {
            assert(orig == old(self)@.buffer);
            assert(self@.buffer =~= Seq::<RecordModel>::empty());
        }
        while buf.len() > 0
            invariant
                self.state == old(self).state,
                self.next_step == old(self).next_step,
                self.config == old(self).config,
                self.buffered_messages@.len() == 0,
                log.fail_from == old(log).fail_from,
                n == orig.len(),
                buf@.len() <= n,
                records_view(buf@) =~= orig.skip(n - buf@.len()),
                log@ =~= base + published_of(
                    old(self).config.subject@,
                    orig.take(n - buf@.len()),
                ),
                log.fail_from matches Some(k) ==> n == buf@.len() || base.len() + (n - buf@.len())
                    <= k,
            decreases buf@.len(),
        {
            let ghost done = n - buf@.len();
            let ghost prev = buf@;
            let record = buf.remove(0);
            proof {
                assert(record == prev[0]);
                assert(records_view(prev)[0] == prev[0]@);
                assert(orig.skip(done)[0] == orig[done]);
                assert(record@ == orig[done]);
                assert(buf@ =~= prev.skip(1));
                assert forall|i2: int| 0 <= i2 < buf@.len() implies records_view(buf@)[i2]
                    == orig.skip(done + 1)[i2] by {
                    assert(buf@[i2] == prev[i2 + 1]);
                    assert(records_view(prev)[i2 + 1] == prev[i2 + 1]@);
                    assert(records_view(prev)[i2 + 1] == orig.skip(done)[i2 + 1]);
                    assert(orig.skip(done)[i2 + 1] == orig[done + i2 + 1]);
                    assert(orig.skip(done + 1)[i2] == orig[done + i2 + 1]);
                }
                assert(records_view(buf@) =~= orig.skip(done + 1));
            }
            let published = PublishedRecord {
                subject: self.config.subject.clone(),
                payload: record.payload,
                headers: record.headers,
            };
            let ghost log_before = log@;
            match log.publish(published) {
                Ok(_) => {
                    proof {
                        assert(log@ =~= log_before.push(
                            published_of(old(self).config.subject@, orig.take(done + 1))[done],
                        ));
                        assert(log@ =~= base + published_of(
                            old(self).config.subject@,
                            orig.take(done + 1),
                        ));
                    }
                },
                Err(e) => {
                    proof {
                        let c = flush_capacity(base.len(), old(log).fail_from, n);
                        match old(log).fail_from {
                            Some(k) => {
                                if done == 0 {
                                    assert(c == 0);
                                } else {
                                    assert(base.len() + done <= k);
                                    assert(c == done);
                                }
                            },
                            None => {
                                assert(false);
                            },
                        }
                        assert(orig.take(done as int) =~= orig.take(c as int));
                    }
                    return Err(e);
                },
            }
        }
        proof {
            assert(orig.take(n as int) =~= orig);
            let c = flush_capacity(base.len(), old(log).fail_from, n);
            assert(c == n);
        }
        self.state = FtState::BatchClosed(p.step);
        self.next_step = if p.step < u64::MAX {
            p.step + 1
        } else {
            u64::MAX
        };
        proof {
            assert(self@ =~= spec_commit(old(self)@));
        }
        Ok(())
    }

    /// Close the batch after the unverified shell has flushed it against the
    /// real log: `acked` is how many buffered records were published and
    /// acknowledged, in push order. With every record acknowledged the batch
    /// closes and the next expected step advances; otherwise the buffer is
    /// dropped, the batch stays open, and the failure surfaces.
    pub fn batch_end_apply(&mut self, acked: usize) -> (r: Result<(), OutputError>)
        requires
            old(self).wf(),
        ensures
            final(self).wf(),
            final(self).config == old(self).config,
            match old(self)@.state {
                FtState::BatchOpen(p) => {
                    &&& final(self)@.buffer.len() == 0
                    &&& if acked >= old(self)@.buffer.len() {
                        r is Ok && final(self)@ == spec_commit(old(self)@)
                    } else {
                        r matches Err(e) && e == OutputError::Publish && final(self).state == old(self).state && final(self).next_step == old(self).next_step
                    }
                },
                _ => r matches Err(e) && e == OutputError::NotInBatch && final(self)@ == old(self)@,
            },
    {
        let p = match self.state {
            FtState::BatchOpen(p) => p,
            _ => {
                return Err(OutputError::NotInBatch);
            },
        };
        let n = self.buffered_messages.len();
        self.buffered_messages.clear();
        proof {
            assert(self@.buffer =~= Seq::<RecordModel>::empty());
        }
        if acked >= n {
            self.state = FtState::BatchClosed(p.step);
            self.next_step = if p.step < u64::MAX {
                p.step + 1
            } else {
                u64::MAX
            };
            proof {
                assert(self@ =~= spec_commit(old(self)@));
            }
            Ok(())
        } else {
            Err(OutputError::Publish)
        }
    }
}

} // verus!
