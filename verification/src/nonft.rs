//! The non-fault-tolerant output endpoint: a stateless pass-through that
//! publishes each record immediately, with no position tracking, no
//! buffering and no resume logic. Batch lifecycle calls are accepted and do
//! nothing.

use vstd::prelude::*;
use crate::config::NatsOutputConfig;
use crate::encode::{encode_key_value, spec_encode_key_value, view_opt_bytes};
use crate::errors::OutputError;
use crate::endpoint::SpanFields;

verus! {

/// NATS output endpoint for publishing messages to NATS subjects without
/// durability guarantees.
///
/// The unverified shell owns the connection; this core validates the
/// lifecycle and prepares each publish: given a push, it hands back the
/// payload bytes to send on the configured subject.
#[derive(Debug)]
pub struct NatsOutputEndpoint {
    pub config: NatsOutputConfig,
    pub connected: bool,
}

impl NatsOutputEndpoint {
    /// Create an endpoint; any configuration is accepted.
    pub fn new(config: NatsOutputConfig) -> (r: Result<NatsOutputEndpoint, OutputError>)
        ensures
            r matches Ok(ep) && ep.config == config && !ep.connected,
    {
        Ok(NatsOutputEndpoint { config, connected: false })
    }

    /// The fields of this endpoint's tracing span.
    pub fn span(&self) -> (s: SpanFields)
        ensures
            s.ft == false,
            s.subject@ == self.config.subject@,
            s.stream@.len() == 0,
            s.server matches Some(u) && u@ == self.config.connection_config.server_url@,
    {
        SpanFields {
            ft: false,
            subject: self.config.subject.clone(),
            stream: String::new(),
            server: Some(self.config.connection_config.server_url.clone()),
        }
    }

    /// Record that the session is established.
    pub fn complete_connect(&mut self)
        ensures
            final(self).config == old(self).config,
            final(self).connected,
    {
        self.connected = true;
    }

    /// A conservative cap on message sizes; NATS defaults to a 1 MB maximum
    /// message size, configurable on the server.
    pub fn max_buffer_size_bytes(&self) -> (n: usize)
        ensures
            n == 1000000,
    {
        1_000_000
    }

    /// Batches need no handling here: always accepted, nothing changes.
    pub fn batch_start(&mut self, _step: u64) -> (r: Result<(), OutputError>)
        ensures
            r is Ok,
            *final(self) == *old(self),
    {
        Ok(())
    }

    /// Prepare a raw-buffer publish: the payload to send on the configured
    /// subject, exactly the bytes pushed. Fails exactly when the session is
    /// not established.
    pub fn push_buffer(&self, buffer: &[u8]) -> (r: Result<Vec<u8>, OutputError>)
        ensures
            r is Ok <==> self.connected,
            r matches Ok(payload) ==> payload@ == buffer@,
            r matches Err(e) ==> e == OutputError::NotConnected,
    {
        if !self.connected {
            return Err(OutputError::NotConnected);
        }
        Ok(vstd::slice::slice_to_vec(buffer))
    }

    /// Prepare a key/value publish: the payload is the key/value encoding,
    /// and fails exactly as the encoder does, or when the session is not
    /// established. Caller-supplied headers are accepted and ignored, as the
    /// pass-through publish carries none.
    pub fn push_key(&self, key: Option<&[u8]>, val: Option<&[u8]>) -> (r: Result<
        Vec<u8>,
        OutputError,
    >)
        ensures
            !self.connected ==> (r matches Err(e) && e == OutputError::NotConnected),
            self.connected ==> match spec_encode_key_value(
                view_opt_bytes(key),
                view_opt_bytes(val),
            ) {
                Ok(payload) => r matches Ok(bytes) && bytes@ == payload,
                Err(enc_err) => r matches Err(e) && e == enc_err,
            },
    {
        if !self.connected {
            return Err(OutputError::NotConnected);
        }
        encode_key_value(key, val)
    }

    /// Batches need no handling here: always accepted, nothing changes.
    pub fn batch_end(&mut self) -> (r: Result<(), OutputError>)
        ensures
            r is Ok,
            *final(self) == *old(self),
    {
        Ok(())
    }

    /// This endpoint does not survive restarts.
    pub fn is_fault_tolerant(&self) -> (r: bool)
        ensures
            r == false,
    {
        false
    }
}

} // verus!
