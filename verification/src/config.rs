//! Connector configuration and the idempotent stream-provisioning rule.

use vstd::prelude::*;

verus! {

/// Authentication material for the NATS connection. Translating it into
/// transport options is the unverified shell's concern; the core only
/// carries it.
#[derive(Clone, Debug)]
pub struct Auth {
    pub username: Option<String>,
    pub password: Option<String>,
    pub token: Option<String>,
}

impl Default for Auth {
    /// No authentication.
    fn default() -> (a: Auth)
        ensures
            a.username is None,
            a.password is None,
            a.token is None,
    {
        Auth { username: None, password: None, token: None }
    }
}

/// Where and how to reach the NATS server.
#[derive(Clone, Debug)]
pub struct ConnectOptions {
    pub server_url: String,
    pub auth: Auth,
}

/// JetStream settings for the fault-tolerant connector: the durable stream's
/// name, whether fault tolerance is enabled, and optional retention bounds.
#[derive(Clone, Debug)]
pub struct JetStreamConfig {
    pub stream_name: String,
    pub enable_fault_tolerance: bool,
    /// Maximum record age in seconds, if bounded.
    pub max_age: Option<u64>,
    /// Maximum total stream size in bytes, if bounded.
    pub max_bytes: Option<i64>,
    /// Maximum number of records retained, if bounded.
    pub max_messages: Option<i64>,
}

/// Configuration of one output connector instance.
#[derive(Clone, Debug)]
pub struct NatsOutputConfig {
    pub connection_config: ConnectOptions,
    /// The subject every record is published to.
    pub subject: String,
    /// Statically configured headers added to every record, in a fixed order.
    pub headers: Option<Vec<(String, String)>>,
    /// JetStream settings; required for the fault-tolerant connector.
    pub jetstream: Option<JetStreamConfig>,
}

/// The stream the provisioner would create: name, subject filter and the
/// retention bounds taken from the configuration. Unset bounds keep the
/// log's defaults.
#[derive(Clone, Debug)]
pub struct StreamSpec {
    pub name: String,
    pub subjects: Vec<String>,
    pub max_age: Option<u64>,
    pub max_bytes: Option<i64>,
    pub max_messages: Option<i64>,
}

/// Mathematical image of a [`StreamSpec`].
#[verifier::ext_equal]
pub struct StreamSpecModel {
    pub name: Seq<char>,
    pub subjects: Seq<Seq<char>>,
    pub max_age: Option<u64>,
    pub max_bytes: Option<i64>,
    pub max_messages: Option<i64>,
}

impl View for StreamSpec {
    type V = StreamSpecModel;

    open spec fn view(&self) -> StreamSpecModel {
        StreamSpecModel {
            name: self.name@,
            subjects: Seq::new(self.subjects@.len(), |i: int| self.subjects@[i]@),
            max_age: self.max_age,
            max_bytes: self.max_bytes,
            max_messages: self.max_messages,
        }
    }
}

/// The stream that a configuration asks for: subject filter set to the output
/// subject, retention bounds copied from the JetStream settings.
pub open spec fn desired_stream(subject: Seq<char>, js: JetStreamConfig) -> StreamSpecModel {
    StreamSpecModel {
        name: js.stream_name@,
        subjects: seq![subject],
        max_age: js.max_age,
        max_bytes: js.max_bytes,
        max_messages: js.max_messages,
    }
}

/// What provisioning does to the log's table of streams, keyed by stream
/// name: an existing stream is left exactly as it is, even if its subject
/// filter or retention differs from the configuration; a missing one is
/// created as configured.
pub open spec fn spec_provision(
    streams: Map<Seq<char>, StreamSpecModel>,
    subject: Seq<char>,
    js: JetStreamConfig,
) -> Map<Seq<char>, StreamSpecModel> {
    if streams.dom().contains(js.stream_name@) {
        streams
    } else {
        streams.insert(js.stream_name@, desired_stream(subject, js))
    }
}

/// Provisioning is idempotent: once the named stream exists, provisioning
/// again alters nothing, so connecting twice against the same log leaves
/// every stream's subject filter and retention exactly as the first connect
/// left them.
pub proof fn lemma_provision_idempotent(
    streams: Map<Seq<char>, StreamSpecModel>,
    subject: Seq<char>,
    js: JetStreamConfig,
)
    ensures
        spec_provision(spec_provision(streams, subject, js), subject, js)
            == spec_provision(streams, subject, js),
        streams.dom().contains(js.stream_name@) ==> spec_provision(streams, subject, js) == streams,
{
}

/// The provisioner's decision: given whether the configured stream already
/// exists, either leave the log untouched (`None`) or create the configured
/// stream (`Some`). The unverified shell queries existence and performs the
/// creation; this decides.
pub fn plan_provisioning(exists: bool, subject: &String, js: &JetStreamConfig) -> (r: Option<
    StreamSpec,
>)
    ensures
        r is None <==> exists,
        r matches Some(s) ==> s@ == desired_stream(subject@, *js),
{
    if exists {
        None
    } else {
        let mut subjects: Vec<String> = Vec::new();
        subjects.push(subject.clone());
        let spec = StreamSpec {
            name: js.stream_name.clone(),
            subjects,
            max_age: js.max_age,
            max_bytes: js.max_bytes,
            max_messages: js.max_messages,
        };
        proof {
            assert(spec@.subjects =~= seq![subject@]);
        }
        Some(spec)
    }
}

} // verus!
