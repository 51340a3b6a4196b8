//! Crash recovery: deriving the resume step from the last record the durable
//! log holds on the configured subject. The log itself is the single source
//! of truth; no separate cursor is consulted.

use vstd::prelude::*;
use vstd::utf8::encode_utf8;
use async_nats::HeaderMap;
use crate::decimal::{dec_chars, lemma_dec_parse_round_trip, parse_u64_dec, parse_step_bytes};
use crate::headers::{header_entries, header_map_get, step_header_name};

verus! {

/// The resume step derived from the headers of the last record on the
/// subject, if any: one past the step the record carries; zero when the log
/// has no record there, when the step header is missing or unparsable, or
/// when the carried step cannot be advanced without overflowing.
pub open spec fn spec_resume_step(last: Option<Map<Seq<char>, Seq<char>>>) -> u64 {
    match last {
        None => 0u64,
        Some(entries) => {
            if entries.dom().contains(step_header_name()) {
                match parse_u64_dec(encode_utf8(entries[step_header_name()])) {
                    Some(k) => if k < u64::MAX {
                        (k + 1) as u64
                    } else {
                        0u64
                    },
                    None => 0u64,
                }
            } else {
                0u64
            }
        },
    }
}

/// The headers of the last record, as their mathematical image.
pub open spec fn view_last_headers(last: Option<&HeaderMap>) -> Option<Map<Seq<char>, Seq<char>>> {
    match last {
        Some(m) => Some(header_entries(*m)),
        None => None,
    }
}

/// Compute the resume step from the last record's headers (`None` when the
/// subject has no record at all), exactly as [`spec_resume_step`] says.
pub fn resolve_resume_step(last_headers: Option<&HeaderMap>) -> (r: u64)
    ensures
        r == spec_resume_step(view_last_headers(last_headers)),
{
    match last_headers {
        None => 0,
        Some(m) => {
            match header_map_get(m, "Feldera-Step") {
                None => 0,
                Some(text) => {
                    match parse_step_bytes(text.as_str().as_bytes()) {
                        Some(k) => {
                            if k < u64::MAX {
                                k + 1
                            } else {
                                0
                            }
                        },
                        None => 0,
                    }
                },
            }
        },
    }
}

/// Recovery resolves one past the last committed step: if the last record on
/// the subject carries the step header this connector writes for step `k`
/// (and `k` can be advanced), the resume step is `k + 1`; an empty subject
/// resumes at step zero.
pub proof fn lemma_recovery_resume_step(entries: Map<Seq<char>, Seq<char>>, k: u64)
    requires
        entries.dom().contains(step_header_name()),
        entries[step_header_name()] == dec_chars(k as nat),
        k < u64::MAX,
    ensures
        spec_resume_step(Some(entries)) == k + 1,
        spec_resume_step(None) == 0,
{
    lemma_dec_parse_round_trip(k);
}

} // verus!
