//! Construction of the NATS header set attached to every published record:
//! the two reserved position headers, then the statically configured headers,
//! then the caller-supplied ones, later entries overriding earlier ones.

use vstd::prelude::*;
use vstd::utf8::{decode_utf8, valid_utf8};
use async_nats::HeaderMap;
use crate::decimal::{dec_chars, u64_to_dec_string};
use crate::encode::bytes_as_str;
use crate::errors::OutputError;
use crate::position::OutputPosition;

verus! {

/// Declares `async_nats::HeaderMap` to the verifier so it can stand in
/// signatures and fields. A value of it is opaque; everything the proofs
/// know of one comes from [`header_entries`] and the wrappers below.
#[verifier::external_type_specification]
#[verifier::external_body]
pub struct ExHeaderMap(HeaderMap);

/// The entries of a NATS header map: each header name (as a string) mapped to
/// the value a lookup of that name returns.
pub uninterp spec fn header_entries(m: HeaderMap) -> Map<Seq<char>, Seq<char>>;

/// A header map with no entries.
pub open spec fn no_headers() -> Map<Seq<char>, Seq<char>> {
    Map::empty()
}

/// Relies on `async_nats::HeaderMap::new`: it creates an empty header map.
#[verifier::external_body]
pub(crate) fn header_map_new() -> (m: HeaderMap)
    ensures
        header_entries(m) == no_headers(),
{
    HeaderMap::new()
}

/// Relies on `async_nats::HeaderMap::insert`: it replaces whatever was stored
/// under `name` with the single `value` and leaves every other name unchanged.
#[verifier::external_body]
pub(crate) fn header_map_insert(m: &mut HeaderMap, name: &str, value: &str)
    ensures
        header_entries(*final(m)) == header_entries(*old(m)).insert(name@, value@),
{
    m.insert(name, value);
}

/// Relies on `async_nats::HeaderMap::get`: it returns the value stored under
/// `name`, if any.
#[verifier::external_body]
pub(crate) fn header_map_get(m: &HeaderMap, name: &str) -> (r: Option<String>)
    ensures
        r is Some <==> header_entries(*m).dom().contains(name@),
        r matches Some(v) ==> v@ == header_entries(*m)[name@],
{
    m.get(name).map(|v| String::from(v.as_str()))
}

/// The reserved header carrying the record's step.
pub open spec fn step_header_name() -> Seq<char> {
    "Feldera-Step"@
}

/// The reserved header carrying the record's substep.
pub open spec fn substep_header_name() -> Seq<char> {
    "Feldera-Substep"@
}

/// The two reserved position headers of a record at `(step, substep)`.
pub open spec fn reserved_headers(step: u64, substep: u64) -> Map<Seq<char>, Seq<char>> {
    no_headers().insert(step_header_name(), dec_chars(step as nat)).insert(
        substep_header_name(),
        dec_chars(substep as nat),
    )
}

/// Layer the statically configured headers over `m`, in order.
pub open spec fn insert_static(
    m: Map<Seq<char>, Seq<char>>,
    hs: Seq<(Seq<char>, Seq<char>)>,
) -> Map<Seq<char>, Seq<char>>
    decreases hs.len(),
{
    if hs.len() == 0 {
        m
    } else {
        insert_static(m, hs.drop_last()).insert(hs.last().0, hs.last().1)
    }
}

/// Layer the caller-supplied headers over `m`, in order; entries without a
/// value are skipped.
pub open spec fn insert_extra(
    m: Map<Seq<char>, Seq<char>>,
    hs: Seq<(Seq<char>, Option<Seq<u8>>)>,
) -> Map<Seq<char>, Seq<char>>
    decreases hs.len(),
{
    if hs.len() == 0 {
        m
    } else {
        let prev = insert_extra(m, hs.drop_last());
        match hs.last().1 {
            Some(v) => prev.insert(hs.last().0, decode_utf8(v)),
            None => prev,
        }
    }
}

/// Every caller-supplied header value present is valid UTF-8.
pub open spec fn extra_ok(hs: Seq<(Seq<char>, Option<Seq<u8>>)>) -> bool {
    forall|i: int|
        0 <= i < hs.len() ==> match (#[trigger] hs[i]).1 {
            Some(v) => valid_utf8(v),
            None => true,
        }
}

/// The full header set of a record: reserved position headers first, then the
/// statically configured headers, then the caller-supplied ones, so that a
/// later entry with the same name overrides an earlier one.
pub open spec fn built_headers(
    step: u64,
    substep: u64,
    static_hs: Seq<(Seq<char>, Seq<char>)>,
    extra_hs: Seq<(Seq<char>, Option<Seq<u8>>)>,
) -> Map<Seq<char>, Seq<char>> {
    insert_extra(insert_static(reserved_headers(step, substep), static_hs), extra_hs)
}

/// The mathematical image of the statically configured header list.
pub open spec fn static_view(h: Option<&Vec<(String, String)>>) -> Seq<(Seq<char>, Seq<char>)> {
    match h {
        Some(v) => Seq::new(v@.len(), |i: int| (v@[i].0@, v@[i].1@)),
        None => Seq::empty(),
    }
}

/// The same image, taken from the configuration's owned list.
pub open spec fn static_view_owned(h: Option<Vec<(String, String)>>) -> Seq<
    (Seq<char>, Seq<char>),
> {
    match h {
        Some(v) => Seq::new(v@.len(), |i: int| (v@[i].0@, v@[i].1@)),
        None => Seq::empty(),
    }
}

/// No caller-supplied headers.
pub open spec fn no_extra_headers() -> Seq<(Seq<char>, Option<Seq<u8>>)> {
    Seq::empty()
}

/// The mathematical image of a caller-supplied header list.
pub open spec fn extra_view(h: Seq<(String, Option<Vec<u8>>)>) -> Seq<
    (Seq<char>, Option<Seq<u8>>),
> {
    Seq::new(
        h.len(),
        |i: int|
            (
                h[i].0@,
                match h[i].1 {
                    Some(v) => Some(v@),
                    None => None,
                },
            ),
    )
}

/// Layering headers whose names avoid `name` leaves `name`'s entry alone.
proof fn lemma_insert_static_preserves(
    m: Map<Seq<char>, Seq<char>>,
    hs: Seq<(Seq<char>, Seq<char>)>,
    name: Seq<char>,
)
    requires
        forall|i: int| 0 <= i < hs.len() ==> (#[trigger] hs[i]).0 != name,
        m.dom().contains(name),
    ensures
        insert_static(m, hs).dom().contains(name),
        insert_static(m, hs)[name] == m[name],
    decreases hs.len(),
{
    if hs.len() > 0 {
        assert(forall|i: int| 0 <= i < hs.len() - 1 ==> (#[trigger] hs.drop_last()[i]).0 != name);
        lemma_insert_static_preserves(m, hs.drop_last(), name);
    }
}

/// Layering caller headers whose names avoid `name` leaves `name`'s entry
/// alone.
proof fn lemma_insert_extra_preserves(
    m: Map<Seq<char>, Seq<char>>,
    hs: Seq<(Seq<char>, Option<Seq<u8>>)>,
    name: Seq<char>,
)
    requires
        forall|i: int| 0 <= i < hs.len() ==> (#[trigger] hs[i]).0 != name,
        m.dom().contains(name),
    ensures
        insert_extra(m, hs).dom().contains(name),
        insert_extra(m, hs)[name] == m[name],
    decreases hs.len(),
{
    if hs.len() > 0 {
        assert(forall|i: int| 0 <= i < hs.len() - 1 ==> (#[trigger] hs.drop_last()[i]).0 != name);
        lemma_insert_extra_preserves(m, hs.drop_last(), name);
    }
}

/// Every record's header set carries its exact position: unless a configured
/// or caller-supplied header reuses one of the two reserved names, the built
/// header set maps the step header to the decimal step and the substep
/// header to the decimal substep.
pub proof fn lemma_built_headers_tagged(
    step: u64,
    substep: u64,
    shs: Seq<(Seq<char>, Seq<char>)>,
    ehs: Seq<(Seq<char>, Option<Seq<u8>>)>,
)
    requires
        forall|i: int|
            0 <= i < shs.len() ==> (#[trigger] shs[i]).0 != step_header_name() && shs[i].0
                != substep_header_name(),
        forall|i: int|
            0 <= i < ehs.len() ==> (#[trigger] ehs[i]).0 != step_header_name() && ehs[i].0
                != substep_header_name(),
    ensures
        built_headers(step, substep, shs, ehs).dom().contains(step_header_name()),
        built_headers(step, substep, shs, ehs)[step_header_name()] == dec_chars(step as nat),
        built_headers(step, substep, shs, ehs).dom().contains(substep_header_name()),
        built_headers(step, substep, shs, ehs)[substep_header_name()] == dec_chars(substep as nat),
{
    reveal_strlit("Feldera-Step");
    reveal_strlit("Feldera-Substep");
    assert(step_header_name().len() == 12);
    assert(substep_header_name().len() == 15);
    assert(step_header_name() != substep_header_name());
    let reserved = reserved_headers(step, substep);
    assert(reserved[step_header_name()] == dec_chars(step as nat));
    assert(reserved[substep_header_name()] == dec_chars(substep as nat));
    lemma_insert_static_preserves(reserved, shs, step_header_name());
    lemma_insert_static_preserves(reserved, shs, substep_header_name());
    lemma_insert_extra_preserves(insert_static(reserved, shs), ehs, step_header_name());
    lemma_insert_extra_preserves(insert_static(reserved, shs), ehs, substep_header_name());
}

/// Build the header map for one buffered record: the reserved step and
/// substep headers, the statically configured headers, and the caller's
/// headers, layered in that order. Fails exactly when a caller-supplied
/// header value is present but not valid UTF-8.
pub fn build_headers(
    static_headers: Option<&Vec<(String, String)>>,
    extra_headers: &Vec<(String, Option<Vec<u8>>)>,
    position: &OutputPosition,
) -> (r: Result<HeaderMap, OutputError>)
    ensures
        r is Ok <==> extra_ok(extra_view(extra_headers@)),
        r matches Ok(m) ==> header_entries(m) == built_headers(
            position.step,
            position.substep,
            static_view(static_headers),
            extra_view(extra_headers@),
        ),
        r matches Err(e) ==> e == OutputError::InvalidHeaderValue,
{
    let mut m = header_map_new();
    let step_text = u64_to_dec_string(position.step);
    header_map_insert(&mut m, "Feldera-Step", step_text.as_str());
    let substep_text = u64_to_dec_string(position.substep);
    header_map_insert(&mut m, "Feldera-Substep", substep_text.as_str());
    proof {
        assert(header_entries(m) == reserved_headers(position.step, position.substep));
    }
    let ghost base = reserved_headers(position.step, position.substep);
    let ghost sview = static_view(static_headers);
    match static_headers {
        Some(hs) => {
            let mut i: usize = 0;
            while i < hs.len()
                invariant
                    0 <= i <= hs@.len(),
                    sview == static_view(Some(hs)),
                    sview.len() == hs@.len(),
                    header_entries(m) == insert_static(base, sview.take(i as int)),
                decreases hs@.len() - i,
            {
                let pair = &hs[i];
                header_map_insert(&mut m, pair.0.as_str(), pair.1.as_str());
                proof {
                    assert(sview.take(i + 1).drop_last() =~= sview.take(i as int));
                    assert(sview.take(i + 1).last() == sview[i as int]);
                }
                i = i + 1;
            }
            proof {
                assert(sview.take(sview.len() as int) =~= sview);
            }
        },
        None => {
            proof {
                assert(sview.take(0) =~= sview);
                assert(insert_static(base, sview) == base);
            }
        },
    }
    proof {
        assert(header_entries(m) == insert_static(base, sview));
    }
    let ghost mid = insert_static(base, sview);
    let ghost eview = extra_view(extra_headers@);
    let mut j: usize = 0;
    while j < extra_headers.len()
        invariant
            0 <= j <= extra_headers@.len(),
            eview == extra_view(extra_headers@),
            eview.len() == extra_headers@.len(),
            extra_ok(eview.take(j as int)),
            header_entries(m) == insert_extra(mid, eview.take(j as int)),
        decreases extra_headers@.len() - j,
    {
        let pair = &extra_headers[j];
        match &pair.1 {
            Some(value_bytes) => {
                match bytes_as_str(value_bytes.as_slice()) {
                    Some(value_str) => {
                        header_map_insert(&mut m, pair.0.as_str(), value_str);
                    },
                    None => {
                        proof {
                            assert(eview[j as int].1 matches Some(v) && !valid_utf8(v));
                            assert(!extra_ok(eview));
                        }
                        return Err(OutputError::InvalidHeaderValue);
                    },
                }
            },
            None => {},
        }
        proof {
            assert(eview.take(j + 1).drop_last() =~= eview.take(j as int));
            assert(eview.take(j + 1).last() == eview[j as int]);
            assert(forall|k: int|
                0 <= k < j + 1 ==> (0 <= k < j || k == j) && eview.take(j + 1)[k] == eview[k]);
        }
        j = j + 1;
    }
    proof {
        assert(eview.take(eview.len() as int) =~= eview);
    }
    Ok(m)
}

} // verus!
