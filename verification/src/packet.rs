//! Decoding a message body into an air-quality packet.

use crate::json::{decode, integer, json_text, member, value_content, Json};
use vstd::prelude::*;

verus! {

/// The decoded payload of one message.
#[derive(Clone, Copy, Debug, PartialEq, Eq, Structural)]
pub struct AirQualityPacket {
    /// Concentration of fine particulate matter, as the sensor reports it.
    pub pm25: i32,
}

/// Why a message body is not a packet.
#[derive(Clone, Copy, Debug, PartialEq, Eq, Structural)]
pub enum ParseFailure {
    /// The body is not well-formed JSON.
    Malformed,
    /// The body is not an object with a member `pm25`.
    MissingField,
    /// `pm25` is there, but is not an integer that fits in 32 bits.
    NotAnInteger,
}

/// The name of the one member that a packet must have.
pub open spec fn pm25_key() -> Seq<char> {
    "pm25"@
}

/// Whether `n` can be the `pm25` of a packet.
pub open spec fn fits_pm25(n: int) -> bool {
    i32::MIN <= n <= i32::MAX
}

/// What a document decodes to: every other member is ignored.
pub open spec fn packet_of_json(doc: Json) -> Result<AirQualityPacket, ParseFailure> {
    if !doc.has_member(pm25_key()) {
        Err(ParseFailure::MissingField)
    } else {
        match doc.member(pm25_key()) {
            Json::Integer(n) => if fits_pm25(n) {
                Ok(AirQualityPacket { pm25: n as i32 })
            } else {
                Err(ParseFailure::NotAnInteger)
            },
            _ => Err(ParseFailure::NotAnInteger),
        }
    }
}

/// What a message body decodes to, given the document read from it.
pub open spec fn packet_of(doc: Option<Json>) -> Result<AirQualityPacket, ParseFailure> {
    match doc {
        None => Err(ParseFailure::Malformed),
        Some(json) => packet_of_json(json),
    }
}

/// Whether a document carries a valid `pm25` of value `n`.
pub open spec fn carries_pm25(doc: Option<Json>, n: int) -> bool {
    &&& doc is Some
    &&& doc->0.has_member(pm25_key())
    &&& doc->0.member(pm25_key()) == Json::Integer(n)
    &&& fits_pm25(n)
}

/// Whether a document carries some valid `pm25`.
pub open spec fn is_valid(doc: Option<Json>) -> bool {
    exists|n: int| carries_pm25(doc, n)
}

/// The `pm25` that a valid document carries.
pub open spec fn carried_value(doc: Option<Json>) -> int {
    choose|n: int| carries_pm25(doc, n)
}

/// Extracts the packet from a document that was already read.
pub fn packet_from_value(value: &serde_json::Value) -> (r: Result<AirQualityPacket, ParseFailure>)
    ensures
        r == packet_of_json(value_content(*value)),
{
    match member(value, "pm25") {
        None => Err(ParseFailure::MissingField),
        Some(field) => match integer(field) {
            None => Err(ParseFailure::NotAnInteger),
            Some(n) => {
                if -2147483648 <= n && n <= 2147483647 {
                    Ok(AirQualityPacket { pm25: n as i32 })
                } else {
                    Err(ParseFailure::NotAnInteger)
                }
            },
        },
    }
}

/// Decodes a message body. Nothing is changed and nothing is reported: the
/// caller decides what a failure means.
///
/// The body is read as a whole before `pm25` is looked up, so a member that
/// is no JSON value makes the body malformed even where `pm25` is valid, and
/// of a `pm25` that the body repeats the last one counts.
pub fn parse_packet(payload: &[u8]) -> (r: Result<AirQualityPacket, ParseFailure>)
    ensures
        r == packet_of(json_text(payload@)),
        forall|n: int| #[trigger]
            carries_pm25(json_text(payload@), n) ==> r == Ok::<AirQualityPacket, ParseFailure>(
                AirQualityPacket { pm25: n as i32 },
            ) && r->Ok_0.pm25 == n,
        r is Err <==> !is_valid(json_text(payload@)),
{
    proof {
        lemma_invalid_input_fails(json_text(payload@));
    }
    match decode(payload) {
        Err(_) => Err(ParseFailure::Malformed),
        Ok(value) => packet_from_value(&value),
    }
}

/// A document with a valid integer `pm25` decodes to a packet with exactly
/// that value, whatever else the document holds.
pub proof fn lemma_valid_pm25_is_extracted(doc: Option<Json>, n: int)
    requires
        carries_pm25(doc, n),
    ensures
        packet_of(doc) == Ok::<AirQualityPacket, ParseFailure>(AirQualityPacket { pm25: n as i32 }),
        (n as i32) as int == n,
{
}

/// A document carries at most one valid `pm25`, and it is the value that
/// decoding gives.
pub proof fn lemma_carried_value_is_unique(doc: Option<Json>, n: int)
    requires
        carries_pm25(doc, n),
    ensures
        is_valid(doc),
        carried_value(doc) == n,
        packet_of(doc) is Ok,
        packet_of(doc)->Ok_0.pm25 == n,
{
    assert(carries_pm25(doc, carried_value(doc)));
}

/// Two documents that carry the same `pm25` decode to the same packet: the
/// members beside it, known or not and in whatever order, change nothing.
pub proof fn lemma_other_members_change_nothing(first: Option<Json>, second: Option<Json>, n: int)
    requires
        carries_pm25(first, n),
        carries_pm25(second, n),
    ensures
        packet_of(first) == packet_of(second),
{
}

/// A body that is no JSON, a document without `pm25` and a `pm25` that is
/// no 32-bit integer each decode to a failure, and nothing else does.
pub proof fn lemma_invalid_input_fails(doc: Option<Json>)
    ensures
        packet_of(doc) is Err <==> !is_valid(doc),
        doc is None ==> packet_of(doc) == Err::<AirQualityPacket, ParseFailure>(
            ParseFailure::Malformed,
        ),
        doc is Some && !doc->0.has_member(pm25_key()) ==> packet_of(doc) == Err::<
            AirQualityPacket,
            ParseFailure,
        >(ParseFailure::MissingField),
        doc is Some && doc->0.has_member(pm25_key()) && !(exists|n: int|
            doc->0.member(pm25_key()) == Json::Integer(n) && fits_pm25(n)) ==> packet_of(doc)
            == Err::<AirQualityPacket, ParseFailure>(ParseFailure::NotAnInteger),
{
    if packet_of(doc) is Ok {
        assert(doc->0.member(pm25_key()) is Integer);
        assert(carries_pm25(doc, doc->0.member(pm25_key())->Integer_0));
    }
}

} // verus!
