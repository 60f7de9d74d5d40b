//! A reading with its timestamp, and the single-point write that persists it.

use crate::packet::AirQualityPacket;
use vstd::prelude::*;

verus! {

/// One measurement with the instant at which it was handled.
#[derive(Clone, Copy, Debug, PartialEq, Eq, Structural)]
pub struct TimestampedReading {
    /// Concentration of fine particulate matter.
    pub pm25: i32,
    /// Nanoseconds since the Unix epoch.
    pub time: u64,
}

/// The series that every reading is written to.
pub open spec fn series_name() -> Seq<char> {
    "aqi"@
}

/// The name of the one field of a written point.
pub open spec fn field_name() -> Seq<char> {
    "pm25"@
}

/// The instant that a clock reading stands for: a reading before the epoch,
/// or none at all, gives no instant.
pub open spec fn instant_of(clock: Option<i64>) -> Option<u64> {
    match clock {
        Some(nanos) => if nanos >= 0 {
            Some(nanos as u64)
        } else {
            None
        },
        None => None,
    }
}

/// The reading made of a packet at a clock reading.
pub open spec fn reading_of(packet: AirQualityPacket, clock: Option<i64>) -> Option<
    TimestampedReading,
> {
    match instant_of(clock) {
        Some(time) => Some(TimestampedReading { pm25: packet.pm25, time }),
        None => None,
    }
}

/// Stamps a packet with a clock reading, in nanoseconds since the Unix epoch.
pub fn stamp(packet: AirQualityPacket, clock: Option<i64>) -> (r: Option<TimestampedReading>)
    ensures
        r == reading_of(packet, clock),
{
    match clock {
        Some(nanos) => {
            if nanos >= 0 {
                Some(TimestampedReading { pm25: packet.pm25, time: nanos as u64 })
            } else {
                None
            }
        },
        None => None,
    }
}

/// Reads `std::time::SystemTime::now` and has `chrono` turn it into
/// nanoseconds since the Unix epoch, by its `From<SystemTime>` for
/// `DateTime<Utc>` and `DateTime::timestamp_nanos_opt`.
///
/// Trusted, and nothing is claimed of the result. A clock that stands before
/// the epoch gives a negative count, and a date that does not fit in 64 bits
/// of nanoseconds gives `None`. The conversion is defined for every system
/// time within the years that `chrono` holds, some 262,000 to either side of
/// the epoch.
#[verifier::external_body]
pub(crate) fn wall_clock_nanos() -> Option<i64> {
    chrono::DateTime::<chrono::Utc>::from(std::time::SystemTime::now()).timestamp_nanos_opt()
}

/// `influxdb::WriteQuery`, carried through as an opaque value: what it writes
/// is known only through `query_point`.
#[verifier::external_type_specification]
#[verifier::external_body]
pub struct ExWriteQuery(influxdb::WriteQuery);

/// A point of a time series as a mathematical value.
pub struct Point {
    /// The series (measurement) that the point belongs to.
    pub series: Seq<char>,
    /// The names of its tags, in the order in which they were added.
    pub tags: Seq<Seq<char>>,
    /// Its integer fields, in the order in which they were added.
    pub fields: Seq<(Seq<char>, int)>,
    /// Its timestamp, in nanoseconds since the Unix epoch.
    pub nanos: int,
}

/// The point that an `influxdb::WriteQuery` writes.
pub uninterp spec fn query_point(query: influxdb::WriteQuery) -> Point;

/// Calls `influxdb::WriteQuery::new` with a timestamp in nanoseconds.
///
/// Trusted: the query is for the given series and instant, and has neither
/// tags nor fields yet.
#[verifier::external_body]
pub(crate) fn new_query(nanos: u64, series: &str) -> (query: influxdb::WriteQuery)
    ensures
        query_point(query) == (Point {
            series: series@,
            tags: Seq::empty(),
            fields: Seq::empty(),
            nanos: nanos as int,
        }),
{
    influxdb::WriteQuery::new(influxdb::Timestamp::Nanoseconds(nanos.into()), series)
}

/// Calls `influxdb::WriteQuery::add_field` with a 32-bit integer.
///
/// Trusted: the field is added behind those that the query has, and nothing
/// else changes.
#[verifier::external_body]
pub(crate) fn with_integer_field(query: influxdb::WriteQuery, name: &str, value: i32) -> (r:
    influxdb::WriteQuery)
    ensures
        query_point(r) == (Point {
            fields: query_point(query).fields.push((name@, value as int)),
            ..query_point(query)
        }),
{
    query.add_field(name, value)
}

/// The point that persists a reading: in the fixed series, with the one
/// field `pm25`, at the reading's own instant.
pub open spec fn point_of(reading: TimestampedReading) -> Point {
    Point {
        series: series_name(),
        tags: Seq::empty(),
        fields: seq![(field_name(), reading.pm25 as int)],
        nanos: reading.time as int,
    }
}

/// Builds the write request for one reading. Every reading gets a request of
/// its own: nothing is buffered or batched.
pub fn write_query(reading: &TimestampedReading) -> (query: influxdb::WriteQuery)
    ensures
        query_point(query) == point_of(*reading),
{
    let empty = new_query(reading.time, "aqi");
    let query = with_integer_field(empty, "pm25", reading.pm25);
    proof {
        assert(query_point(query).fields =~= point_of(*reading).fields);
    }
    query
}

} // verus!
