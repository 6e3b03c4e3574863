//! The XML status-request document sent to the market-data API.
//!
//! The request body is a fixed template with one variable part: the queried
//! time interval, rendered as two RFC 3339 timestamps separated by a slash.
//! Rendering a timestamp is delegated to `chrono` behind a trusted wrapper;
//! the template assembly itself is verified.

use vstd::prelude::*;
use vstd::string::StringExecFns;

use crate::calendar::in_calendar_range;
use crate::errors::PredictionError;

verus! {

/// The RFC 3339 rendering, with whole-second precision and a `Z` suffix, of
/// the UTC calendar instant at Unix timestamp `ts`.
pub uninterp spec fn rfc3339_seconds_of(ts: int) -> Seq<char>;

/// Relies on chrono: `DateTime::<Utc>::from_timestamp(ts, 0)`, which returns
/// `Some` exactly on the representable range of timestamps, and
/// `to_rfc3339_opts(SecondsFormat::Secs, true)`, whose output depends on the
/// timestamp alone.
#[verifier::external_body]
fn format_rfc3339_seconds(ts: i64) -> (r: Option<String>)
    ensures
        r is Some <==> in_calendar_range(ts as int),
        r matches Some(s) ==> s@ == rfc3339_seconds_of(ts as int),
{
    match chrono::DateTime::from_timestamp(ts, 0) {
        None => None,
        Some(dt) => Some(dt.to_rfc3339_opts(chrono::SecondsFormat::Secs, true)),
    }
}

/// Everything of the request document before the queried time interval.
pub open spec fn request_body_head() -> Seq<char> {
    r#"
<StatusRequest_MarketDocument xmlns="urn:iec62325.351:tc57wg16:451-5:statusrequestdocument:4:0">
    <mRID>SampleCallToRestfulApi</mRID>
    <type>A59</type>
    <sender_MarketParticipant.mRID codingScheme="A01">10X1001A1001A450</sender_MarketParticipant.mRID>
    <sender_MarketParticipant.marketRole.type>A07</sender_MarketParticipant.marketRole.type>
    <receiver_MarketParticipant.mRID codingScheme="A01">10X1001A1001A450</receiver_MarketParticipant.mRID>
    <receiver_MarketParticipant.marketRole.type>A32</receiver_MarketParticipant.marketRole.type>
    <createdDateTime>2016-01-10T13:00:00Z</createdDateTime>
    <AttributeInstanceComponent>
        <attribute>DocumentType</attribute>
        <attributeValue>A65</attributeValue>
    </AttributeInstanceComponent>
    <AttributeInstanceComponent>
        <attribute>ProcessType</attribute>
        <attributeValue>A16</attributeValue>
    </AttributeInstanceComponent>
    <AttributeInstanceComponent>
        <attribute>OutBiddingZone_Domain</attribute>
        <attributeValue>10YAT-APG------L</attributeValue>
    </AttributeInstanceComponent>
    <AttributeInstanceComponent>
        <attribute>TimeInterval</attribute>
        <attributeValue>"#@
}

/// Everything of the request document after the queried time interval.
pub open spec fn request_body_tail() -> Seq<char> {
    r#"</attributeValue>
    </AttributeInstanceComponent>
</StatusRequest_MarketDocument>
        "#@
}

/// The complete request document querying the interval from `start` to `end`.
pub open spec fn request_body_for(start: int, end: int) -> Seq<char> {
    request_body_head() + rfc3339_seconds_of(start) + "/"@ + rfc3339_seconds_of(end)
        + request_body_tail()
}

/// Renders the XML request body for the interval from `start` to `end` (Unix
/// timestamps in seconds, UTC); fails with `TimestampConversionError` exactly
/// when either bound cannot be resolved to a calendar instant.
pub fn create_request_body(start: i64, end: i64) -> (r: Result<String, PredictionError>)
    ensures
        r is Ok <==> in_calendar_range(start as int) && in_calendar_range(end as int),
        r matches Ok(b) ==> b@ == request_body_for(start as int, end as int),
        r matches Err(e) ==> e == PredictionError::TimestampConversionError,
{
    let start_str = match format_rfc3339_seconds(start) {
        Some(s) => s,
        None => {
            return Err(PredictionError::TimestampConversionError);
        },
    };
    let end_str = match format_rfc3339_seconds(end) {
        Some(s) => s,
        None => {
            return Err(PredictionError::TimestampConversionError);
        },
    };
    let mut body = String::from_str(
        r#"
<StatusRequest_MarketDocument xmlns="urn:iec62325.351:tc57wg16:451-5:statusrequestdocument:4:0">
    <mRID>SampleCallToRestfulApi</mRID>
    <type>A59</type>
    <sender_MarketParticipant.mRID codingScheme="A01">10X1001A1001A450</sender_MarketParticipant.mRID>
    <sender_MarketParticipant.marketRole.type>A07</sender_MarketParticipant.marketRole.type>
    <receiver_MarketParticipant.mRID codingScheme="A01">10X1001A1001A450</receiver_MarketParticipant.mRID>
    <receiver_MarketParticipant.marketRole.type>A32</receiver_MarketParticipant.marketRole.type>
    <createdDateTime>2016-01-10T13:00:00Z</createdDateTime>
    <AttributeInstanceComponent>
        <attribute>DocumentType</attribute>
        <attributeValue>A65</attributeValue>
    </AttributeInstanceComponent>
    <AttributeInstanceComponent>
        <attribute>ProcessType</attribute>
        <attributeValue>A16</attributeValue>
    </AttributeInstanceComponent>
    <AttributeInstanceComponent>
        <attribute>OutBiddingZone_Domain</attribute>
        <attributeValue>10YAT-APG------L</attributeValue>
    </AttributeInstanceComponent>
    <AttributeInstanceComponent>
        <attribute>TimeInterval</attribute>
        <attributeValue>"#,
    );
    body.append(start_str.as_str());
    body.append("/");
    body.append(end_str.as_str());
    body.append(
        r#"</attributeValue>
    </AttributeInstanceComponent>
</StatusRequest_MarketDocument>
        "#,
    );
    Ok(body)
}

} // verus!
