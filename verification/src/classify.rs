//! Response classification.
//!
//! The server answers with a status code and a body.  A status below 400
//! carries a success payload whose first status entry names a filled or
//! resting order; a status in the 400s carries a structured error that the
//! request itself caused and must not be retried verbatim; a status of 500
//! or above is a server fault and safe to retry with backoff.  The decision
//! table lives in `spec_classify`; parsing of the two JSON schemas is done
//! by an outside crate behind trusted wrappers whose results are named, and
//! `classify_parsed` applies the table to any parse outcome, exactly.

use vstd::prelude::*;

verus! {

/// The first status entry of a decoded success payload.
#[derive(Clone, Copy, PartialEq, Eq, Structural, Debug)]
pub enum SuccessFirst {
    Filled { oid: u64 },
    Resting { oid: u64 },
    Other,
}

/// The classified result of one submission.
pub enum Outcome {
    /// Matched immediately; the venue's order id.
    Filled { oid: u64 },
    /// Accepted and resting on the book; the venue's order id.
    Resting { oid: u64 },
    /// A success status whose body was not the expected payload.
    OtherStatus { raw: String },
    /// The request itself was rejected; not to be retried verbatim.
    ClientError { status: u16, code: Option<u16>, message: String, data: Option<String> },
    /// A server-side fault; a candidate for retry with backoff.
    ServerError { status: u16, message: String },
    /// The network failed or timed out before a status was obtained.
    TransportError { message: String },
}

/// The mathematical view of an outcome.
pub ghost enum OutcomeV {
    Filled { oid: u64 },
    Resting { oid: u64 },
    OtherStatus { raw: Seq<char> },
    ClientError { status: u16, code: Option<u16>, message: Seq<char>, data: Option<Seq<char>> },
    ServerError { status: u16, message: Seq<char> },
    TransportError { message: Seq<char> },
}

impl View for Outcome {
    type V = OutcomeV;

    open spec fn view(&self) -> OutcomeV {
        match self {
            Outcome::Filled { oid } => OutcomeV::Filled { oid: *oid },
            Outcome::Resting { oid } => OutcomeV::Resting { oid: *oid },
            Outcome::OtherStatus { raw } => OutcomeV::OtherStatus { raw: raw@ },
            Outcome::ClientError { status, code, message, data } => OutcomeV::ClientError {
                status: *status,
                code: *code,
                message: message@,
                data: match data {
                    Some(d) => Some(d@),
                    None => None,
                },
            },
            Outcome::ServerError { status, message } => OutcomeV::ServerError {
                status: *status,
                message: message@,
            },
            Outcome::TransportError { message } => OutcomeV::TransportError { message: message@ },
        }
    }
}

/// What the error schema parse returns for a given body: the code, message
/// and data fields, or a description of why the body is not that schema.
pub uninterp spec fn error_parse_of(s: Seq<char>) -> Result<(u16, Seq<char>, Seq<char>), Seq<char>>;

/// What the success payload parse returns for a given body: the first
/// status entry, or nothing when the body is not the success schema.
pub uninterp spec fn success_parse_of(s: Seq<char>) -> Option<SuccessFirst>;

/// Relies on `serde_json::from_str`: parses the body as the structured
/// error schema `{code, msg, data}`.  The result is a function of the body
/// text alone.
#[verifier::external_body]
fn parse_error_schema(s: &str) -> (r: Result<(u16, String, String), String>)
    ensures
        match r {
            Ok((c, m, d)) => error_parse_of(s@) == Ok::<(u16, Seq<char>, Seq<char>), Seq<char>>(
                (c, m@, d@),
            ),
            Err(e) => error_parse_of(s@) == Err::<(u16, Seq<char>, Seq<char>), Seq<char>>(e@),
        },
{
    let v: serde_json::Value = match serde_json::from_str(s) {
        Ok(v) => v,
        Err(e) => return Err(e.to_string()),
    };
    let code = v.get("code").and_then(serde_json::Value::as_u64).and_then(|c| u16::try_from(c).ok());
    let msg = v.get("msg").and_then(serde_json::Value::as_str);
    let data = v.get("data").and_then(serde_json::Value::as_str);
    match (code, msg, data) {
        (Some(c), Some(m), Some(d)) => Ok((c, m.to_string(), d.to_string())),
        _ => Err(String::from("body is not the error schema")),
    }
}

/// Relies on `serde_json::from_str`: decodes the success payload and picks
/// its first status entry.  The result is a function of the body text
/// alone.
#[verifier::external_body]
fn parse_success_schema(s: &str) -> (r: Option<SuccessFirst>)
    ensures
        r == success_parse_of(s@),
{
    let v: serde_json::Value = serde_json::from_str(s).ok()?;
    let st = v.get("data")?.get("statuses")?.as_array()?.first()?;
    if let Some(f) = st.get("filled") {
        return Some(SuccessFirst::Filled { oid: f.get("oid")?.as_u64()? });
    }
    if let Some(rs) = st.get("resting") {
        return Some(SuccessFirst::Resting { oid: rs.get("oid")?.as_u64()? });
    }
    Some(SuccessFirst::Other)
}

/// The decision table.  A status below 400 maps the first status entry to
/// `Filled` or `Resting` and anything else to `OtherStatus` with the raw
/// body; a status in the 400s yields `ClientError` carrying the parsed
/// error fields, or the raw body and the parse-failure description when the
/// body is not the error schema; 500 and above yields `ServerError` with
/// the raw body.
pub open spec fn spec_classify(
    status: u16,
    body: Seq<char>,
    succ: Option<SuccessFirst>,
    err: Result<(u16, Seq<char>, Seq<char>), Seq<char>>,
) -> OutcomeV {
    if status < 400 {
        match succ {
            Some(SuccessFirst::Filled { oid }) => OutcomeV::Filled { oid },
            Some(SuccessFirst::Resting { oid }) => OutcomeV::Resting { oid },
            Some(SuccessFirst::Other) => OutcomeV::OtherStatus { raw: body },
            None => OutcomeV::OtherStatus { raw: body },
        }
    } else if status < 500 {
        match err {
            Ok((c, m, d)) => OutcomeV::ClientError {
                status,
                code: Some(c),
                message: m,
                data: Some(d),
            },
            Err(desc) => OutcomeV::ClientError {
                status,
                code: None,
                message: body,
                data: Some(desc),
            },
        }
    } else {
        OutcomeV::ServerError { status, message: body }
    }
}

/// Apply the decision table to a status, a body and the two parse results.
/// This function is exact for every value of the parses, so the table can
/// be checked on concrete inputs independently of the JSON parser.
pub fn classify_parsed(
    status: u16,
    body: String,
    succ: Option<SuccessFirst>,
    err: Result<(u16, String, String), String>,
) -> (r: Outcome)
    ensures
        r@ == spec_classify(
            status,
            body@,
            succ,
            match err {
                Ok((c, m, d)) => Ok((c, m@, d@)),
                Err(e) => Err(e@),
            },
        ),
{
    if status < 400 {
        match succ {
            Some(SuccessFirst::Filled { oid }) => Outcome::Filled { oid },
            Some(SuccessFirst::Resting { oid }) => Outcome::Resting { oid },
            Some(SuccessFirst::Other) => Outcome::OtherStatus { raw: body },
            None => Outcome::OtherStatus { raw: body },
        }
    } else if status < 500 {
        match err {
            Ok((c, m, d)) => Outcome::ClientError {
                status,
                code: Some(c),
                message: m,
                data: Some(d),
            },
            Err(desc) => Outcome::ClientError {
                status,
                code: None,
                message: body,
                data: Some(desc),
            },
        }
    } else {
        Outcome::ServerError { status, message: body }
    }
}

/// Classify a raw response.  Success payloads are decoded only for success
/// statuses and the error schema only for client-error statuses, exactly as
/// the decision table reads them.
pub fn classify(status: u16, body: String) -> (r: Outcome)
    ensures
        r@ == spec_classify(status, body@, success_parse_of(body@), error_parse_of(body@)),
{
    if status < 400 {
        let succ = parse_success_schema(body.as_str());
        classify_parsed(status, body, succ, Err(String::new()))
    } else if status < 500 {
        let err = parse_error_schema(body.as_str());
        classify_parsed(status, body, None, err)
    } else {
        classify_parsed(status, body, None, Err(String::new()))
    }
}

} // verus!
