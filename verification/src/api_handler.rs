//! What the HTTP surface answers: the colour as text, the merge of a
//! `setRGBA` query, and the help page.

use crate::color_state::{ColorState, Committed, LockUnavailable};
use crate::decimal::{decimal_digits, push_decimal};
use crate::query::{lemma_query_is_idempotent, pairs_applied, query_pairs_of, request_pairs};
use crate::rgb_led::{composited, LogicalColor, PhysicalColor};
use std::sync::Arc;
use vstd::prelude::*;

verus! {

/// The four fields of a colour as decimal text, separated by commas.
pub open spec fn csv_text(color: LogicalColor) -> Seq<u8> {
    decimal_digits(color.r as nat) + seq![44u8] + decimal_digits(color.g as nat) + seq![44u8]
        + decimal_digits(color.b as nat) + seq![44u8] + decimal_digits(color.a as nat)
}

/// Writes a colour as `r,g,b,a`.
pub fn csv_body(color: &LogicalColor) -> (res: Vec<u8>)
    ensures
        res@ == csv_text(*color),
{
    let mut out: Vec<u8> = Vec::new();
    push_decimal(&mut out, color.r);
    out.push(44);
    push_decimal(&mut out, color.g);
    out.push(44);
    push_decimal(&mut out, color.b);
    out.push(44);
    push_decimal(&mut out, color.a);
    assert(out@ =~= csv_text(*color));
    out
}

/// Why a request was answered with status 400.
#[derive(Clone, Copy, Debug, PartialEq, Eq, Structural)]
pub enum HandlerFailure {
    /// The request URI could not be resolved to a URL.
    UrlParse,
    /// The colour record could not be read.
    ReadLock,
    /// The colour record could not be written.
    WriteLock,
}

impl HandlerFailure {
    /// The HTTP status that goes with every failure.
    pub fn status(&self) -> (res: u16)
        ensures
            res == 400,
    {
        400
    }

    /// The short diagnostic that goes with the failure.
    pub fn message(&self) -> (res: &'static str)
        ensures
            res@ == match *self {
                HandlerFailure::UrlParse => "parse URL from request"@,
                HandlerFailure::ReadLock => "could not get read lock"@,
                HandlerFailure::WriteLock => "could not get write lock"@,
            },
    {
        match self {
            HandlerFailure::UrlParse => "parse URL from request",
            HandlerFailure::ReadLock => "could not get read lock",
            HandlerFailure::WriteLock => "could not get write lock",
        }
    }
}

/// The answer to `getRGBA` for a given outcome of reading the record.
pub fn color_reply(snapshot: Result<LogicalColor, LockUnavailable>) -> (res: Result<
    Vec<u8>,
    HandlerFailure,
>)
    ensures
        match snapshot {
            Ok(color) => res matches Ok(body) && body@ == csv_text(color),
            Err(_) => res == Err::<Vec<u8>, HandlerFailure>(HandlerFailure::ReadLock),
        },
{
    match snapshot {
        Ok(color) => Ok(csv_body(&color)),
        Err(_) => Err(HandlerFailure::ReadLock),
    }
}

/// Answers `getRGBA`.
pub struct GetRGBAHandler {
    pub rgba: Arc<ColorState>,
}

impl GetRGBAHandler {
    pub fn new(rgba: Arc<ColorState>) -> (res: GetRGBAHandler)
        ensures
            res.rgba == rgba,
    {
        GetRGBAHandler { rgba }
    }

    /// The current colour as text. The record is not changed.
    pub fn handle(&self) -> (res: Result<Vec<u8>, HandlerFailure>)
        ensures
            match res {
                Ok(body) => exists|color: LogicalColor| body@ == #[trigger] csv_text(color),
                Err(failure) => failure == HandlerFailure::ReadLock,
            },
    {
        color_reply(self.rgba.snapshot())
    }
}

/// The answer to an accepted `setRGBA` request.
pub struct SetReply {
    /// The record before and after the merge.
    pub change: Committed,
    /// What the outputs are to be driven with, at once.
    pub render: PhysicalColor,
    /// The committed colour as text.
    pub body: Vec<u8>,
}

/// The answer to `setRGBA` for a given outcome of the merge.
pub fn set_reply(commit: Result<Committed, LockUnavailable>) -> (res: Result<SetReply, HandlerFailure>)
    ensures
        match commit {
            Ok(change) => res matches Ok(reply) && reply.change == change && reply.render
                == composited(change.after) && reply.body@ == csv_text(change.after),
            Err(_) => res matches Err(failure) && failure == HandlerFailure::WriteLock,
        },
{
    match commit {
        Ok(change) => Ok(
            SetReply {
                change,
                render: change.after.get_updated_channels(),
                body: csv_body(&change.after),
            },
        ),
        Err(_) => Err(HandlerFailure::WriteLock),
    }
}

/// Answers `setRGBA`.
pub struct SetRGBAHandler {
    rgba: Arc<ColorState>,
}

impl SetRGBAHandler {
    /// The record that the handler writes to.
    pub closed spec fn shared(&self) -> Arc<ColorState> {
        self.rgba
    }

    pub fn new(rgba: Arc<ColorState>) -> (res: SetRGBAHandler)
        ensures
            res.shared() == rgba,
    {
        SetRGBAHandler { rgba }
    }

    /// Merges the query of `uri` into the record in one exclusive step and
    /// says what to render and what to answer.
    ///
    /// A URI that cannot be resolved fails before the record is touched.
    pub fn handle(&self, uri: &str) -> (res: Result<SetReply, HandlerFailure>)
        ensures
            match request_pairs(uri@) {
                Some(pairs) => match res {
                    Ok(reply) => reply.change.after == pairs_applied(reply.change.before, pairs)
                        && reply.render == composited(reply.change.after) && reply.body@
                        == csv_text(reply.change.after),
                    Err(failure) => failure == HandlerFailure::WriteLock,
                },
                None => res matches Err(failure) && failure == HandlerFailure::UrlParse,
            },
    {
        match query_pairs_of(uri) {
            Some(pairs) => set_reply(self.rgba.commit_query(&pairs)),
            None => Err(HandlerFailure::UrlParse),
        }
    }
}

/// A `setRGBA` request that is repeated commits the same colour, renders
/// the same and gets the same answer as the first time.
pub proof fn lemma_repeated_set_request(uri: Seq<char>, before: LogicalColor)
    requires
        request_pairs(uri).is_some(),
    ensures
        ({
            let pairs = request_pairs(uri).unwrap();
            let first = pairs_applied(before, pairs);
            let second = pairs_applied(first, pairs);
            &&& second == first
            &&& composited(second) == composited(first)
            &&& csv_text(second) == csv_text(first)
        }),
{
    lemma_query_is_idempotent(before, request_pairs(uri).unwrap());
}

/// Answers `help`.
pub struct HelpHandler {}

impl HelpHandler {
    pub fn new() -> (res: HelpHandler)
        ensures
            res == (HelpHandler {  }),
    {
        HelpHandler {  }
    }

    /// The help page.
    pub fn handle(&self) -> (res: &'static str)
        ensures
            res@ == "<h1>Help - Supported functions</h1>
            <b>/help</b> - shows this help page</br>
            <b>/setRGBA?r=VALUE&g=VALUE&b=VALUE&a=VALUE</b> - sets the r,g,b and brightness/ alpha values</br>
            <b>/getRGBA</b> - gets the r,g,b and brightness/alpha values (in this order) as CSV without a CSV header</br>"@,
    {
        "<h1>Help - Supported functions</h1>
            <b>/help</b> - shows this help page</br>
            <b>/setRGBA?r=VALUE&g=VALUE&b=VALUE&a=VALUE</b> - sets the r,g,b and brightness/ alpha values</br>
            <b>/getRGBA</b> - gets the r,g,b and brightness/alpha values (in this order) as CSV without a CSV header</br>"
    }
}

} // verus!
