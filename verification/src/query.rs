//! The query string of a `setRGBA` request: its key/value pairs, and what
//! they do to a colour.

use crate::decimal::{parse_u8, strict_number};
use crate::rgb_led::LogicalColor;
use crate::writes::{
    is_channel, lemma_writes_are_idempotent, set_channel, with_channel, writes_applied,
};
use url::{ParseError, Url};
use vstd::prelude::*;

verus! {

#[verifier::external_type_specification]
#[verifier::external_body]
pub struct ExUrl(url::Url);

#[verifier::external_type_specification]
#[verifier::external_body]
pub struct ExParseError(url::ParseError);

/// The URL that `Url::parse` makes of a text, if it makes one.
pub uninterp spec fn url_parsed(input: Seq<char>) -> Option<Url>;

/// The URL that `Url::join` makes of a reference relative to `base`, if it
/// makes one.
pub uninterp spec fn url_joined(base: Url, input: Seq<char>) -> Option<Url>;

/// The decoded key/value pairs of a URL's query string, in their order.
pub uninterp spec fn url_query_pairs(url: Url) -> Seq<(Seq<u8>, Seq<u8>)>;

/// Key/value pairs as sequences of bytes.
pub open spec fn pairs_view(pairs: Vec<(Vec<u8>, Vec<u8>)>) -> Seq<(Seq<u8>, Seq<u8>)> {
    Seq::new(pairs@.len(), |i: int| (pairs@[i].0@, pairs@[i].1@))
}

/// Calls `url::Url::parse`.
///
/// Claimed of it: whether it succeeds, and the URL it returns, depend on the
/// text alone.
#[verifier::external_body]
fn parse_url(input: &str) -> (res: Result<Url, ParseError>)
    ensures
        match res {
            Ok(url) => url_parsed(input@) == Some(url),
            Err(_) => url_parsed(input@).is_none(),
        },
{
    Url::parse(input)
}

/// Calls `url::Url::join`.
///
/// Claimed of it: whether it succeeds, and the URL it returns, depend on the
/// base and the reference alone.
#[verifier::external_body]
fn join_url(base: &Url, input: &str) -> (res: Result<Url, ParseError>)
    ensures
        match res {
            Ok(url) => url_joined(*base, input@) == Some(url),
            Err(_) => url_joined(*base, input@).is_none(),
        },
{
    base.join(input)
}

/// Collects what `url::Url::query_pairs` yields, each key and value as its
/// UTF-8 bytes.
///
/// Claimed of it: the pairs depend on the URL alone.
#[verifier::external_body]
fn query_pairs(url: &Url) -> (res: Vec<(Vec<u8>, Vec<u8>)>)
    ensures
        pairs_view(res) == url_query_pairs(*url),
{
    url.query_pairs().map(|(key, value)| (key.as_bytes().to_vec(), value.as_bytes().to_vec())).collect()
}

/// The pairs in the query of a request URI, resolved against the fixed base
/// `https://localhost`; `None` where the URI cannot be resolved.
pub open spec fn request_pairs(uri: Seq<char>) -> Option<Seq<(Seq<u8>, Seq<u8>)>> {
    match url_parsed("https://localhost"@) {
        Some(base) => match url_joined(base, uri) {
            Some(url) => Some(url_query_pairs(url)),
            None => None,
        },
        None => None,
    }
}

/// Reads the key/value pairs from the query of a request URI.
pub fn query_pairs_of(uri: &str) -> (res: Option<Vec<(Vec<u8>, Vec<u8>)>>)
    ensures
        match res {
            Some(pairs) => request_pairs(uri@) == Some(pairs_view(pairs)),
            None => request_pairs(uri@).is_none(),
        },
{
    let base = match parse_url("https://localhost") {
        Ok(base) => base,
        Err(_) => {
            return None;
        },
    };
    match join_url(&base, uri) {
        Ok(url) => Some(query_pairs(&url)),
        Err(_) => None,
    }
}

/// The value that a query parameter sets its field to: the number it
/// denotes, or zero where it denotes none.
pub open spec fn query_value(value: Seq<u8>) -> u8 {
    match strict_number(value) {
        Some(number) => number,
        None => 0,
    }
}

/// The write that one pair makes: a key `r`, `g`, `b` or `a` writes its
/// field, any other key writes nothing.
pub open spec fn pair_write(key: Seq<u8>, value: Seq<u8>) -> Option<(u8, u8)> {
    if key.len() == 1 && is_channel(key[0]) {
        Some((key[0], query_value(value)))
    } else {
        None
    }
}

/// The writes of a list of pairs, in order.
pub open spec fn query_writes(pairs: Seq<(Seq<u8>, Seq<u8>)>) -> Seq<(u8, u8)>
    decreases pairs.len(),
{
    if pairs.len() == 0 {
        Seq::empty()
    } else {
        let before = query_writes(pairs.drop_last());
        match pair_write(pairs.last().0, pairs.last().1) {
            Some(write) => before.push(write),
            None => before,
        }
    }
}

/// The colour after a list of pairs.
pub open spec fn pairs_applied(color: LogicalColor, pairs: Seq<(Seq<u8>, Seq<u8>)>) -> LogicalColor {
    writes_applied(color, query_writes(pairs))
}

/// A query that is applied a second time changes nothing.
pub proof fn lemma_query_is_idempotent(color: LogicalColor, pairs: Seq<(Seq<u8>, Seq<u8>)>)
    ensures
        pairs_applied(pairs_applied(color, pairs), pairs) == pairs_applied(color, pairs),
{
    lemma_writes_are_idempotent(color, query_writes(pairs));
}

/// Applies one pair to `rgba`.
fn apply_pair(key: &Vec<u8>, value: &Vec<u8>, rgba: &mut LogicalColor)
    ensures
        *final(rgba) == match pair_write(key@, value@) {
            Some(write) => with_channel(*old(rgba), write.0, write.1),
            None => *old(rgba),
        },
{
    if key.len() == 1 {
        let letter: u8 = key[0];
        if letter == 114 || letter == 103 || letter == 98 || letter == 97 {
            set_channel(rgba, letter, parse_u8(value.as_slice()).unwrap_or(0));
        }
    }
}

/// Merges the pairs of a query into `rgba`, in their order.
///
/// A value that is no number in `0..=255` resets its field to zero; a key
/// other than `r`, `g`, `b`, `a` is passed over.
pub fn apply_query_pairs(pairs: &Vec<(Vec<u8>, Vec<u8>)>, rgba: &mut LogicalColor)
    ensures
        *final(rgba) == pairs_applied(*old(rgba), pairs_view(*pairs)),
{
    let ghost initial = *rgba;
    let ghost all = pairs_view(*pairs);
    let mut i: usize = 0;
    while i < pairs.len()
        invariant
            i <= pairs.len(),
            all == pairs_view(*pairs),
            *rgba == pairs_applied(initial, all.take(i as int)),
        decreases pairs.len() - i,
    {
        proof {
            let before = query_writes(all.take(i as int));
            assert(all.take(i + 1).drop_last() =~= all.take(i as int));
            match pair_write(all[i as int].0, all[i as int].1) {
                Some(write) => {
                    assert(before.push(write).drop_last() =~= before);
                },
                None => {},
            }
        }
        apply_pair(&pairs[i].0, &pairs[i].1, rgba);
        i = i + 1;
    }
    assert(all.take(i as int) =~= all);
}

} // verus!
