//! Where traces are sent, which are sent, and with which headers.
use crate::error::Error;
use crate::text::ascii_lower;
use std::str::FromStr;
use tonic::metadata::{Ascii, MetadataKey, MetadataValue};
use tonic::transport::Endpoint;
use tracing_subscriber::filter::Targets;
use vstd::prelude::*;

verus! {

/// The filter of `tracing_subscriber` that says which traces are sent.
#[verifier::external_type_specification]
#[verifier::external_body]
pub struct ExTargets(Targets);

/// The place of `tonic` that traces are sent to.
#[verifier::external_type_specification]
#[verifier::external_body]
pub struct ExEndpoint(Endpoint);

/// What `Targets::from_str` makes of a text: a filter, or the words in which it refuses the text.
pub uninterp spec fn parsed_targets(text: Seq<char>) -> Result<Targets, Seq<char>>;

/// The place that `Endpoint::from_shared` takes a text for, if it accepts the text.
pub uninterp spec fn named_endpoint(text: Seq<char>) -> Option<Endpoint>;

/// Whether a character may stand in the key of a header.
pub open spec fn is_key_char(c: char) -> bool {
    ||| 'a' <= c <= 'z'
    ||| 'A' <= c <= 'Z'
    ||| '0' <= c <= '9'
    ||| c == '!' || c == '#' || c == '$' || c == '%' || c == '&' || c == '\'' || c == '*'
    ||| c == '+' || c == '-' || c == '.' || c == '^' || c == '_' || c == '`' || c == '|' || c == '~'
}

/// The key that a text stands for, in lower case. The text is neither empty nor longer than 65535
/// characters, holds only characters of keys, and does not end like the key of a binary header.
pub open spec fn metadata_key(text: Seq<char>) -> Option<Seq<char>> {
    let key = text.map_values(|c: char| ascii_lower(c));
    if 0 < text.len() <= 65535 && (forall|i: int|
        0 <= i < text.len() ==> is_key_char(#[trigger] text[i])) && !"-bin"@.is_suffix_of(key) {
        Some(key)
    } else {
        None
    }
}

/// Whether a text may be the value of a header: it holds no control character of ASCII but tabs.
pub open spec fn is_metadata_value(text: Seq<char>) -> bool {
    forall|i: int|
        0 <= i < text.len() ==> (' ' <= #[trigger] text[i] && text[i] != '\u{7f}') || text[i]
            == '\t'
}

/// Calls `Targets::from_str` and puts a failure into words by its `Display`. Both depend on the
/// text alone.
#[verifier::external_body]
fn read_targets(text: &str) -> (r: Result<Targets, String>)
    ensures
        match r {
            Ok(targets) => parsed_targets(text@) == Ok::<Targets, Seq<char>>(targets),
            Err(words) => parsed_targets(text@) == Err::<Targets, Seq<char>>(words@),
        },
{
    Targets::from_str(text).map_err(|e| e.to_string())
}

/// Calls `Endpoint::from_shared`. Whether the text is accepted, and which place it stands for,
/// depends on the text alone; a failure always has the same words.
#[verifier::external_body]
fn read_endpoint(text: String) -> (r: Result<Endpoint, String>)
    ensures
        match r {
            Ok(endpoint) => named_endpoint(text@) == Some(endpoint),
            Err(words) => named_endpoint(text@) is None && words@ == "invalid URI"@,
        },
{
    Endpoint::from_shared(text).map_err(|e| e.to_string())
}

/// Calls `MetadataKey::<Ascii>::from_str` and hands out the key that it holds, which is the text in
/// lower case. A failure always has the same words.
#[verifier::external_body]
fn read_key(text: &str) -> (r: Result<String, String>)
    ensures
        match metadata_key(text@) {
            Some(key) => r matches Ok(k) && k@ == key,
            None => r matches Err(words) && words@ == "invalid gRPC metadata key name"@,
        },
{
    let key = MetadataKey::<Ascii>::from_str(text).map_err(|e| e.to_string())?;
    Ok(key.as_str().to_owned())
}

/// Calls `MetadataValue::<Ascii>::from_str` to see whether it accepts a text, which it also does
/// where the text goes beyond ASCII. A failure always has the same words.
#[verifier::external_body]
fn check_value(text: &str) -> (r: Result<(), String>)
    ensures
        r is Ok <==> is_metadata_value(text@),
        r matches Err(words) ==> words@ == "failed to parse metadata value"@,
{
    MetadataValue::<Ascii>::from_str(text).map(|_| ()).map_err(|e| e.to_string())
}

/// Takes up the outcome of reading a filter.
pub fn targets_from(read: Result<Targets, String>) -> (r: Result<Targets, Error>)
    ensures
        match read {
            Ok(targets) => r == Ok::<Targets, Error>(targets),
            Err(source) => r == Err::<Targets, Error>(Error::TracingSubscriberParse { source }),
        },
{
    match read {
        Ok(targets) => Ok(targets),
        Err(source) => Err(Error::TracingSubscriberParse { source }),
    }
}

/// Takes up the outcome of reading where traces are sent.
pub fn endpoint_from(read: Result<Endpoint, String>) -> (r: Result<Endpoint, Error>)
    ensures
        match read {
            Ok(endpoint) => r == Ok::<Endpoint, Error>(endpoint),
            Err(source) => r == Err::<Endpoint, Error>(Error::TonicTransport { source }),
        },
{
    match read {
        Ok(endpoint) => Ok(endpoint),
        Err(source) => Err(Error::TonicTransport { source }),
    }
}

/// Reads which traces are sent, and then where they are sent.
pub fn read_destination(targets: &str, endpoint: String) -> (r: Result<(Targets, Endpoint), Error>)
    ensures
        match (parsed_targets(targets@), named_endpoint(endpoint@)) {
            (Ok(t), Some(e)) => r == Ok::<(Targets, Endpoint), Error>((t, e)),
            (Ok(_), None) => r matches Err(Error::TonicTransport { source }) && source@
                == "invalid URI"@,
            (Err(words), _) => r matches Err(Error::TracingSubscriberParse { source }) && source@
                == words,
        },
{
    let targets = match targets_from(read_targets(targets)) {
        Ok(targets) => targets,
        Err(e) => {
            return Err(e);
        },
    };
    match endpoint_from(read_endpoint(endpoint)) {
        Ok(endpoint) => Ok((targets, endpoint)),
        Err(e) => Err(e),
    }
}

/// Whether a pair is a header.
pub open spec fn is_header(pair: (Seq<char>, Seq<char>)) -> bool {
    metadata_key(pair.0) is Some && is_metadata_value(pair.1)
}

/// Whether all of the pairs are headers.
pub open spec fn are_headers(pairs: Seq<(Seq<char>, Seq<char>)>) -> bool {
    forall|i: int| 0 <= i < pairs.len() ==> is_header(#[trigger] pairs[i])
}

/// Headers with their keys in lower case.
pub open spec fn headers_of(pairs: Seq<(Seq<char>, Seq<char>)>) -> Seq<(Seq<char>, Seq<char>)> {
    pairs.map_values(|pair: (Seq<char>, Seq<char>)| (metadata_key(pair.0)->0, pair.1))
}

/// Whether an error says why a pair is no header. The key is looked at first.
pub open spec fn is_refusal(pair: (Seq<char>, Seq<char>), e: Error) -> bool {
    if metadata_key(pair.0) is None {
        e matches Error::TonicInvalidMetadataKey { source } && source@
            == "invalid gRPC metadata key name"@
    } else {
        e matches Error::TonicInvalidMetadataValue { source } && source@
            == "failed to parse metadata value"@
    }
}

/// Whether an error says why the first of the pairs that is no header is none.
pub open spec fn is_first_refusal(pairs: Seq<(Seq<char>, Seq<char>)>, e: Error) -> bool {
    exists|i: int|
        0 <= i < pairs.len() && !is_header(#[trigger] pairs[i]) && are_headers(pairs.take(i))
            && is_refusal(pairs[i], e)
}

/// Reads a header.
fn read_header(key: &str, value: &str) -> (r: Result<(String, String), Error>)
    ensures
        match r {
            Ok(header) => is_header((key@, value@)) && Some(header.0@) == metadata_key(key@)
                && header.1@ == value@,
            Err(e) => !is_header((key@, value@)) && is_refusal((key@, value@), e),
        },
{
    let name = match read_key(key) {
        Ok(name) => name,
        Err(source) => {
            return Err(Error::TonicInvalidMetadataKey { source });
        },
    };
    match check_value(value) {
        Ok(_) => Ok((name, value.to_owned())),
        Err(source) => Err(Error::TonicInvalidMetadataValue { source }),
    }
}

/// Reads the headers of every request, in order. The first pair that is no header ends the attempt.
pub fn read_headers(pairs: &Vec<(String, String)>) -> (r: Result<Vec<(String, String)>, Error>)
    ensures
        match r {
            Ok(headers) => are_headers(pairs.deep_view()) && headers.deep_view() == headers_of(
                pairs.deep_view(),
            ),
            Err(e) => !are_headers(pairs.deep_view()) && is_first_refusal(pairs.deep_view(), e),
        },
{
    let ghost all = pairs.deep_view();
    let mut headers: Vec<(String, String)> = Vec::new();
    let mut i: usize = 0;
    while i < pairs.len()
        invariant
            all == pairs.deep_view(),
            i <= pairs.len(),
            are_headers(all.take(i as int)),
            headers.deep_view() =~= headers_of(all.take(i as int)),
        decreases pairs.len() - i,
    {
        let (key, value) = &pairs[i];
        let ghost before = headers.deep_view();
        assert(all[i as int] == (key@, value@));
        match read_header(key.as_str(), value.as_str()) {
            Ok(header) => {
                headers.push(header);
                proof {
                    assert(headers.deep_view() =~= before.push((header.0@, header.1@)));
                    assert forall|j: int| 0 <= j < i + 1 implies is_header(
                        #[trigger] all.take(i + 1)[j],
                    ) by {
                        if j < i {
                            assert(is_header(all.take(i as int)[j]));
                        }
                    }
                }
            },
            Err(e) => {
                return Err(e);
            },
        }
        i = i + 1;
    }
    assert(all.take(all.len() as int) =~= all);
    Ok(headers)
}

} // verus!
