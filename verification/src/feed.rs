use crate::text::{lines, split_lines, starts_with, trim, trimmed, views};
use vstd::prelude::*;
use vstd::utf8::{decode_utf8, valid_utf8};

verus! {

/// What the standard base64 alphabet, with padding, decodes `text` to, or
/// `None` where `text` is no such encoding.
pub uninterp spec fn base64_standard_decoded(text: Seq<char>) -> Option<Seq<u8>>;

/// Calls `base64::Engine::decode` on the engine
/// `base64::engine::general_purpose::STANDARD`. The bytes that come back, or
/// that none come back, depend on `text` alone; the contract gives them the
/// name `base64_standard_decoded` and claims nothing else of them.
#[verifier::external_body]
fn decode_base64(text: &str) -> (r: Option<Vec<u8>>)
    ensures
        match r {
            Some(bytes) => base64_standard_decoded(text@) == Some(bytes@),
            None => base64_standard_decoded(text@) is None,
        },
{
    base64::Engine::decode(&base64::engine::general_purpose::STANDARD, text).ok()
}

/// Calls `String::from_utf8`: the text that `bytes` encode in UTF-8, and
/// `None` exactly where they encode none.
#[verifier::external_body]
fn text_of_utf8(bytes: Vec<u8>) -> (r: Option<String>)
    ensures
        match r {
            Some(text) => valid_utf8(bytes@) && text@ == decode_utf8(bytes@),
            None => !valid_utf8(bytes@),
        },
{
    String::from_utf8(bytes).ok()
}

/// Whether `uri` begins with one of the six schemes that the decoder knows.
pub open spec fn is_supported_uri(uri: Seq<char>) -> bool {
    ||| "vless://"@.is_prefix_of(uri)
    ||| "vmess://"@.is_prefix_of(uri)
    ||| "trojan://"@.is_prefix_of(uri)
    ||| "ss://"@.is_prefix_of(uri)
    ||| "shadowsocks://"@.is_prefix_of(uri)
    ||| "socks://"@.is_prefix_of(uri)
}

/// Tests whether `uri` begins with a scheme that the decoder knows.
pub fn supported_uri(uri: &str) -> (r: bool)
    ensures
        r == is_supported_uri(uri@),
{
    starts_with(uri, "vless://") || starts_with(uri, "vmess://") || starts_with(uri, "trojan://")
        || starts_with(uri, "ss://") || starts_with(uri, "shadowsocks://") || starts_with(
        uri,
        "socks://",
    )
}

/// The URIs among `lines`: each line without the white space around it, if
/// what is left begins with a known scheme; in the order of the lines.
pub open spec fn uris_among(lines: Seq<Seq<char>>) -> Seq<Seq<char>>
    decreases lines.len(),
{
    if lines.len() == 0 {
        Seq::<Seq<char>>::empty()
    } else {
        let earlier = uris_among(lines.drop_last());
        let line = trimmed(lines.last());
        if is_supported_uri(line) {
            earlier.push(line)
        } else {
            earlier
        }
    }
}

/// The URIs that the decoded feed `text` lists, one to a line.
pub open spec fn uris_in_text(text: Seq<char>) -> Seq<Seq<char>> {
    uris_among(split_lines(text))
}

/// Reads the decoded feed: cuts it into lines and keeps, trimmed, those that
/// begin with a known scheme.
pub fn feed_uris(text: &str) -> (r: Vec<String>)
    ensures
        views(r@) == uris_in_text(text@),
{
    let all = lines(text);
    let mut out: Vec<String> = Vec::new();
    let mut i: usize = 0;
    assert(views(all@).take(0) =~= Seq::<Seq<char>>::empty());
    while i < all.len()
        invariant
            i <= all.len(),
            views(out@) == uris_among(views(all@).take(i as int)),
        decreases all.len() - i,
    {
        let line = trim(all[i].as_str());
        proof {
            let upto = views(all@).take(i as int + 1);
            assert(upto.drop_last() =~= views(all@).take(i as int));
            assert(upto.last() == all@[i as int]@);
        }
        if supported_uri(line) {
            let ghost earlier = out@;
            let uri = String::from_str(line);
            out.push(uri);
            assert(views(out@) =~= views(earlier).push(uri@));
        }
        i += 1;
    }
    assert(views(all@).take(all.len() as int) =~= views(all@));
    out
}

/// The URIs in what the base64 decoding of a feed gave: those of the text
/// that the bytes encode in UTF-8, none where the decoding failed or the
/// bytes are no UTF-8.
pub open spec fn uris_in_payload(payload: Option<Seq<u8>>) -> Seq<Seq<char>> {
    match payload {
        Some(bytes) => if valid_utf8(bytes) {
            uris_in_text(decode_utf8(bytes))
        } else {
            Seq::<Seq<char>>::empty()
        },
        None => Seq::<Seq<char>>::empty(),
    }
}

/// Reads the URIs from the decoded payload of a feed. A payload that is
/// missing or is no UTF-8 gives an empty list.
pub fn payload_uris(payload: Option<Vec<u8>>) -> (r: Vec<String>)
    ensures
        views(r@) == uris_in_payload(
            match payload {
                Some(bytes) => Some(bytes@),
                None => None,
            },
        ),
{
    match payload {
        Some(bytes) => match text_of_utf8(bytes) {
            Some(text) => feed_uris(text.as_str()),
            None => {
                let out: Vec<String> = Vec::new();
                assert(views(out@) =~= Seq::<Seq<char>>::empty());
                out
            },
        },
        None => {
            let out: Vec<String> = Vec::new();
            assert(views(out@) =~= Seq::<Seq<char>>::empty());
            out
        },
    }
}

/// The URIs that the body of a feed lists: the body is trimmed, decoded from
/// base64 and read as UTF-8 text.
pub open spec fn uris_in_body(body: Seq<char>) -> Seq<Seq<char>> {
    uris_in_payload(base64_standard_decoded(trimmed(body)))
}

/// Decodes the body of a subscription feed into the URIs it lists. A body
/// that cannot be decoded gives an empty list, never an error.
pub fn decode_subscription(body: &str) -> (r: Vec<String>)
    ensures
        views(r@) == uris_in_body(body@),
        base64_standard_decoded(trimmed(body@)) is None ==> r@.len() == 0,
{
    let uris = payload_uris(decode_base64(trim(body)));
    assert(views(uris@).len() == uris@.len());
    uris
}

/// The URIs that a fetch yields: those of the body, none where the fetch
/// itself failed.
pub open spec fn uris_in_response(body: Option<Seq<char>>) -> Seq<Seq<char>> {
    match body {
        Some(text) => uris_in_body(text),
        None => Seq::<Seq<char>>::empty(),
    }
}

/// Turns the outcome of fetching the feed into the URIs to decode: `body` is
/// the response's text, or `None` where the transport failed. A failure of
/// any kind gives fewer URIs, never an error.
pub fn response_uris(body: Option<&str>) -> (r: Vec<String>)
    ensures
        views(r@) == uris_in_response(
            match body {
                Some(text) => Some(text@),
                None => None,
            },
        ),
        body is None ==> r@.len() == 0,
{
    match body {
        Some(text) => decode_subscription(text),
        None => {
            let out: Vec<String> = Vec::new();
            assert(views(out@) =~= Seq::<Seq<char>>::empty());
            out
        },
    }
}

} // verus!
