use crate::server::{ServerView, VpnServer};
use vstd::prelude::*;

verus! {

/// A parsed JSON document of `serde_json`. Nothing inside it is visible here:
/// it is read through the functions below.
#[verifier::external_type_specification]
#[verifier::external_body]
pub struct ExJsonValue(serde_json::Value);

/// The document that `text` is the JSON of, or `None` where it is none.
pub uninterp spec fn json_document(text: Seq<char>) -> Option<serde_json::Value>;

/// What stands under `key` in the object `doc`; JSON's null where `doc` is
/// no object or has no such key.
pub uninterp spec fn json_member(doc: serde_json::Value, key: Seq<char>) -> serde_json::Value;

/// The text of `value` where it is a JSON string, `None` where it is not.
pub uninterp spec fn json_text(value: serde_json::Value) -> Option<Seq<char>>;

/// The number `value` where it is a JSON integer that is not negative and
/// fits 64 bits, `None` where it is not.
pub uninterp spec fn json_unsigned(value: serde_json::Value) -> Option<u64>;

/// Calls `serde_json::from_str` for a `serde_json::Value`. Whether a
/// document comes back, and which, depends on `text` alone; the contract
/// gives it the name `json_document`.
#[verifier::external_body]
fn parse_json(text: &str) -> (r: Option<serde_json::Value>)
    ensures
        r == json_document(text@),
{
    serde_json::from_str::<serde_json::Value>(text).ok()
}

/// Indexes a `serde_json::Value` by a text key, as `doc[key]` does. The
/// value that comes back depends on the document and the key alone; the
/// contract gives it the name `json_member`.
#[verifier::external_body]
fn member<'a>(doc: &'a serde_json::Value, key: &str) -> (r: &'a serde_json::Value)
    ensures
        *r == json_member(*doc, key@),
{
    &doc[key]
}

/// Calls `serde_json::Value::as_str`; the contract gives the result the
/// name `json_text`.
#[verifier::external_body]
fn as_text(value: &serde_json::Value) -> (r: Option<String>)
    ensures
        match r {
            Some(text) => json_text(*value) == Some(text@),
            None => json_text(*value) is None,
        },
{
    value.as_str().map(|s| s.to_string())
}

/// Calls `serde_json::Value::as_u64`; the contract gives the result the
/// name `json_unsigned`.
#[verifier::external_body]
fn as_unsigned(value: &serde_json::Value) -> (r: Option<u64>)
    ensures
        r == json_unsigned(*value),
{
    value.as_u64()
}

/// The name of a server whose metadata give none.
pub open spec fn unnamed() -> Seq<char> {
    "Unnamed"@
}

/// The proxy type of a server for which the user has chosen none.
pub open spec fn default_proxy_type() -> Seq<char> {
    "SOCKS"@
}

/// The server that the four fields of a metadata document describe. There
/// is one where the protocol, the address and the port are present. It has
/// the protocol and the address as the document gives them; its port is
/// the number's low 16 bits, and its name is `Unnamed` where the document
/// gives none. It is disabled, has no local port yet and is of the default
/// proxy type.
pub open spec fn server_of_fields(
    protocol: Option<Seq<char>>,
    address: Option<Seq<char>>,
    port: Option<u64>,
    name: Option<Seq<char>>,
) -> Option<ServerView> {
    if protocol is Some && address is Some && port is Some {
        Some(
            ServerView {
                protocol: protocol->0,
                address: address->0,
                port: (port->0 % 65536) as u16,
                name: match name {
                    Some(text) => text,
                    None => unnamed(),
                },
                enabled: false,
                local_port: 0,
                proxy_type: default_proxy_type(),
            },
        )
    } else {
        None
    }
}

/// The view of a server that may be missing.
pub open spec fn view_of(server: Option<VpnServer>) -> Option<ServerView> {
    match server {
        Some(s) => Some(s@),
        None => None,
    }
}

/// The view of a text that may be missing.
pub open spec fn text_of(text: Option<String>) -> Option<Seq<char>> {
    match text {
        Some(s) => Some(s@),
        None => None,
    }
}

/// Builds the server that the fields of a metadata document describe.
pub fn server_from_fields(
    protocol: Option<String>,
    address: Option<String>,
    port: Option<u64>,
    name: Option<String>,
) -> (r: Option<VpnServer>)
    ensures
        view_of(r) == server_of_fields(text_of(protocol), text_of(address), port, text_of(name)),
{
    let protocol = match protocol {
        Some(text) => text,
        None => { return None; },
    };
    let address = match address {
        Some(text) => text,
        None => { return None; },
    };
    let port: u16 = match port {
        Some(number) => (number % 65536) as u16,
        None => { return None; },
    };
    let name = match name {
        Some(text) => text,
        None => String::from_str("Unnamed"),
    };
    Some(
        VpnServer {
            protocol,
            address,
            port,
            name,
            enabled: false,
            local_port: 0,
            proxy_type: String::from_str("SOCKS"),
        },
    )
}

/// The server that the metadata document `text` describes: that of its
/// members `protocol`, `address`, `port` and `name`; none where `text` is no
/// JSON.
pub open spec fn server_of_metadata(text: Seq<char>) -> Option<ServerView> {
    match json_document(text) {
        Some(doc) => server_of_fields(
            json_text(json_member(doc, "protocol"@)),
            json_text(json_member(doc, "address"@)),
            json_unsigned(json_member(doc, "port"@)),
            json_text(json_member(doc, "name"@)),
        ),
        None => None,
    }
}

/// Reads a server from the metadata document that the URI decoder gave for
/// it.
pub fn server_from_metadata(text: &str) -> (r: Option<VpnServer>)
    ensures
        view_of(r) == server_of_metadata(text@),
{
    match parse_json(text) {
        Some(doc) => {
            let protocol = as_text(member(&doc, "protocol"));
            let address = as_text(member(&doc, "address"));
            let port = as_unsigned(member(&doc, "port"));
            let name = as_text(member(&doc, "name"));
            server_from_fields(protocol, address, port, name)
        },
        None => None,
    }
}

} // verus!
