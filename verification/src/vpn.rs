pub use crate::ports::assign_local_ports;
pub use crate::server::VpnServer;

use crate::feed::{is_supported_uri, supported_uri};
use crate::metadata::{server_from_metadata, server_of_metadata, text_of, view_of};
use crate::ports::server_views;
use crate::server::ServerView;
use crate::table::KeyedTable;
use crate::text::views;
use vstd::prelude::*;

verus! {

/// A URI of the feed with what the URI decoder made of it: the metadata
/// document, or `None` where the decoder failed on the URI.
#[derive(Debug)]
pub struct DecodedUri {
    pub uri: String,
    pub metadata: Option<String>,
}

/// The table from server key to the URI that the feed gave for it.
pub type UriTable = KeyedTable<String>;

/// The server that a line of the feed stands for: that of its metadata, if
/// the line begins with a known scheme and the decoder gave metadata for it.
pub open spec fn server_of_uri(uri: Seq<char>, metadata: Option<Seq<char>>) -> Option<ServerView> {
    if is_supported_uri(uri) {
        match metadata {
            Some(document) => server_of_metadata(document),
            None => None,
        }
    } else {
        None
    }
}

/// The server of a decoded URI.
pub open spec fn server_of(decoded: DecodedUri) -> Option<ServerView> {
    server_of_uri(decoded.uri@, text_of(decoded.metadata))
}

/// Reads a server from a line of the feed and the metadata that the URI
/// decoder gave for it. A line with another scheme, a line that the decoder
/// failed on and metadata without protocol, address or port give `None`.
pub fn parse_vpn_uri(uri: &str, metadata: Option<&str>) -> (r: Option<VpnServer>)
    ensures
        view_of(r) == server_of_uri(
            uri@,
            match metadata {
                Some(document) => Some(document@),
                None => None,
            },
        ),
{
    if !supported_uri(uri) {
        return None;
    }
    match metadata {
        Some(document) => server_from_metadata(document),
        None => None,
    }
}

/// The servers of a decoded feed: that of each URI that stands for one, in
/// the order of the feed.
pub open spec fn servers_of(decoded: Seq<DecodedUri>) -> Seq<ServerView>
    decreases decoded.len(),
{
    if decoded.len() == 0 {
        Seq::<ServerView>::empty()
    } else {
        let earlier = servers_of(decoded.drop_last());
        match server_of(decoded.last()) {
            Some(server) => earlier.push(server),
            None => earlier,
        }
    }
}

/// The metadata of a decoded URI, borrowed.
fn metadata_of(decoded: &DecodedUri) -> (r: Option<&str>)
    ensures
        match r {
            Some(document) => text_of(decoded.metadata) == Some(document@),
            None => decoded.metadata is None,
        },
{
    match &decoded.metadata {
        Some(document) => Some(document.as_str()),
        None => None,
    }
}

/// Builds the server list from a decoded feed. A URI that stands for no
/// server is passed over; the others keep their order.
pub fn fetch_and_process_vpn_list(decoded: &Vec<DecodedUri>) -> (r: Vec<VpnServer>)
    ensures
        server_views(r@) == servers_of(decoded@),
{
    let mut servers: Vec<VpnServer> = Vec::new();
    let mut i: usize = 0;
    assert(decoded@.take(0) =~= Seq::<DecodedUri>::empty());
    assert(server_views(servers@) =~= Seq::<ServerView>::empty());
    while i < decoded.len()
        invariant
            i <= decoded.len(),
            server_views(servers@) == servers_of(decoded@.take(i as int)),
        decreases decoded.len() - i,
    {
        proof {
            let upto = decoded@.take(i as int + 1);
            assert(upto.drop_last() =~= decoded@.take(i as int));
            assert(upto.last() == decoded@[i as int]);
        }
        match parse_vpn_uri(decoded[i].uri.as_str(), metadata_of(&decoded[i])) {
            Some(server) => {
                let ghost earlier = servers@;
                servers.push(server);
                assert(server_views(servers@) =~= server_views(earlier).push(server@));
            },
            None => {},
        }
        i += 1;
    }
    assert(decoded@.take(decoded.len() as int) =~= decoded@);
    servers
}

/// The URIs of a decoded feed that stand for no server, in the order of the
/// feed.
pub open spec fn skipped_of(decoded: Seq<DecodedUri>) -> Seq<Seq<char>>
    decreases decoded.len(),
{
    if decoded.len() == 0 {
        Seq::<Seq<char>>::empty()
    } else {
        let earlier = skipped_of(decoded.drop_last());
        match server_of(decoded.last()) {
            Some(_) => earlier,
            None => earlier.push(decoded.last().uri@),
        }
    }
}

/// Lists the URIs that the server list passes over, so that a feed that
/// yields fewer servers than lines can be looked into.
pub fn skipped_uris(decoded: &Vec<DecodedUri>) -> (r: Vec<String>)
    ensures
        views(r@) == skipped_of(decoded@),
{
    let mut skipped: Vec<String> = Vec::new();
    let mut i: usize = 0;
    assert(decoded@.take(0) =~= Seq::<DecodedUri>::empty());
    assert(views(skipped@) =~= Seq::<Seq<char>>::empty());
    while i < decoded.len()
        invariant
            i <= decoded.len(),
            views(skipped@) == skipped_of(decoded@.take(i as int)),
        decreases decoded.len() - i,
    {
        proof {
            let upto = decoded@.take(i as int + 1);
            assert(upto.drop_last() =~= decoded@.take(i as int));
            assert(upto.last() == decoded@[i as int]);
        }
        match parse_vpn_uri(decoded[i].uri.as_str(), metadata_of(&decoded[i])) {
            Some(_) => {},
            None => {
                let ghost earlier = skipped@;
                let uri = decoded[i].uri.clone();
                skipped.push(uri);
                assert(views(skipped@) =~= views(earlier).push(uri@));
            },
        }
        i += 1;
    }
    assert(decoded@.take(decoded.len() as int) =~= decoded@);
    skipped
}

/// The URIs of a decoded feed by server key: each URI that stands for a
/// server, under that server's key. Of two URIs with one key the later one
/// stays.
pub open spec fn uris_by_key(decoded: Seq<DecodedUri>) -> Map<Seq<char>, Seq<char>>
    decreases decoded.len(),
{
    if decoded.len() == 0 {
        Map::<Seq<char>, Seq<char>>::empty()
    } else {
        let earlier = uris_by_key(decoded.drop_last());
        match server_of(decoded.last()) {
            Some(server) => earlier.insert(server.key(), decoded.last().uri@),
            None => earlier,
        }
    }
}

/// A table of texts as plain values.
pub open spec fn text_values(table: Map<Seq<char>, String>) -> Map<Seq<char>, Seq<char>> {
    Map::new(|k: Seq<char>| table.contains_key(k), |k: Seq<char>| table[k]@)
}

/// Builds the table from server key to the URI as the feed lists it:
/// starting a server takes that URI, not what was read from it.
pub fn fetch_subscription_uris(decoded: &Vec<DecodedUri>) -> (r: UriTable)
    ensures
        text_values(r@) == uris_by_key(decoded@),
{
    let mut uris: UriTable = KeyedTable::new();
    let mut i: usize = 0;
    assert(decoded@.take(0) =~= Seq::<DecodedUri>::empty());
    assert(text_values(uris@) =~= Map::<Seq<char>, Seq<char>>::empty());
    while i < decoded.len()
        invariant
            i <= decoded.len(),
            text_values(uris@) == uris_by_key(decoded@.take(i as int)),
        decreases decoded.len() - i,
    {
        proof {
            let upto = decoded@.take(i as int + 1);
            assert(upto.drop_last() =~= decoded@.take(i as int));
            assert(upto.last() == decoded@[i as int]);
        }
        match parse_vpn_uri(decoded[i].uri.as_str(), metadata_of(&decoded[i])) {
            Some(server) => {
                let ghost earlier = uris@;
                let key = server.get_server_key();
                let uri = decoded[i].uri.clone();
                uris.insert(key, uri);
                assert(text_values(uris@) =~= text_values(earlier).insert(key@, uri@));
            },
            None => {},
        }
        i += 1;
    }
    assert(decoded@.take(decoded.len() as int) =~= decoded@);
    uris
}

} // verus!
