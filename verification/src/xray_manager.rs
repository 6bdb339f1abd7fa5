use crate::table::{distinct_keys, pairs_map, KeyedTable};
use crate::text::{same_text, views};
use vstd::prelude::*;

verus! {

/// The engine processes that run, each under the key of its server. `H` is
/// the handle by which a running engine is stopped.
pub type ProcessTable<H> = KeyedTable<H>;

/// What the engine is to be launched with: the URI to build its
/// configuration from, the port of the one listener it opens, and its
/// binary.
#[derive(Debug)]
pub struct EngineLaunch {
    pub uri: String,
    pub socks_port: Option<u16>,
    pub http_port: Option<u16>,
    pub xray_binary_path: String,
}

/// The listeners for a proxy type: for `SOCKS` the SOCKS listener on
/// `local_port` and no HTTP listener, for anything else the HTTP listener on
/// `local_port` and no SOCKS listener. The pair is (SOCKS, HTTP).
pub open spec fn listeners(local_port: u16, proxy_type: Seq<char>) -> (Option<u16>, Option<u16>) {
    if proxy_type == "SOCKS"@ {
        (Some(local_port), None)
    } else {
        (None, Some(local_port))
    }
}

/// Chooses the listener that a server's engine opens on `local_port`.
pub fn listener_ports(local_port: u16, proxy_type: &str) -> (r: (Option<u16>, Option<u16>))
    ensures
        r == listeners(local_port, proxy_type@),
{
    if same_text(proxy_type, "SOCKS") {
        (Some(local_port), None)
    } else {
        (None, Some(local_port))
    }
}

/// Says what to launch for a server: the engine at `xray_binary_path`, on
/// the configuration of `uri`, with the listener of `proxy_type` bound to
/// `local_port`.
pub fn engine_launch(uri: &str, local_port: u16, proxy_type: &str, xray_binary_path: &str) -> (r:
    EngineLaunch)
    ensures
        r.uri@ == uri@,
        (r.socks_port, r.http_port) == listeners(local_port, proxy_type@),
        r.xray_binary_path@ == xray_binary_path@,
{
    let ports = listener_ports(local_port, proxy_type);
    EngineLaunch {
        uri: String::from_str(uri),
        socks_port: ports.0,
        http_port: ports.1,
        xray_binary_path: String::from_str(xray_binary_path),
    }
}

/// What a failed launch is reported as.
pub open spec fn start_failure(reason: Seq<char>) -> Seq<char> {
    "Failed to start xray: "@ + reason
}

/// What a failed stop is reported as.
pub open spec fn stop_failure(reason: Seq<char>) -> Seq<char> {
    "Failed to stop xray: "@ + reason
}

/// Records how the launch of the engine for `server_key` ended. `launched`
/// is the handle of the running engine, or why building its configuration
/// or spawning it failed. A running engine is entered under `server_key`; a
/// failure is handed on and leaves the table as it was.
pub fn start_server<H>(
    processes: &mut ProcessTable<H>,
    server_key: &str,
    launched: Result<H, String>,
) -> (r: Result<(), String>)
    ensures
        match launched {
            Ok(handle) => r is Ok && final(processes)@ == old(processes)@.insert(
                server_key@,
                handle,
            ),
            Err(reason) => r is Err && r->Err_0@ == start_failure(reason@) && final(processes)@
                == old(processes)@,
        },
{
    match launched {
        Ok(handle) => {
            processes.insert(String::from_str(server_key), handle);
            Ok(())
        },
        Err(reason) => {
            let message = String::from_str("Failed to start xray: ").concat(reason.as_str());
            Err(message)
        },
    }
}

/// Takes the engine of `server_key` out of the table, for the caller to
/// terminate. Where none runs under that key nothing changes.
pub fn stop_server<H>(processes: &mut ProcessTable<H>, server_key: &str) -> (r: Option<H>)
    ensures
        final(processes)@ == old(processes)@.remove(server_key@),
        match r {
            Some(handle) => old(processes)@.contains_key(server_key@) && handle == old(
                processes,
            )@[server_key@],
            None => !old(processes)@.contains_key(server_key@),
        },
{
    processes.remove(server_key)
}

/// Says how stopping one server ended. `terminated` is `None` where no
/// engine ran under the key, which is a success, and else what terminating
/// it gave; a failure there is handed on.
pub fn stop_report(terminated: Option<Result<(), String>>) -> (r: Result<(), String>)
    ensures
        match terminated {
            Some(Err(reason)) => r is Err && r->Err_0@ == stop_failure(reason@),
            _ => r is Ok,
        },
{
    match terminated {
        Some(Err(reason)) => {
            let message = String::from_str("Failed to stop xray: ").concat(reason.as_str());
            Err(message)
        },
        _ => Ok(()),
    }
}

/// Empties the table and hands every engine that ran to the caller, who
/// terminates each and passes over a failure to do so. Whatever becomes of
/// the engines, the table is empty afterwards.
pub fn stop_all_servers<H>(processes: &mut ProcessTable<H>) -> (r: Vec<(String, H)>)
    ensures
        final(processes)@ == Map::<Seq<char>, H>::empty(),
        distinct_keys(r@),
        pairs_map(r@) == old(processes)@,
{
    processes.drain()
}

/// The keys of the servers whose engines run, each once.
pub fn get_running_servers<H>(processes: &ProcessTable<H>) -> (r: Vec<String>)
    ensures
        views(r@).no_duplicates(),
        views(r@).to_set() == processes@.dom(),
{
    processes.keys()
}

} // verus!
