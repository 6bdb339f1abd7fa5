use crate::config::{Config, ServerSettings};
use crate::ports::{assign_local_ports, is_merge_of, server_views};
use crate::server::{ServerView, VpnServer};
use crate::table::{distinct_keys, pairs_map, KeyedTable};
use crate::text::views;
use crate::vpn::{text_values, UriTable};
use crate::xray_manager::{start_failure, start_server, ProcessTable};
use vstd::prelude::*;

verus! {

/// One start that a cycle asks for: what the engine of a server is to be
/// launched with.
#[derive(Debug)]
pub struct StartRequest {
    pub server_key: String,
    pub uri: String,
    pub local_port: u16,
    pub proxy_type: String,
    pub xray_binary_path: String,
}

/// A start request as plain values.
pub struct StartView {
    pub server_key: Seq<char>,
    pub uri: Seq<char>,
    pub local_port: u16,
    pub proxy_type: Seq<char>,
    pub xray_binary_path: Seq<char>,
}

impl View for StartRequest {
    type V = StartView;

    open spec fn view(&self) -> StartView {
        StartView {
            server_key: self.server_key@,
            uri: self.uri@,
            local_port: self.local_port,
            proxy_type: self.proxy_type@,
            xray_binary_path: self.xray_binary_path@,
        }
    }
}

impl Clone for StartRequest {
    fn clone(&self) -> (r: Self)
        ensures
            r == *self,
    {
        StartRequest {
            server_key: self.server_key.clone(),
            uri: self.uri.clone(),
            local_port: self.local_port,
            proxy_type: self.proxy_type.clone(),
            xray_binary_path: self.xray_binary_path.clone(),
        }
    }
}

/// The requests of a list as plain values.
pub open spec fn start_views(requests: Seq<StartRequest>) -> Seq<StartView> {
    requests.map_values(|r: StartRequest| r@)
}

/// The start that a cycle asks for `server`: one where the server is
/// enabled and both saved settings and a URI stand under its key. The port
/// and the proxy type are those of the saved settings.
pub open spec fn start_of(
    server: ServerView,
    settings: Map<Seq<char>, ServerSettings>,
    uris: Map<Seq<char>, Seq<char>>,
    binary: Seq<char>,
) -> Option<StartView> {
    if server.enabled && settings.contains_key(server.key()) && uris.contains_key(server.key()) {
        Some(
            StartView {
                server_key: server.key(),
                uri: uris[server.key()],
                local_port: settings[server.key()].local_port,
                proxy_type: settings[server.key()].proxy_type@,
                xray_binary_path: binary,
            },
        )
    } else {
        None
    }
}

/// The starts that a cycle asks for: that of each server that has one, in
/// the order of the registry.
pub open spec fn starts_of(
    servers: Seq<ServerView>,
    settings: Map<Seq<char>, ServerSettings>,
    uris: Map<Seq<char>, Seq<char>>,
    binary: Seq<char>,
) -> Seq<StartView>
    decreases servers.len(),
{
    if servers.len() == 0 {
        Seq::<StartView>::empty()
    } else {
        let earlier = starts_of(servers.drop_last(), settings, uris, binary);
        match start_of(servers.last(), settings, uris, binary) {
            Some(request) => earlier.push(request),
            None => earlier,
        }
    }
}

/// Whether `key` is the key of an enabled server of the list.
pub open spec fn is_enabled_key(servers: Seq<VpnServer>, key: Seq<char>) -> bool {
    exists|i: int| 0 <= i < servers.len() && (#[trigger] servers[i]).enabled && servers[i].key() == key
}

/// Lists the engines to start after a merge: one for every enabled server
/// that has saved settings and a URI, in the order of the registry.
pub fn plan_starts(servers: &Vec<VpnServer>, config: &Config, uris: &UriTable) -> (r: Vec<
    StartRequest,
>)
    ensures
        start_views(r@) == starts_of(
            server_views(servers@),
            config.server_settings@,
            text_values(uris@),
            config.xray_binary_path@,
        ),
        forall|k: int| 0 <= k < r.len() ==> is_enabled_key(servers@, (#[trigger] r@[k]).server_key@),
{
    let ghost settings = config.server_settings@;
    let ghost texts = text_values(uris@);
    let ghost binary = config.xray_binary_path@;
    let mut requests: Vec<StartRequest> = Vec::new();
    let mut i: usize = 0;
    assert(server_views(servers@).take(0) =~= Seq::<ServerView>::empty());
    assert(start_views(requests@) =~= Seq::<StartView>::empty());
    while i < servers.len()
        invariant
            i <= servers.len(),
            settings == config.server_settings@,
            texts == text_values(uris@),
            binary == config.xray_binary_path@,
            start_views(requests@) == starts_of(
                server_views(servers@).take(i as int),
                settings,
                texts,
                binary,
            ),
            forall|k: int|
                0 <= k < requests.len() ==> is_enabled_key(
                    servers@,
                    (#[trigger] requests@[k]).server_key@,
                ),
        decreases servers.len() - i,
    {
        proof {
            let upto = server_views(servers@).take(i as int + 1);
            assert(upto.drop_last() =~= server_views(servers@).take(i as int));
            assert(upto.last() == servers@[i as int]@);
        }
        if servers[i].enabled {
            let key = servers[i].get_server_key();
            match config.server_settings.get(key.as_str()) {
                Some(saved) => match uris.get(key.as_str()) {
                    Some(uri) => {
                        let ghost earlier = requests@;
                        let request = StartRequest {
                            server_key: key,
                            uri: uri.clone(),
                            local_port: saved.local_port,
                            proxy_type: saved.proxy_type.clone(),
                            xray_binary_path: config.xray_binary_path.clone(),
                        };
                        requests.push(request);
                        assert(start_views(requests@) =~= start_views(earlier).push(request@));
                        assert(is_enabled_key(servers@, request.server_key@)) by {
                            assert(servers@[i as int].enabled);
                        }
                    },
                    None => {},
                },
                None => {},
            }
        }
        i += 1;
    }
    assert(server_views(servers@).take(servers.len() as int) =~= server_views(servers@));
    requests
}

/// What the start of a cycle hands to its caller.
#[derive(Debug)]
pub struct CycleStart<H> {
    /// The engines that ran, by server key: the caller terminates each and
    /// passes over a failure to do so.
    pub stopped: Vec<(String, H)>,
    /// The subscription URL to fetch, or `None` where the cycle ends here
    /// because no URL or no engine binary is set.
    pub fetch_url: Option<String>,
}

/// How the launch that a cycle asked for ended.
#[derive(Debug)]
pub enum StartReport<H> {
    /// The engine runs and is entered under its server's key.
    Started,
    /// Building the configuration or spawning the engine failed; the
    /// message says why. Nothing was entered.
    Failed(String),
    /// No start was asked for: the outcome is handed back as it came, and
    /// nothing was entered.
    Unrequested(Result<H, String>),
}

/// The state that a reconciliation cycle works on: the engines that run,
/// the registry of the last reconciliation, and the starts of the current
/// cycle that are still to be tried. An engine is entered only for a server
/// that the registry holds as enabled.
pub struct Supervisor<H> {
    processes: ProcessTable<H>,
    reconciled: Vec<VpnServer>,
    waiting: Vec<StartRequest>,
}

impl<H> Supervisor<H> {
    #[verifier::type_invariant]
    spec fn entries_are_enabled(&self) -> bool {
        &&& forall|key: Seq<char>| #[trigger]
            self.processes@.contains_key(key) ==> is_enabled_key(self.reconciled@, key)
        &&& forall|k: int|
            0 <= k < self.waiting.len() ==> is_enabled_key(
                self.reconciled@,
                (#[trigger] self.waiting@[k]).server_key@,
            )
    }

    /// The engines that run, by server key.
    pub closed spec fn running(&self) -> Map<Seq<char>, H> {
        self.processes@
    }

    /// The registry of the last reconciliation.
    pub closed spec fn registry(&self) -> Seq<VpnServer> {
        self.reconciled@
    }

    /// The starts of the current cycle that are still to be tried.
    pub closed spec fn pending(&self) -> Seq<StartRequest> {
        self.waiting@
    }

    /// A supervisor with no engine running and an empty registry.
    pub fn new() -> (r: Self)
        ensures
            r.running() == Map::<Seq<char>, H>::empty(),
            r.registry() == Seq::<VpnServer>::empty(),
            r.pending() == Seq::<StartRequest>::empty(),
    {
        Supervisor { processes: KeyedTable::new(), reconciled: Vec::new(), waiting: Vec::new() }
    }

    /// Takes every engine out of the table, for the caller to terminate, and
    /// drops the starts that were still to be tried. Whatever becomes of the
    /// engines, none is in the table afterwards.
    pub fn stop_all_servers(&mut self) -> (r: Vec<(String, H)>)
        ensures
            final(self).running() == Map::<Seq<char>, H>::empty(),
            final(self).pending() == Seq::<StartRequest>::empty(),
            final(self).registry() == old(self).registry(),
            distinct_keys(r@),
            pairs_map(r@) == old(self).running(),
    {
        proof {
            use_type_invariant(&*self);
        }
        let mut processes: ProcessTable<H> = KeyedTable::new();
        std::mem::swap(&mut self.processes, &mut processes);
        self.waiting = Vec::new();
        processes.drain()
    }

    /// Begins a cycle: every engine is taken out of the table, for the
    /// caller to terminate, and what was still to be started is dropped.
    /// `config` is what was loaded, or `None` where loading failed. The
    /// cycle goes on to fetch the feed only if a configuration was loaded
    /// that names both a subscription URL and an engine binary; else it ends
    /// here, with the registry as it was and nothing to start.
    pub fn begin_cycle(&mut self, config: Option<&Config>) -> (r: CycleStart<H>)
        ensures
            final(self).running() == Map::<Seq<char>, H>::empty(),
            final(self).pending() == Seq::<StartRequest>::empty(),
            final(self).registry() == old(self).registry(),
            distinct_keys(r.stopped@),
            pairs_map(r.stopped@) == old(self).running(),
            match config {
                Some(c) => if c.configured() {
                    r.fetch_url is Some && r.fetch_url->0@ == c.subscription_url@
                } else {
                    r.fetch_url is None
                },
                None => r.fetch_url is None,
            },
    {
        let stopped = self.stop_all_servers();
        let fetch_url = match config {
            Some(c) => if c.is_configured() {
                Some(c.subscription_url.clone())
            } else {
                None
            },
            None => None,
        };
        CycleStart { stopped, fetch_url }
    }

    /// Takes in what the fetch gave. With a subscription URL and an engine
    /// binary set, the saved settings are merged into `servers`, the merged
    /// list becomes the registry, and a start is pending for every enabled
    /// server that has saved settings and a URI in `uris`. Without them
    /// the registry stays as it was and nothing is pending. Either way no
    /// engine is in the table afterwards: those that still were are handed
    /// back for the caller to terminate.
    pub fn reconcile(&mut self, config: &Config, servers: Vec<VpnServer>, uris: &UriTable) -> (r:
        Vec<(String, H)>)
        ensures
            final(self).running() == Map::<Seq<char>, H>::empty(),
            distinct_keys(r@),
            pairs_map(r@) == old(self).running(),
            config.configured() ==> is_merge_of(
                server_views(final(self).registry()),
                server_views(servers@),
                config.server_settings@,
            ),
            config.configured() ==> start_views(final(self).pending()) == starts_of(
                server_views(final(self).registry()),
                config.server_settings@,
                text_values(uris@),
                config.xray_binary_path@,
            ),
            !config.configured() ==> final(self).registry() == old(self).registry(),
            !config.configured() ==> final(self).pending() == Seq::<StartRequest>::empty(),
    {
        let stopped = self.stop_all_servers();
        if config.is_configured() {
            let mut merged = servers;
            assign_local_ports(&mut merged, &config.server_settings);
            let requests = plan_starts(&merged, config, uris);
            self.reconciled = merged;
            self.waiting = requests;
        }
        stopped
    }

    /// The start to try next, if one is pending.
    pub fn next_start(&self) -> (r: Option<&StartRequest>)
        ensures
            match r {
                Some(request) => self.pending().len() > 0 && *request == self.pending()[0],
                None => self.pending().len() == 0,
            },
    {
        if self.waiting.len() > 0 {
            Some(&self.waiting[0])
        } else {
            None
        }
    }

    /// Records how the launch for the first pending start ended, and takes
    /// that start off the list. A running engine is entered under the key of
    /// its server; a failure is reported and enters nothing, and the cycle
    /// goes on with the starts that are left.
    pub fn start_finished(&mut self, launched: Result<H, String>) -> (r: StartReport<H>)
        ensures
            final(self).registry() == old(self).registry(),
            old(self).pending().len() == 0 ==> r == StartReport::Unrequested(launched)
                && final(self).running() == old(self).running() && final(self).pending() == old(self).pending(),
            old(self).pending().len() > 0 ==> final(self).pending() == old(self).pending().drop_first() && match launched {
                Ok(handle) => r is Started && final(self).running() == old(self).running().insert(
                    old(self).pending()[0].server_key@,
                    handle,
                ),
                Err(reason) => r is Failed && r->Failed_0@ == start_failure(reason@) && final(self).running() == old(self).running(),
            },
    {
        proof {
            use_type_invariant(&*self);
        }
        if self.waiting.len() == 0 {
            return StartReport::Unrequested(launched);
        }
        let mut waiting: Vec<StartRequest> = Vec::new();
        std::mem::swap(&mut self.waiting, &mut waiting);
        let request = waiting.remove(0);
        assert(waiting@ =~= old(self).pending().drop_first());
        assert(is_enabled_key(self.reconciled@, request.server_key@));
        let mut processes: ProcessTable<H> = KeyedTable::new();
        std::mem::swap(&mut self.processes, &mut processes);
        let outcome = start_server(&mut processes, request.server_key.as_str(), launched);
        self.processes = processes;
        self.waiting = waiting;
        match outcome {
            Ok(_) => StartReport::Started,
            Err(message) => StartReport::Failed(message),
        }
    }

    /// Takes the engine of `server_key` out of the table, for the caller to
    /// terminate. Where none runs under that key nothing changes.
    pub fn stop_server(&mut self, server_key: &str) -> (r: Option<H>)
        ensures
            final(self).running() == old(self).running().remove(server_key@),
            final(self).registry() == old(self).registry(),
            final(self).pending() == old(self).pending(),
            match r {
                Some(handle) => old(self).running().contains_key(server_key@) && handle == old(self).running()[server_key@],
                None => !old(self).running().contains_key(server_key@),
            },
    {
        proof {
            use_type_invariant(&*self);
        }
        let mut processes: ProcessTable<H> = KeyedTable::new();
        std::mem::swap(&mut self.processes, &mut processes);
        let handle = processes.remove(server_key);
        self.processes = processes;
        handle
    }

    /// The registry of the last reconciliation, to publish.
    pub fn servers(&self) -> (r: &Vec<VpnServer>)
        ensures
            r@ == self.registry(),
    {
        &self.reconciled
    }

    /// The keys of the servers whose engines run, each once. Each is the
    /// key of a server that the registry holds as enabled.
    pub fn get_running_servers(&self) -> (r: Vec<String>)
        ensures
            views(r@).no_duplicates(),
            views(r@).to_set() == self.running().dom(),
            forall|k: int| 0 <= k < r.len() ==> is_enabled_key(self.registry(), (#[trigger] r@[k])@),
    {
        proof {
            use_type_invariant(self);
        }
        let keys = self.processes.keys();
        assert forall|k: int| 0 <= k < keys.len() implies is_enabled_key(
            self.registry(),
            (#[trigger] keys@[k])@,
        ) by {
            assert(views(keys@)[k] == keys@[k]@);
            assert(views(keys@).to_set().contains(keys@[k]@));
            assert(self.processes@.contains_key(keys@[k]@));
        }
        keys
    }
}

} // verus!
