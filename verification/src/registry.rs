use crate::config::{settings_views, ServerSettings, SettingsTable, SettingsView};
use crate::ports::server_views;
use crate::server::{ServerView, VpnServer};
use crate::table::KeyedTable;
use vstd::prelude::*;

verus! {

/// What is saved for `server`: its local port, proxy type and enabled flag.
pub open spec fn settings_of(server: ServerView) -> SettingsView {
    SettingsView {
        local_port: server.local_port,
        proxy_type: server.proxy_type,
        enabled: server.enabled,
    }
}

/// The settings to save for a registry: under each server's key what the
/// server has now. Of two servers with one key the later one stays.
pub open spec fn settings_by_key(servers: Seq<ServerView>) -> Map<Seq<char>, SettingsView>
    decreases servers.len(),
{
    if servers.len() == 0 {
        Map::<Seq<char>, SettingsView>::empty()
    } else {
        settings_by_key(servers.drop_last()).insert(
            servers.last().key(),
            settings_of(servers.last()),
        )
    }
}

/// Collects from the registry the settings to save, by server key.
pub fn collect_settings(servers: &Vec<VpnServer>) -> (r: SettingsTable)
    ensures
        settings_views(r@) == settings_by_key(server_views(servers@)),
{
    let mut table: SettingsTable = KeyedTable::new();
    let mut i: usize = 0;
    assert(server_views(servers@).take(0) =~= Seq::<ServerView>::empty());
    assert(settings_views(table@) =~= Map::<Seq<char>, SettingsView>::empty());
    while i < servers.len()
        invariant
            i <= servers.len(),
            settings_views(table@) == settings_by_key(server_views(servers@).take(i as int)),
        decreases servers.len() - i,
    {
        proof {
            let upto = server_views(servers@).take(i as int + 1);
            assert(upto.drop_last() =~= server_views(servers@).take(i as int));
            assert(upto.last() == servers@[i as int]@);
        }
        let ghost earlier = table@;
        let key = servers[i].get_server_key();
        let entry = ServerSettings {
            local_port: servers[i].local_port,
            proxy_type: servers[i].proxy_type.clone(),
            enabled: servers[i].enabled,
        };
        table.insert(key, entry);
        assert(settings_views(table@) =~= settings_views(earlier).insert(key@, entry@));
        i += 1;
    }
    assert(server_views(servers@).take(servers.len() as int) =~= server_views(servers@));
    table
}

/// Sets the enabled flag of the server at `index`. Says whether there is
/// such a server; where there is none, nothing changes.
pub fn set_enabled(servers: &mut Vec<VpnServer>, index: usize, enabled: bool) -> (r: bool)
    ensures
        r == (index < old(servers).len()),
        r ==> server_views(final(servers)@) == server_views(old(servers)@).update(
            index as int,
            ServerView { enabled, ..old(servers)@[index as int]@ },
        ),
        !r ==> final(servers)@ == old(servers)@,
{
    if index < servers.len() {
        servers[index].enabled = enabled;
        assert(server_views(servers@) =~= server_views(old(servers)@).update(
            index as int,
            ServerView { enabled, ..old(servers)@[index as int]@ },
        ));
        true
    } else {
        false
    }
}

/// Sets the local port of the server at `index`. Says whether there is such
/// a server; where there is none, nothing changes.
pub fn set_local_port(servers: &mut Vec<VpnServer>, index: usize, local_port: u16) -> (r: bool)
    ensures
        r == (index < old(servers).len()),
        r ==> server_views(final(servers)@) == server_views(old(servers)@).update(
            index as int,
            ServerView { local_port, ..old(servers)@[index as int]@ },
        ),
        !r ==> final(servers)@ == old(servers)@,
{
    if index < servers.len() {
        servers[index].local_port = local_port;
        assert(server_views(servers@) =~= server_views(old(servers)@).update(
            index as int,
            ServerView { local_port, ..old(servers)@[index as int]@ },
        ));
        true
    } else {
        false
    }
}

/// Sets the proxy type of the server at `index`. Says whether there is such
/// a server; where there is none, nothing changes.
pub fn set_proxy_type(servers: &mut Vec<VpnServer>, index: usize, proxy_type: &str) -> (r: bool)
    ensures
        r == (index < old(servers).len()),
        r ==> server_views(final(servers)@) == server_views(old(servers)@).update(
            index as int,
            ServerView { proxy_type: proxy_type@, ..old(servers)@[index as int]@ },
        ),
        !r ==> final(servers)@ == old(servers)@,
{
    if index < servers.len() {
        servers[index].proxy_type = String::from_str(proxy_type);
        assert(server_views(servers@) =~= server_views(old(servers)@).update(
            index as int,
            ServerView { proxy_type: proxy_type@, ..old(servers)@[index as int]@ },
        ));
        true
    } else {
        false
    }
}

} // verus!
