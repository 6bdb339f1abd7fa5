use crate::config::{ServerSettings, SettingsTable};
use crate::server::{ServerView, VpnServer};
use std::collections::HashSet;
use vstd::prelude::*;
use vstd::seq_lib::*;
use vstd::set_lib::*;

verus! {

/// The first local port that is handed out.
pub const FIRST_LOCAL_PORT: u16 = 1080;

/// The number of ports from `FIRST_LOCAL_PORT` up: in a list that is no
/// longer, no server is left without a port.
pub const MAX_SERVERS: usize = 64456;

/// The servers of a list as plain values.
pub open spec fn server_views(servers: Seq<VpnServer>) -> Seq<ServerView> {
    servers.map_values(|s: VpnServer| s@)
}

/// Whether settings were saved for `s`.
pub open spec fn has_saved(s: ServerView, saved: Map<Seq<char>, ServerSettings>) -> bool {
    saved.contains_key(s.key())
}

/// `s` after the first pass: with the saved local port, proxy type and
/// enabled flag where settings were saved for it, unchanged where not.
pub open spec fn with_saved(s: ServerView, saved: Map<Seq<char>, ServerSettings>) -> ServerView {
    if has_saved(s, saved) {
        ServerView {
            local_port: saved[s.key()].local_port,
            proxy_type: saved[s.key()].proxy_type@,
            enabled: saved[s.key()].enabled,
            ..s
        }
    } else {
        s
    }
}

/// Whether the second pass looks for a port for `s`: after the first pass
/// it still has none.
pub open spec fn needs_port(s: ServerView, saved: Map<Seq<char>, ServerSettings>) -> bool {
    with_saved(s, saved).local_port == 0
}

/// The ports that the first pass records as used: the saved port of each
/// server of the list for which settings were saved.
pub open spec fn saved_ports(
    before: Seq<ServerView>,
    saved: Map<Seq<char>, ServerSettings>,
) -> Set<u16> {
    Set::new(
        |p: u16|
            exists|j: int|
                0 <= j < before.len() && has_saved(#[trigger] before[j], saved) && saved[before[j].key()].local_port
                    == p,
    )
}

/// The ports that the second pass has handed out to the servers before
/// place `i`. A server that it had no port left for has none to count.
pub open spec fn ports_given(
    before: Seq<ServerView>,
    saved: Map<Seq<char>, ServerSettings>,
    after: Seq<ServerView>,
    i: int,
) -> Set<u16> {
    Set::new(
        |p: u16|
            exists|j: int|
                0 <= j < i && j < before.len() && j < after.len() && needs_port(
                    #[trigger] before[j],
                    saved,
                ) && after[j].local_port != 0 && after[j].local_port == p,
    )
}

/// The ports that are used when the second pass reaches place `i`: the saved
/// ones, and those handed out before `i`.
pub open spec fn ports_used(
    before: Seq<ServerView>,
    saved: Map<Seq<char>, ServerSettings>,
    after: Seq<ServerView>,
    i: int,
) -> Set<u16> {
    saved_ports(before, saved).union(ports_given(before, saved, after, i))
}

/// Whether `p` is the smallest port from `FIRST_LOCAL_PORT` up that is not
/// in `used`.
pub open spec fn is_first_free(p: u16, used: Set<u16>) -> bool {
    &&& p >= FIRST_LOCAL_PORT
    &&& !used.contains(p)
    &&& forall|q: u16| FIRST_LOCAL_PORT <= q < p ==> used.contains(q)
}

/// Whether a port from `FIRST_LOCAL_PORT` up is left that is not in `used`.
pub open spec fn has_free(used: Set<u16>) -> bool {
    exists|p: u16| p >= FIRST_LOCAL_PORT && !#[trigger] used.contains(p)
}

/// Whether `p` is what a server gets that needs a port while `used` are
/// used: the smallest free port, or 0, which stands for none, where no port
/// is left.
pub open spec fn is_port_for(p: u16, used: Set<u16>) -> bool {
    if has_free(used) {
        is_first_free(p, used)
    } else {
        p == 0
    }
}

/// Whether `after` is what merging `saved` into `before` gives. Each server
/// keeps its place and what identifies it. Where settings were saved for it,
/// it has their proxy type and enabled flag, and their port unless that is 0.
/// A server that is left without a port gets the smallest one from
/// `FIRST_LOCAL_PORT` up that is neither a saved port nor handed out to a
/// server before it; where every such port is taken, it stays without one.
pub open spec fn is_merge_of(
    after: Seq<ServerView>,
    before: Seq<ServerView>,
    saved: Map<Seq<char>, ServerSettings>,
) -> bool {
    &&& after.len() == before.len()
    &&& forall|i: int|
        0 <= i < before.len() ==> #[trigger] after[i] == (ServerView {
            local_port: after[i].local_port,
            ..with_saved(before[i], saved)
        })
    &&& forall|i: int|
        0 <= i < before.len() && !needs_port(before[i], saved) ==> (#[trigger] after[i]).local_port
            == with_saved(before[i], saved).local_port
    &&& forall|i: int|
        0 <= i < before.len() && needs_port(before[i], saved) ==> is_port_for(
            (#[trigger] after[i]).local_port,
            ports_used(before, saved, after, i),
        )
}

/// There is one smallest free port at most.
pub proof fn lemma_first_free_unique(p: u16, q: u16, used: Set<u16>)
    requires
        is_first_free(p, used),
        is_first_free(q, used),
    ensures
        p == q,
{
}

/// The merge is a function of its inputs: two lists that both are the merge
/// of `saved` into `before` are the same list.
pub proof fn lemma_merge_is_deterministic(
    first: Seq<ServerView>,
    second: Seq<ServerView>,
    before: Seq<ServerView>,
    saved: Map<Seq<char>, ServerSettings>,
)
    requires
        is_merge_of(first, before, saved),
        is_merge_of(second, before, saved),
    ensures
        first == second,
{
    lemma_merge_agrees_up_to(first, second, before, saved, before.len() as int);
    assert(first =~= second);
}

/// Two merges of the same inputs agree on the first `n` places.
proof fn lemma_merge_agrees_up_to(
    first: Seq<ServerView>,
    second: Seq<ServerView>,
    before: Seq<ServerView>,
    saved: Map<Seq<char>, ServerSettings>,
    n: int,
)
    requires
        is_merge_of(first, before, saved),
        is_merge_of(second, before, saved),
        0 <= n <= before.len(),
    ensures
        forall|i: int| 0 <= i < n ==> first[i] == second[i],
    decreases n,
{
    if n > 0 {
        lemma_merge_agrees_up_to(first, second, before, saved, n - 1);
        let i = n - 1;
        if needs_port(before[i], saved) {
            assert(ports_given(before, saved, first, i) =~= ports_given(before, saved, second, i))
                by {
                assert forall|p: u16|
                    ports_given(before, saved, first, i).contains(p) <==> ports_given(
                        before,
                        saved,
                        second,
                        i,
                    ).contains(p) by {
                    if ports_given(before, saved, first, i).contains(p) {
                        let j = choose|j: int|
                            0 <= j < i && j < before.len() && j < first.len() && needs_port(
                                #[trigger] before[j],
                                saved,
                            ) && first[j].local_port != 0 && first[j].local_port == p;
                        assert(first[j] == second[j]);
                    }
                    if ports_given(before, saved, second, i).contains(p) {
                        let j = choose|j: int|
                            0 <= j < i && j < before.len() && j < second.len() && needs_port(
                                #[trigger] before[j],
                                saved,
                            ) && second[j].local_port != 0 && second[j].local_port == p;
                        assert(first[j] == second[j]);
                    }
                }
            }
            let used = ports_used(before, saved, first, i);
            assert(is_port_for(first[i].local_port, used));
            assert(is_port_for(second[i].local_port, used));
            if has_free(used) {
                lemma_first_free_unique(first[i].local_port, second[i].local_port, used);
            }
        }
        assert(first[i] == second[i]);
    }
}

/// No port that the merge hands out is given twice, and none is a saved
/// port of the list: of two servers, one of which got its port in the second
/// pass while the other was looked at there too or has saved settings, the
/// local ports differ.
pub open spec fn ports_kept_apart(
    after: Seq<ServerView>,
    before: Seq<ServerView>,
    saved: Map<Seq<char>, ServerSettings>,
) -> bool {
    forall|i: int, j: int|
        0 <= i < before.len() && 0 <= j < before.len() && i != j && needs_port(before[i], saved)
            && after[i].local_port != 0 && (needs_port(before[j], saved) || has_saved(
            before[j],
            saved,
        )) ==> (#[trigger] after[i]).local_port != (#[trigger] after[j]).local_port
}

/// A merge keeps the ports it hands out apart from each other and from the
/// saved ones.
pub proof fn lemma_merge_keeps_ports_apart(
    after: Seq<ServerView>,
    before: Seq<ServerView>,
    saved: Map<Seq<char>, ServerSettings>,
)
    requires
        is_merge_of(after, before, saved),
    ensures
        ports_kept_apart(after, before, saved),
{
    assert forall|i: int, j: int|
        0 <= i < before.len() && 0 <= j < before.len() && i != j && needs_port(before[i], saved)
            && after[i].local_port != 0 && (needs_port(before[j], saved) || has_saved(
            before[j],
            saved,
        )) implies (#[trigger] after[i]).local_port != (#[trigger] after[j]).local_port by {
        let pi = after[i].local_port;
        let pj = after[j].local_port;
        assert(is_port_for(pi, ports_used(before, saved, after, i)));
        assert(is_first_free(pi, ports_used(before, saved, after, i)));
        if needs_port(before[j], saved) {
            assert(is_port_for(pj, ports_used(before, saved, after, j)));
            if pj != 0 {
                assert(is_first_free(pj, ports_used(before, saved, after, j)));
                if i < j {
                    assert(needs_port(before[i], saved));
                    assert(ports_given(before, saved, after, j).contains(pi));
                } else {
                    assert(needs_port(before[j], saved));
                    assert(ports_given(before, saved, after, i).contains(pj));
                }
            }
        } else {
            assert(has_saved(before[j], saved));
            assert(pj == saved[before[j].key()].local_port);
            assert(saved_ports(before, saved).contains(pj));
        }
    }
}

/// Where a list no longer than `MAX_SERVERS` comes without ports and no two
/// saved ports of the list are alike, a merge gives every server a port of
/// its own.
pub proof fn lemma_merge_of_fresh_list(
    after: Seq<ServerView>,
    before: Seq<ServerView>,
    saved: Map<Seq<char>, ServerSettings>,
)
    requires
        is_merge_of(after, before, saved),
        before.len() <= MAX_SERVERS,
        forall|i: int| 0 <= i < before.len() ==> (#[trigger] before[i]).local_port == 0,
        forall|i: int, j: int|
            0 <= i < before.len() && 0 <= j < before.len() && i != j && has_saved(
                #[trigger] before[i],
                saved,
            ) && has_saved(#[trigger] before[j], saved) ==> saved[before[i].key()].local_port
                != saved[before[j].key()].local_port,
    ensures
        forall|i: int, j: int|
            0 <= i < after.len() && 0 <= j < after.len() && i != j ==> (
            #[trigger] after[i]).local_port != (#[trigger] after[j]).local_port,
{
    lemma_merge_keeps_ports_apart(after, before, saved);
    lemma_ports_suffice(after, before, saved);
    assert forall|i: int, j: int|
        0 <= i < after.len() && 0 <= j < after.len() && i != j implies (
    #[trigger] after[i]).local_port != (#[trigger] after[j]).local_port by {
        assert(before[i].local_port == 0);
        assert(before[j].local_port == 0);
        if needs_port(before[i], saved) {
            assert(needs_port(before[j], saved) || has_saved(before[j], saved));
        } else if needs_port(before[j], saved) {
            assert(has_saved(before[i], saved));
        } else {
            assert(has_saved(before[i], saved) && has_saved(before[j], saved));
        }
    }
}

/// The ports from `FIRST_LOCAL_PORT` up to, but not including, `hi`.
spec fn port_range(hi: int) -> Set<u16> {
    Set::new(|q: u16| FIRST_LOCAL_PORT <= q < hi)
}

/// There are `hi - FIRST_LOCAL_PORT` ports in that range.
proof fn lemma_port_range_len(hi: int)
    requires
        FIRST_LOCAL_PORT <= hi <= 65536,
    ensures
        port_range(hi).finite(),
        port_range(hi).len() == hi - FIRST_LOCAL_PORT,
    decreases hi,
{
    if hi == FIRST_LOCAL_PORT {
        assert(port_range(hi) =~= Set::<u16>::empty());
    } else {
        lemma_port_range_len(hi - 1);
        assert(port_range(hi) =~= port_range(hi - 1).insert((hi - 1) as u16));
    }
}

/// In a list that is no longer than `MAX_SERVERS` the ports suffice: every
/// server that the second pass looks at gets a port, the smallest one that
/// is free when its turn comes.
pub proof fn lemma_ports_suffice(
    after: Seq<ServerView>,
    before: Seq<ServerView>,
    saved: Map<Seq<char>, ServerSettings>,
)
    requires
        is_merge_of(after, before, saved),
        before.len() <= MAX_SERVERS,
    ensures
        forall|i: int|
            0 <= i < before.len() && needs_port(before[i], saved) ==> is_first_free(
                (#[trigger] after[i]).local_port,
                ports_used(before, saved, after, i),
            ),
{
    assert forall|i: int| 0 <= i < before.len() && needs_port(before[i], saved) implies is_first_free(
        (#[trigger] after[i]).local_port,
        ports_used(before, saved, after, i),
    ) by {
        let used = ports_used(before, saved, after, i);
        assert(is_port_for(after[i].local_port, used));
        if !has_free(used) {
            // Every port from the first one up would be some server's, and
            // this server's 0 besides: more ports than the list has servers.
            let ports = after.map_values(|s: ServerView| s.local_port);
            let all = port_range(65536).insert(0u16);
            lemma_port_range_len(65536);
            ports.lemma_cardinality_of_set();
            assert(all.subset_of(ports.to_set())) by {
                assert forall|q: u16| all.contains(q) implies ports.to_set().contains(q) by {
                    if q == 0 {
                        assert(ports[i] == q);
                    } else {
                        assert(used.contains(q));
                        if saved_ports(before, saved).contains(q) {
                            let j = choose|j: int|
                                0 <= j < before.len() && has_saved(#[trigger] before[j], saved)
                                    && saved[before[j].key()].local_port == q;
                            assert(!needs_port(before[j], saved));
                            assert(after[j].local_port == q);
                            assert(ports[j] == q);
                        } else {
                            let j = choose|j: int|
                                0 <= j < i && j < before.len() && j < after.len() && needs_port(
                                    #[trigger] before[j],
                                    saved,
                                ) && after[j].local_port != 0 && after[j].local_port == q;
                            assert(ports[j] == q);
                        }
                    }
                }
            }
            lemma_len_subset(all, ports.to_set());
            assert(!port_range(65536).contains(0u16));
            assert(all.len() == 64457);
        }
    }
}

/// Merges the saved settings into a freshly fetched list and gives every
/// server that is left without a local port the smallest free one.
///
/// The first pass goes through the list in order: a server for whose key
/// `saved_settings` holds an entry takes that entry's local port, proxy type
/// and enabled flag as they are, and the port counts as used from then on.
/// The second pass goes through the list again: a server whose local port is
/// still 0 gets the smallest port from `FIRST_LOCAL_PORT` up that is not
/// used, and that port is used from then on. Where every such port is used,
/// the server stays without one; that cannot happen in a list of at most
/// `MAX_SERVERS` servers.
pub fn assign_local_ports(servers: &mut Vec<VpnServer>, saved_settings: &SettingsTable)
    ensures
        final(servers)@.len() == old(servers)@.len(),
        is_merge_of(
            server_views(final(servers)@),
            server_views(old(servers)@),
            saved_settings@,
        ),
        ports_kept_apart(
            server_views(final(servers)@),
            server_views(old(servers)@),
            saved_settings@,
        ),
        // What was saved for a server is what it has afterwards.
        forall|i: int|
            0 <= i < old(servers).len() && has_saved(old(servers)@[i]@, saved_settings@) ==> {
                let entry = saved_settings@[old(servers)@[i].key()];
                &&& (#[trigger] final(servers)@[i]).proxy_type@ == entry.proxy_type@
                &&& final(servers)@[i].enabled == entry.enabled
                &&& entry.local_port != 0 ==> final(servers)@[i].local_port == entry.local_port
            },
        // In a list that the ports suffice for, a server that has no port
        // after the first pass, as one without saved settings that came
        // without a port, gets the smallest port that is free when its turn
        // comes.
        old(servers).len() <= MAX_SERVERS ==> forall|i: int|
            0 <= i < old(servers).len() && needs_port(old(servers)@[i]@, saved_settings@)
                ==> is_first_free(
                (#[trigger] final(servers)@[i]).local_port,
                ports_used(
                    server_views(old(servers)@),
                    saved_settings@,
                    server_views(final(servers)@),
                    i,
                ),
            ),
{
    let ghost before = server_views(servers@);
    let ghost saved = saved_settings@;
    let n: usize = servers.len();
    let mut used_ports: HashSet<u16> = HashSet::new();

    // First pass: the saved port, proxy type and enabled flag.
    let mut i: usize = 0;
    while i < n
        invariant
            i <= n,
            n == servers.len(),
            n == before.len(),
            saved == saved_settings@,
            forall|j: int| 0 <= j < i ==> (#[trigger] servers@[j])@ == with_saved(before[j], saved),
            forall|j: int| i <= j < n ==> (#[trigger] servers@[j])@ == before[j],
            forall|p: u16|
                used_ports@.contains(p) <==> exists|j: int|
                    0 <= j < i && has_saved(#[trigger] before[j], saved) && saved[before[j].key()].local_port
                        == p,
        decreases n - i,
    {
        let key = servers[i].get_server_key();
        match saved_settings.get(key.as_str()) {
            Some(settings) => {
                let port = settings.local_port;
                let ghost used_earlier = used_ports@;
                servers[i].local_port = port;
                servers[i].proxy_type = settings.proxy_type.clone();
                servers[i].enabled = settings.enabled;
                used_ports.insert(port);
                assert forall|p: u16|
                    used_ports@.contains(p) <==> exists|j: int|
                        0 <= j < i + 1 && has_saved(#[trigger] before[j], saved)
                            && saved[before[j].key()].local_port == p by {
                    if used_ports@.contains(p) {
                        if p == port {
                            assert(has_saved(before[i as int], saved));
                        } else {
                            assert(used_earlier.contains(p));
                        }
                    }
                }
            },
            None => {},
        }
        i += 1;
    }
    assert(used_ports@ =~= saved_ports(before, saved));

    // Second pass: a port for every server that still has none.
    let mut next_port: u32 = 1080;
    let mut i: usize = 0;
    assert(ports_given(before, saved, server_views(servers@), 0) =~= Set::<u16>::empty());
    while i < n
        invariant
            i <= n,
            n == servers.len(),
            n == before.len(),
            saved == saved_settings@,
            forall|j: int|
                0 <= j < n ==> (#[trigger] servers@[j])@ == (ServerView {
                    local_port: servers@[j].local_port,
                    ..with_saved(before[j], saved)
                }),
            forall|j: int| i <= j < n ==> (#[trigger] servers@[j])@ == with_saved(before[j], saved),
            forall|j: int|
                0 <= j < i && !needs_port(before[j], saved) ==> (#[trigger] servers@[j]).local_port
                    == with_saved(before[j], saved).local_port,
            forall|j: int|
                0 <= j < i && needs_port(before[j], saved) ==> is_port_for(
                    (#[trigger] servers@[j]).local_port,
                    ports_used(before, saved, server_views(servers@), j),
                ),
            used_ports@ == ports_used(before, saved, server_views(servers@), i as int),
            FIRST_LOCAL_PORT <= next_port <= 65536,
            forall|q: u16| FIRST_LOCAL_PORT <= q < next_port ==> used_ports@.contains(q),
        decreases n - i,
    {
        let ghost earlier = server_views(servers@);
        if servers[i].local_port == 0 {
            while next_port < 65536 && used_ports.contains(&(next_port as u16))
                invariant
                    FIRST_LOCAL_PORT <= next_port <= 65536,
                    forall|q: u16| FIRST_LOCAL_PORT <= q < next_port ==> used_ports@.contains(q),
                decreases 65536 - next_port,
            {
                next_port += 1;
            }
            if next_port < 65536 {
                let port: u16 = next_port as u16;
                assert(is_first_free(port, used_ports@));
                assert(has_free(used_ports@));
                servers[i].local_port = port;
                used_ports.insert(port);
                next_port += 1;
            } else {
                assert(!has_free(used_ports@));
            }
        }
        proof {
            let now = server_views(servers@);
            assert forall|j: int| 0 <= j <= i implies ports_given(before, saved, now, j)
                == ports_given(before, saved, earlier, j) by {
                assert forall|k: int| 0 <= k < j implies now[k] == earlier[k] by {}
                assert(ports_given(before, saved, now, j) =~= ports_given(
                    before,
                    saved,
                    earlier,
                    j,
                ));
            }
            assert(ports_given(before, saved, now, i as int + 1) =~= if needs_port(
                before[i as int],
                saved,
            ) && now[i as int].local_port != 0 {
                ports_given(before, saved, earlier, i as int).insert(now[i as int].local_port)
            } else {
                ports_given(before, saved, earlier, i as int)
            }) by {
                assert(needs_port(before[i as int], saved) && now[i as int].local_port != 0
                    ==> ports_given(before, saved, now, i as int + 1).contains(
                    now[i as int].local_port,
                ));
            }
        }
        i += 1;
    }
    proof {
        let after = server_views(servers@);
        assert(is_merge_of(after, before, saved));
        lemma_merge_keeps_ports_apart(after, before, saved);
        if n <= MAX_SERVERS {
            lemma_ports_suffice(after, before, saved);
            assert forall|i: int| 0 <= i < n && needs_port(before[i], saved) implies is_first_free(
                (#[trigger] servers@[i]).local_port,
                ports_used(before, saved, after, i),
            ) by {
                assert(after[i].local_port == servers@[i].local_port);
            }
        }
    }
}

} // verus!
