//! Laws of discovery: every way to a cluster is tried before it is given up, and
//! addresses are read from kubeconfigs as they stand there.
use vstd::prelude::*;
use crate::kube_client::{
    advanced, bastion_of_lines, configured_endpoint, control_plane_ip, first_stage, is_name_line,
    is_news_of, name_of_line, opt_view, reply_fits, server_of_line, server_of_lines,
    speaks_by_token, stage_fits, trouble, trusts_system, url_of, ClusterDef, Credentials,
    DiscoverEvent, DiscoverMode, OutcomeModel, ProbeResult, Reply, Stage, StepModel, Target, Trust,
};
use crate::json::{member_items, member_text, Json};
use crate::scan::{char_index, lemma_char_index_bound, lines, parsed_u16, replaced, stripped};
use crate::text::{decimal, has_prefix, has_substring, occurs_at, trimmed};

verus! {

// ---------------------------------------------------------------------------
// The order of the ways
// ---------------------------------------------------------------------------

/// Where a discovery goes on, without regard to what it carries along.
pub open spec fn goes_on_to(t: Target, stage: Stage, reply: Reply, to: Stage) -> bool {
    advanced(t, stage, reply).step matches StepModel::Next { stage: next, .. } && next == to
}

/// The token that a discovery carries along to its next stage.
pub open spec fn carries(t: Target, stage: Stage, reply: Reply, token: Option<Seq<char>>) -> bool {
    advanced(t, stage, reply).step matches StepModel::Next { token: carried, .. } && carried
        == token
}

/// A cluster is given up only after the last way: when the tunnel fails, or after
/// the original address where there is no bastion for a tunnel.
pub proof fn law_given_up_only_after_the_last_way(t: Target, stage: Stage, reply: Reply)
    requires
        stage_fits(t, stage),
        reply_fits(stage, reply),
        advanced(t, stage, reply).step matches StepModel::Finish(OutcomeModel::Failed { .. }),
    ensures
        stage == Stage::Tunnel || (stage == Stage::Original && t.bastion is None),
        stage == Stage::Tunnel ==> reply is TunnelFailed,
        stage == Stage::Original ==> (reply matches Reply::Tried { connected, .. }
            && !connected),
{
}

/// A kubeconfig address that does not answer leads on: the current one to the
/// original one, and that to a tunnel through the bastion, where there is one. One
/// that answers ends the discovery.
pub proof fn law_addresses_lead_on_to_the_tunnel(t: Target, content: Option<String>)
    ensures
        goes_on_to(
            t,
            Stage::Direct,
            Reply::Tried { connected: false, content },
            Stage::Original,
        ),
        t.bastion is Some ==> goes_on_to(
            t,
            Stage::Original,
            Reply::Tried { connected: false, content },
            Stage::Tunnel,
        ),
        t.bastion is None ==> (advanced(
            t,
            Stage::Original,
            Reply::Tried { connected: false, content },
        ).step matches StepModel::Finish(OutcomeModel::Failed { error }) && error
            == "No bastion available for auto-tunnel"@),
{
}

/// A kubeconfig address that answers is used: the cluster is connected by that
/// kubeconfig's address, without a tunnel. Headless mode names the current
/// kubeconfig also where the original one answered.
pub proof fn law_answering_addresses_are_used(t: Target, content: Option<String>)
    ensures
        advanced(t, Stage::Direct, Reply::Tried { connected: true, content }).step
            matches StepModel::Finish(OutcomeModel::Connected { path, endpoint, tunnel_pid })
            && path == t.kubeconfig_path@ && endpoint == url_of(content) && tunnel_pid is None,
        advanced(t, Stage::Original, Reply::Tried { connected: true, content }).step
            matches StepModel::Finish(OutcomeModel::Connected { path, endpoint, tunnel_pid })
            && endpoint == url_of(content) && tunnel_pid is None && path == (if t.mode
            == DiscoverMode::Blocking {
            t.kubeconfig_path@
        } else {
            t.original_path@
        }),
{
}

/// A tunnel that stands is used, by its local port and its process; the error of
/// one that fails is the reason for giving up.
pub proof fn law_tunnels_end_discovery(t: Target, pid: u32, error: String)
    requires
        t.bastion is Some,
    ensures
        advanced(t, Stage::Tunnel, Reply::TunnelUp(pid)).step matches StepModel::Finish(
            OutcomeModel::Connected { path, endpoint, tunnel_pid },
        ) && path == t.kubeconfig_path@ && tunnel_pid == Some(pid) && endpoint == Some(
            "localhost:"@ + decimal(t.local_port as nat) + " (tunnel)"@,
        ),
        advanced(t, Stage::Tunnel, Reply::TunnelFailed(error)).step matches StepModel::Finish(
            OutcomeModel::Failed { error: e },
        ) && e == error@,
{
}

/// With a domain address a token is looked for first; without one the kubeconfig's
/// address is tried at once.
pub proof fn law_domain_comes_first(t: Target)
    ensures
        t.endpoint is Some ==> first_stage(t) == Stage::ReadToken,
        t.endpoint is None ==> first_stage(t) == Stage::Direct,
{
}

/// A token that is kept is used for the domain address. Without one it is
/// provisioned, where there is a bastion and no failed cluster is tried again; else
/// the domain address is tried without.
pub proof fn law_kept_token_is_used(t: Target, token: Option<String>)
    requires
        t.endpoint is Some,
    ensures
        token is Some ==> goes_on_to(t, Stage::ReadToken, Reply::Token(token), Stage::Domain)
            && carries(t, Stage::ReadToken, Reply::Token(token), Some(token->0@)),
        token is None && t.bastion is Some && t.mode != DiscoverMode::Retry ==> goes_on_to(
            t,
            Stage::ReadToken,
            Reply::Token(token),
            Stage::ProvisionToken,
        ),
        token is None && (t.bastion is None || t.mode == DiscoverMode::Retry) ==> goes_on_to(
            t,
            Stage::ReadToken,
            Reply::Token(token),
            Stage::Domain,
        ) && carries(t, Stage::ReadToken, Reply::Token(token), None),
{
}

/// A token that was provisioned is used for the domain address, at first and after
/// a refusal; where none could be, the domain address is tried without at first, and
/// the kubeconfig's address after a refusal.
pub proof fn law_provisioned_token_is_used(t: Target, token: String, error: String)
    requires
        t.endpoint is Some,
        t.bastion is Some,
    ensures
        goes_on_to(t, Stage::ProvisionToken, Reply::Token(Some(token)), Stage::Domain),
        carries(t, Stage::ProvisionToken, Reply::Token(Some(token)), Some(token@)),
        goes_on_to(t, Stage::ProvisionToken, Reply::TokenFailed(error), Stage::Domain),
        carries(t, Stage::ProvisionToken, Reply::TokenFailed(error), None),
        goes_on_to(t, Stage::RefreshToken, Reply::Token(Some(token)), Stage::RefreshedDomain),
        carries(t, Stage::RefreshToken, Reply::Token(Some(token)), Some(token@)),
        goes_on_to(t, Stage::RefreshToken, Reply::TokenFailed(error), Stage::Direct),
{
}

/// A domain address that answers is used. One that refuses the token has it
/// forgotten and, where there is a bastion, replaced once; any other trouble, and a
/// second refusal, lead to the kubeconfig's address.
pub proof fn law_domain_address(t: Target, reason: String, again: ProbeResult)
    requires
        t.endpoint is Some,
    ensures
        connects_by_domain(t, Stage::Domain),
        goes_on_to(
            t,
            Stage::Domain,
            Reply::Probed(ProbeResult::Unauthorized),
            Stage::InvalidateToken,
        ),
        goes_on_to(t, Stage::Domain, Reply::Probed(ProbeResult::Failed), Stage::Direct),
        goes_on_to(t, Stage::Domain, Reply::BuildFailed(reason), Stage::Direct),
        t.bastion is Some ==> goes_on_to(
            t,
            Stage::InvalidateToken,
            Reply::Forgotten,
            Stage::RefreshToken,
        ),
        t.bastion is None ==> goes_on_to(
            t,
            Stage::InvalidateToken,
            Reply::Forgotten,
            Stage::Direct,
        ),
        connects_by_domain(t, Stage::RefreshedDomain),
        again != ProbeResult::Reachable ==> goes_on_to(
            t,
            Stage::RefreshedDomain,
            Reply::Probed(again),
            Stage::Direct,
        ),
        goes_on_to(t, Stage::RefreshedDomain, Reply::BuildFailed(reason), Stage::Direct),
{
}

/// Whether a domain address that answers at a stage connects the cluster by it.
pub open spec fn connects_by_domain(t: Target, stage: Stage) -> bool {
    advanced(t, stage, Reply::Probed(ProbeResult::Reachable)).step matches StepModel::Finish(
        OutcomeModel::Connected { path, endpoint, tunnel_pid },
    ) && path == t.kubeconfig_path@ && endpoint == opt_view(t.endpoint) && tunnel_pid is None
}

/// Every note of a discovery names its cluster.
pub proof fn law_notes_name_the_cluster(t: Target, stage: Stage, reply: Reply, i: int)
    requires
        stage_fits(t, stage),
        reply_fits(stage, reply),
        0 <= i < advanced(t, stage, reply).logs.len(),
    ensures
        has_substring(advanced(t, stage, reply).logs[i], t.name@),
{
    let note = advanced(t, stage, reply).logs[i];
    let n = t.name@.len() as int;
    let a = "Warning: Cannot reach "@.len() as int;
    let b = "Warning: Auto-tunnel failed for "@.len() as int;
    let c = "Auto-tunnel: "@.len() as int;
    if note.len() >= n && note.subrange(0, n) =~= t.name@ {
        assert(occurs_at(note, t.name@, 0));
    } else if note.len() >= a + n && note.subrange(a, a + n) =~= t.name@ {
        assert(occurs_at(note, t.name@, a));
    } else if note.len() >= b + n && note.subrange(b, b + n) =~= t.name@ {
        assert(occurs_at(note, t.name@, b));
    } else {
        assert(note.subrange(c, c + n) =~= t.name@);
        assert(occurs_at(note, t.name@, c));
    }
}

/// Trouble with names counts as such, trouble with certificates as such, and any
/// other as trouble in connecting.
pub proof fn law_trouble_is_told_apart(reason: Seq<char>)
    ensures
        has_substring(reason, "dns"@) || has_substring(reason, "resolve"@) ==> trouble(reason)
            == "DNS"@,
        !has_substring(reason, "dns"@) && !has_substring(reason, "resolve"@) && (has_substring(
            reason,
            "certificate"@,
        ) || has_substring(reason, "tls"@) || has_substring(reason, "ssl"@)) ==> trouble(reason)
            == "TLS"@,
        !has_substring(reason, "dns"@) && !has_substring(reason, "resolve"@) && !has_substring(
            reason,
            "certificate"@,
        ) && !has_substring(reason, "tls"@) && !has_substring(reason, "ssl"@) ==> trouble(reason)
            == "connect"@,
{
}

// ---------------------------------------------------------------------------
// What files say
// ---------------------------------------------------------------------------

/// The address of a kubeconfig is that of its first line with one: lines before it
/// that give none do not count, and lines behind it do not either.
pub proof fn law_first_server_line_counts(
    before: Seq<Seq<char>>,
    line: Seq<char>,
    behind: Seq<Seq<char>>,
)
    requires
        forall|i: int|
            0 <= i < before.len() ==> !has_prefix(trimmed(#[trigger] before[i]), "server:"@),
        has_prefix(trimmed(line), "server:"@),
    ensures
        server_of_lines(before + seq![line] + behind) == server_of_line(trimmed(line)),
        server_of_lines(before) is None,
    decreases before.len(),
{
    let all = before + seq![line] + behind;
    if before.len() > 0 {
        assert(all[0] == before[0]);
        assert(all.drop_first() =~= before.drop_first() + seq![line] + behind);
        assert forall|i: int| 0 <= i < before.drop_first().len() implies !has_prefix(
            trimmed(#[trigger] before.drop_first()[i]),
            "server:"@,
        ) by {
            assert(before.drop_first()[i] == before[i + 1]);
        }
        law_first_server_line_counts(before.drop_first(), line, behind);
    } else {
        assert(all[0] == line);
    }
}

/// An address is an `https` URL: the host up to the first colon, and behind it the
/// port; 6443 where none can be read.
pub proof fn law_address_is_host_and_port(line: Seq<char>)
    ensures
        server_of_line(line) matches Some((url, host, port)) ==> {
            &&& has_prefix(url, "https://"@)
            &&& !host.contains(':')
            &&& url == "https://"@ + host ==> port == 6443
            &&& url != "https://"@ + host ==> {
                let rest = url.skip(8 + host.len() as int);
                &&& url == "https://"@ + host + rest
                &&& rest.len() > 0 && rest[0] == ':'
                &&& port == match parsed_u16(rest.skip(1)) {
                    Some(p) => p,
                    None => 6443,
                }
            }
        },
{
    reveal_strlit("https://");
    if let Some((url, host, port)) = server_of_line(line) {
        let scheme = "https://"@;
        assert(scheme.len() == 8);
        let rest = url.skip(8);
        assert(url.subrange(0, 8) == scheme);
        assert(url =~= scheme + rest);
        lemma_char_index_bound(rest, ':');
        let n = char_index(rest, ':');
        assert forall|i: int| 0 <= i < host.len() implies host[i] != ':' by {}
        if n < rest.len() {
            let tail = url.skip(8 + host.len() as int);
            assert(tail =~= rest.skip(n));
            assert(tail.skip(1) =~= rest.skip(n + 1));
            assert(url =~= scheme + host + tail);
            assert(url.len() > (scheme + host).len());
        } else {
            assert(host =~= rest);
        }
    }
}

/// The bastion is the first node of the inventory that has a name: lines before it
/// that name none, and all lines behind it, do not count.
pub proof fn law_first_named_node_is_the_bastion(
    before: Seq<Seq<char>>,
    line: Seq<char>,
    behind: Seq<Seq<char>>,
)
    requires
        forall|i: int|
            0 <= i < before.len() ==> !(is_name_line(#[trigger] before[i]) && name_of_line(
                trimmed(before[i]),
            ).len() > 0),
        has_prefix(trimmed(line), "- name:"@) || has_prefix(trimmed(line), "name:"@),
        name_of_line(trimmed(line)).len() > 0,
    ensures
        bastion_of_lines(before + seq![line] + behind) == Some(name_of_line(trimmed(line))),
        bastion_of_lines(before) is None,
    decreases before.len(),
{
    let all = before + seq![line] + behind;
    if before.len() > 0 {
        assert(all[0] == before[0]);
        assert(all.drop_first() =~= before.drop_first() + seq![line] + behind);
        assert forall|i: int| 0 <= i < before.drop_first().len() implies !(is_name_line(
            #[trigger] before.drop_first()[i],
        ) && name_of_line(trimmed(before.drop_first()[i])).len() > 0) by {
            assert(before.drop_first()[i] == before[i + 1]);
        }
        law_first_named_node_is_the_bastion(before.drop_first(), line, behind);
    } else {
        assert(all[0] == line);
    }
}

/// A name is what stands between the first colon and the next, without blanks and
/// quotes around it: it does not begin or end with a quote.
pub proof fn law_name_has_no_quotes(line: Seq<char>)
    ensures
        ({
            let name = name_of_line(line);
            name.len() > 0 ==> name[0] != '\'' && name.last() != '\''
        }),
{
    let rest = line.skip(char_index(line, ':') + 1);
    lemma_stripped(stripped(trimmed(rest.take(char_index(rest, ':'))), '"'), '\'');
}

/// Nothing that is stripped is left at either end.
proof fn lemma_stripped(s: Seq<char>, c: char)
    ensures
        stripped(s, c).len() > 0 ==> stripped(s, c)[0] != c && stripped(s, c).last() != c,
{
    lemma_strip_start(s, c);
    lemma_strip_end(crate::scan::strip_start(s, c), c);
}

proof fn lemma_strip_start(s: Seq<char>, c: char)
    ensures
        crate::scan::strip_start(s, c).len() > 0 ==> crate::scan::strip_start(s, c)[0] != c,
    decreases s.len(),
{
    if s.len() > 0 && s[0] == c {
        lemma_strip_start(s.drop_first(), c);
    }
}

proof fn lemma_strip_end(s: Seq<char>, c: char)
    ensures
        crate::scan::strip_end(s, c).len() > 0 ==> crate::scan::strip_end(s, c).last() != c
            && crate::scan::strip_end(s, c)[0] == s[0],
    decreases s.len(),
{
    if s.len() > 0 && s.last() == c {
        lemma_strip_end(s.drop_last(), c);
    }
}

/// The domain address of a cluster is that of an entry of its name, and no later
/// entry of its name has one; there is none exactly if no entry of its name has one.
pub proof fn law_last_endpoint_counts(defs: Seq<ClusterDef>, name: Seq<char>)
    ensures
        match configured_endpoint(defs, name) {
            Some(ep) => exists|i: int|
                0 <= i < defs.len() && (#[trigger] defs[i]).cluster_name@ == name
                    && defs[i].api_endpoint is Some && defs[i].api_endpoint->0@ == ep && forall|
                    j: int,
                |
                    i < j < defs.len() ==> (#[trigger] defs[j]).cluster_name@ != name
                        || defs[j].api_endpoint is None,
            None => forall|i: int|
                0 <= i < defs.len() ==> (#[trigger] defs[i]).cluster_name@ != name
                    || defs[i].api_endpoint is None,
        },
    decreases defs.len(),
{
    if defs.len() > 0 {
        let rest = defs.drop_last();
        law_last_endpoint_counts(rest, name);
        let n = defs.len() - 1;
        assert(defs.last() == defs[n]);
        assert forall|i: int| 0 <= i < n implies #[trigger] rest[i] == defs[i] by {}
        if defs[n].cluster_name@ == name && defs[n].api_endpoint is Some {
            assert(defs[n].api_endpoint->0@ == configured_endpoint(defs, name)->0);
        } else if configured_endpoint(rest, name) is Some {
            let ep = configured_endpoint(rest, name)->0;
            let i = choose|i: int|
                0 <= i < rest.len() && (#[trigger] rest[i]).cluster_name@ == name
                    && rest[i].api_endpoint is Some && rest[i].api_endpoint->0@ == ep && forall|
                    j: int,
                |
                    i < j < rest.len() ==> (#[trigger] rest[j]).cluster_name@ != name
                        || rest[j].api_endpoint is None;
            assert(defs[i].cluster_name@ == name);
            assert forall|j: int| i < j < defs.len() implies (#[trigger] defs[j]).cluster_name@
                != name || defs[j].api_endpoint is None by {
                if j < n {
                    assert(rest[j] == defs[j]);
                }
            }
        } else {
            assert forall|i: int| 0 <= i < defs.len() implies (#[trigger] defs[i]).cluster_name@
                != name || defs[i].api_endpoint is None by {
                if i < n {
                    assert(rest[i] == defs[i]);
                }
            }
        }
    }
}

/// The control plane of a cluster is the first machine whose name begins with the
/// cluster's and `-cp`: here, behind machines with other names, in the first pool.
pub proof fn law_control_plane_is_found(
    pools: Seq<Json>,
    nodes: Seq<Json>,
    cluster: Seq<char>,
    i: int,
)
    requires
        pools.len() > 0,
        member_items(pools[0], "nodes"@) == Some(nodes),
        0 <= i < nodes.len(),
        forall|j: int|
            0 <= j < i ==> member_text(#[trigger] nodes[j], "node_name"@) is Some && !has_prefix(
                member_text(nodes[j], "node_name"@)->0,
                cluster + "-cp"@,
            ),
        member_text(nodes[i], "node_name"@) is Some,
        has_prefix(member_text(nodes[i], "node_name"@)->0, cluster + "-cp"@),
    ensures
        control_plane_ip(pools, cluster) == member_text(nodes[i], "ip"@),
{
    lemma_machine_found(nodes, cluster + "-cp"@, i);
}

proof fn lemma_machine_found(nodes: Seq<Json>, prefix: Seq<char>, i: int)
    requires
        0 <= i < nodes.len(),
        forall|j: int|
            0 <= j < i ==> member_text(#[trigger] nodes[j], "node_name"@) is Some && !has_prefix(
                member_text(nodes[j], "node_name"@)->0,
                prefix,
            ),
        member_text(nodes[i], "node_name"@) is Some,
        has_prefix(member_text(nodes[i], "node_name"@)->0, prefix),
    ensures
        crate::kube_client::first_decision(nodes, crate::kube_client::machine_decision(prefix))
            == Some(member_text(nodes[i], "ip"@)),
    decreases i,
{
    if i > 0 {
        let rest = nodes.drop_first();
        assert forall|j: int| 0 <= j < i - 1 implies member_text(
            #[trigger] rest[j],
            "node_name"@,
        ) is Some && !has_prefix(member_text(rest[j], "node_name"@)->0, prefix) by {
            assert(rest[j] == nodes[j + 1]);
        }
        assert(rest[i - 1] == nodes[i]);
        lemma_machine_found(rest, prefix, i - 1);
        assert(member_text(nodes[0], "node_name"@) is Some);
    }
}

// ---------------------------------------------------------------------------
// Replacing
// ---------------------------------------------------------------------------

/// Where a text stands once, replacing puts the other in its place and leaves what
/// is around it.
pub proof fn law_replace_puts_the_other_in_place(
    before: Seq<char>,
    from: Seq<char>,
    behind: Seq<char>,
    to: Seq<char>,
)
    requires
        from.len() > 0,
        forall|i: int|
            0 <= i < before.len() ==> !#[trigger] occurs_at(before + from + behind, from, i),
        !has_substring(behind, from),
    ensures
        replaced(before + from + behind, from, to) == before + to + behind,
    decreases before.len(),
{
    let all = before + from + behind;
    if before.len() == 0 {
        assert(all.subrange(0, from.len() as int) =~= from);
        assert(occurs_at(all, from, 0));
        assert(all.skip(from.len() as int) =~= behind);
        crate::scan::law_replace_absent(behind, from, to);
        assert(before + to + behind =~= to + behind);
    } else {
        assert(!occurs_at(all, from, 0));
        let rest = before.drop_first();
        let tail = rest + from + behind;
        assert(all.drop_first() =~= tail);
        assert forall|i: int| 0 <= i < rest.len() implies !#[trigger] occurs_at(tail, from, i) by {
            if occurs_at(tail, from, i) {
                assert(all.subrange(i + 1, i + 1 + from.len()) =~= tail.subrange(
                    i,
                    i + from.len(),
                ));
                assert(occurs_at(all, from, i + 1));
            }
        }
        law_replace_puts_the_other_in_place(rest, from, behind, to);
        assert(before + to + behind =~= seq![all[0]] + (rest + to + behind));
    }
}

/// What is noted of the ways: headless mode gives the address of the domain and the
/// reason of a failure, the dashboard says only how the cluster was reached.
pub proof fn law_notes_by_mode(t: Target, error: String, pid: u32, content: Option<String>)
    requires
        t.endpoint is Some,
        t.bastion is Some,
    ensures
        ({
            let reached = Reply::Probed(ProbeResult::Reachable);
            let domain = advanced(t, Stage::Domain, reached).logs;
            let again = advanced(t, Stage::RefreshedDomain, reached).logs;
            let provision = advanced(
                t,
                Stage::ProvisionToken,
                Reply::TokenFailed(error),
            ).logs;
            let original = advanced(
                t,
                Stage::Original,
                Reply::Tried { connected: true, content },
            ).logs;
            let tunnel = advanced(t, Stage::Tunnel, Reply::TunnelUp(pid)).logs;
            let no_tunnel = advanced(t, Stage::Tunnel, Reply::TunnelFailed(error)).logs;
            let failed = advanced(t, Stage::Domain, Reply::Probed(ProbeResult::Failed)).logs;
            let broken = advanced(t, Stage::Domain, Reply::BuildFailed(error)).logs;
            let unread = advanced(t, Stage::ReadToken, Reply::Token(None)).logs;
            let ep = t.endpoint->0@;
            if t.mode == DiscoverMode::Blocking {
                &&& domain == seq![t.name@ + ": connected via domain ("@ + ep + ")"@]
                &&& again == seq![t.name@ + ": reconnected after token refresh ("@ + ep + ")"@]
                &&& provision == seq![t.name@ + ": SA provision failed: "@ + error@]
                &&& original.len() == 0
                &&& tunnel.len() == 1 && no_tunnel.len() == 1
                &&& failed == seq![t.name@ + ": domain probe failed ("@ + ep + ")"@]
                &&& broken == seq![
                    t.name@ + ": domain client build failed ("@ + ep + "): "@ + error@,
                ]
                &&& unread == seq![t.name@ + ": provisioning dash SA..."@]
            } else {
                &&& domain == seq![t.name@ + ": connected via domain"@]
                &&& again == seq![t.name@ + ": reconnected after token refresh"@]
                &&& provision.len() == 0
                &&& original.len() == 1
                &&& no_tunnel.len() == 0
                &&& tunnel.len() == 1 <==> t.mode == DiscoverMode::Streaming
                &&& failed == seq![t.name@ + ": domain probe timed out ("@ + ep + ")"@]
                &&& broken == seq![
                    t.name@ + ": domain probe failed ("@ + trouble(error@) + ": "@ + ep + ")"@,
                ]
                &&& unread.len() == 0
            }
        }),
{
}

/// Access over the domain goes by the token alone, and trusts whom the system trusts.
pub proof fn law_domain_access_by_token(trust: Trust, c: Credentials, token: Seq<char>)
    ensures
        trusts_system(trust) <==> trust.certificate_authority is None
            && trust.certificate_authority_data is None,
        speaks_by_token(c, token) ==> (c.token matches Some(s) && s@ == token)
            && c.client_certificate is None && c.client_certificate_data is None
            && c.client_key is None && c.client_key_data is None,
{
}

/// The news of a cluster is that it is connected or could not be reached, under its
/// name; a note, or the end of all discovery, is none.
pub proof fn law_news_bears_the_name(event: DiscoverEvent, cluster: Seq<char>)
    ensures
        event matches DiscoverEvent::Connected(c) ==> (is_news_of(event, cluster) <==> c.name@
            == cluster),
        event matches DiscoverEvent::Failed { name, .. } ==> (is_news_of(event, cluster)
            <==> name@ == cluster),
        event is Complete || event is Log ==> !is_news_of(event, cluster),
{
}

} // verus!
