//! Cluster discovery: which way to a cluster is tried next, and what comes of it.
use vstd::prelude::*;
use crate::json::{member_items, member_text, parse_json, parsed_json, Json};
use crate::list::{collect, lemma_collect_step, lemma_take_all};
use crate::scan::{
    char_index, cut_at, drop_prefix, find_second_word, lemma_char_index_bound, lines, parse_u16,
    parsed_u16, replace, replaced, second_word, split_lines, strip, stripped,
};
use crate::sort::{key_less, stable_sort, stably_sorted, text_key, text_precedes, SortKey};
use crate::text::{
    contains, decimal, decimal_u64, has_prefix, has_substring, lemma_texts_push, same, starts_with,
    texts, trim, trimmed,
};

verus! {

broadcast use {lemma_take_all, lemma_texts_push};

/// A cluster that answers.
#[derive(Debug)]
pub struct ClusterClient {
    pub name: String,
    pub kubeconfig_path: String,
    /// The process of the tunnel through which the cluster is reached.
    pub tunnel_pid: Option<u32>,
    /// The version of the cluster's API server.
    pub server_version: Option<String>,
    /// The address that answered.
    pub endpoint: Option<String>,
}

/// News from the discovery of clusters.
#[derive(Debug)]
pub enum DiscoverEvent {
    /// A cluster answers.
    Connected(ClusterClient),
    /// A cluster cannot be reached.
    Failed { name: String, error: String },
    /// All clusters have been tried.
    Complete,
    /// Something worth noting.
    Log { message: String },
}

impl SortKey for ClusterClient {
    /// Clusters are sorted by name.
    open spec fn sort_key(&self) -> Seq<int> {
        text_key(self.name@)
    }

    fn precedes(&self, other: &Self) -> (r: bool) {
        text_precedes(self.name.as_str(), other.name.as_str())
    }
}

/// Sorts clusters by name.
pub fn sort_clusters(clusters: &mut Vec<ClusterClient>)
    ensures
        stably_sorted(old(clusters)@, final(clusters)@),
{
    stable_sort(clusters)
}

// ---------------------------------------------------------------------------
// What is tried, and what comes back
// ---------------------------------------------------------------------------

/// On whose behalf clusters are discovered.
#[derive(Debug, Clone, Copy, PartialEq, Eq, Structural)]
pub enum DiscoverMode {
    /// The dashboard at its start: one piece of news per cluster.
    Streaming,
    /// The dashboard trying clusters again that failed.
    Retry,
    /// Headless mode, which waits for all clusters.
    Blocking,
}

/// How a cluster answered a probe.
#[derive(Debug, Clone, Copy, PartialEq, Eq, Structural)]
pub enum ProbeResult {
    /// The cluster answers.
    Reachable,
    /// The cluster refuses the token.
    Unauthorized,
    /// The cluster does not answer in time, or otherwise fails.
    Failed,
}

/// What came of asking a cluster for one of its namespaces.
#[derive(Debug, Clone, Copy, PartialEq, Eq, Structural)]
pub enum ProbeAnswer {
    /// The cluster gave the list.
    Listed,
    /// The cluster's API answered with an error of this status code.
    Refused(u16),
    /// There was no answer of the API, or none in time.
    Silent,
}

/// Says how a cluster answered a probe: an error of status 401 means that it
/// refuses the token.
pub fn probe_client_auth(answer: ProbeAnswer) -> (r: ProbeResult)
    ensures
        r == (match answer {
            ProbeAnswer::Listed => ProbeResult::Reachable,
            ProbeAnswer::Refused(code) => if code == 401 {
                ProbeResult::Unauthorized
            } else {
                ProbeResult::Failed
            },
            ProbeAnswer::Silent => ProbeResult::Failed,
        }),
{
    match answer {
        ProbeAnswer::Listed => ProbeResult::Reachable,
        ProbeAnswer::Refused(code) => if code == 401 {
            ProbeResult::Unauthorized
        } else {
            ProbeResult::Failed
        },
        ProbeAnswer::Silent => ProbeResult::Failed,
    }
}

/// A cluster to be discovered.
#[derive(Debug)]
pub struct Target {
    pub mode: DiscoverMode,
    pub name: String,
    pub kubeconfig_path: String,
    /// The kubeconfig as it was before its address was rewritten.
    pub original_path: String,
    /// The cluster's domain address, where one is configured.
    pub endpoint: Option<String>,
    /// The host through which tunnels are made, where one is known.
    pub bastion: Option<String>,
    /// The local port that a tunnel would use.
    pub local_port: u32,
}

/// What is to be done next for a cluster.
#[derive(Debug, Clone, Copy, PartialEq, Eq, Structural)]
pub enum Stage {
    /// Read the token that is kept for the cluster.
    ReadToken,
    /// Provision a token through the bastion and keep it.
    ProvisionToken,
    /// Connect to the domain address with the token, and probe it.
    Domain,
    /// Forget the token that is kept.
    InvalidateToken,
    /// Provision another token through the bastion and keep it.
    RefreshToken,
    /// Connect to the domain address with the new token, and probe it.
    RefreshedDomain,
    /// Connect to the address of the kubeconfig, and probe it.
    Direct,
    /// Connect to the address of the original kubeconfig, if it is there, and probe it.
    Original,
    /// Set up a tunnel through the bastion, and probe the cluster through it.
    Tunnel,
}

/// What came of a stage.
#[derive(Debug)]
pub enum Reply {
    /// The token that was read or provisioned.
    Token(Option<String>),
    /// No token could be provisioned.
    TokenFailed(String),
    /// No client could be made for the domain address.
    BuildFailed(String),
    /// The domain address was probed.
    Probed(ProbeResult),
    /// The token was forgotten.
    Forgotten,
    /// An address of a kubeconfig was probed; the kubeconfig's content is given
    /// where it could be read.
    Tried { connected: bool, content: Option<String> },
    /// The tunnel stands, with this process.
    TunnelUp(u32),
    /// The tunnel could not be set up.
    TunnelFailed(String),
}

/// How the discovery of a cluster ended.
#[derive(Debug)]
pub enum Outcome {
    Connected { path: String, endpoint: Option<String>, tunnel_pid: Option<u32> },
    Failed { error: String },
}

/// Where the discovery of a cluster goes on, or how it ended.
#[derive(Debug)]
pub enum Step {
    Next { stage: Stage, token: Option<String> },
    Finish(Outcome),
}

/// What is to be noted after a stage, and how it goes on.
#[derive(Debug)]
pub struct Advance {
    pub logs: Vec<String>,
    pub step: Step,
}

// ---------------------------------------------------------------------------
// Model
// ---------------------------------------------------------------------------

/// A text that may be missing, as a value.
pub open spec fn opt_view(t: Option<String>) -> Option<Seq<char>> {
    match t {
        Some(s) => Some(s@),
        None => None,
    }
}

/// How discovery ended, as a value.
#[verifier::ext_equal]
pub enum OutcomeModel {
    Connected { path: Seq<char>, endpoint: Option<Seq<char>>, tunnel_pid: Option<u32> },
    Failed { error: Seq<char> },
}

/// How discovery goes on, as a value.
#[verifier::ext_equal]
pub enum StepModel {
    Next { stage: Stage, token: Option<Seq<char>> },
    Finish(OutcomeModel),
}

/// What is to be noted, and how discovery goes on, as a value.
#[verifier::ext_equal]
pub struct AdvanceModel {
    pub logs: Seq<Seq<char>>,
    pub step: StepModel,
}

impl View for Outcome {
    type V = OutcomeModel;

    open spec fn view(&self) -> OutcomeModel {
        match *self {
            Outcome::Connected { path, endpoint, tunnel_pid } => OutcomeModel::Connected {
                path: path@,
                endpoint: opt_view(endpoint),
                tunnel_pid,
            },
            Outcome::Failed { error } => OutcomeModel::Failed { error: error@ },
        }
    }
}

impl View for Step {
    type V = StepModel;

    open spec fn view(&self) -> StepModel {
        match *self {
            Step::Next { stage, token } => StepModel::Next { stage, token: opt_view(token) },
            Step::Finish(outcome) => StepModel::Finish(outcome@),
        }
    }
}

impl View for Advance {
    type V = AdvanceModel;

    open spec fn view(&self) -> AdvanceModel {
        AdvanceModel { logs: texts(self.logs@), step: self.step@ }
    }
}

/// Whether a stage makes sense for a cluster: the domain stages need a domain
/// address, the stages that go through the bastion need one.
pub open spec fn stage_fits(t: Target, stage: Stage) -> bool {
    match stage {
        Stage::ReadToken | Stage::Domain | Stage::InvalidateToken => t.endpoint is Some,
        Stage::ProvisionToken | Stage::RefreshToken => t.endpoint is Some && t.bastion is Some,
        Stage::RefreshedDomain => t.endpoint is Some && t.bastion is Some,
        Stage::Direct | Stage::Original => true,
        Stage::Tunnel => t.bastion is Some,
    }
}

/// Whether a reply can come of a stage.
pub open spec fn reply_fits(stage: Stage, reply: Reply) -> bool {
    match stage {
        Stage::ReadToken => reply is Token,
        Stage::ProvisionToken | Stage::RefreshToken => (reply is Token && reply->Token_0 is Some)
            || reply is TokenFailed,
        Stage::Domain | Stage::RefreshedDomain => reply is BuildFailed || reply is Probed,
        Stage::InvalidateToken => reply is Forgotten,
        Stage::Direct | Stage::Original => reply is Tried,
        Stage::Tunnel => reply is TunnelUp || reply is TunnelFailed,
    }
}

// ---------------------------------------------------------------------------
// Addresses in kubeconfigs
// ---------------------------------------------------------------------------

/// The address that a line of a kubeconfig gives: the URL, the host and the
/// port, which is 6443 where none can be read.
pub open spec fn server_of_line(line: Seq<char>) -> Option<(Seq<char>, Seq<char>, int)> {
    match second_word(line) {
        None => None,
        Some(word) => {
            let url = stripped(word, '"');
            if !has_prefix(url, "https://"@) {
                None
            } else {
                let rest = url.skip("https://"@.len() as int);
                let n = char_index(rest, ':');
                let port = if n < rest.len() {
                    parsed_u16(rest.skip(n + 1))
                } else {
                    None
                };
                Some(
                    (
                        url,
                        rest.take(n),
                        match port {
                            Some(p) => p,
                            None => 6443,
                        },
                    ),
                )
            }
        },
    }
}

/// Whether a line of a kubeconfig gives an address.
pub open spec fn is_server_line(line: Seq<char>) -> bool {
    has_prefix(trimmed(line), "server:"@)
}

/// The address of the first line that gives one.
pub open spec fn server_of_lines(ls: Seq<Seq<char>>) -> Option<(Seq<char>, Seq<char>, int)>
    decreases ls.len(),
{
    if ls.len() == 0 {
        None
    } else if is_server_line(ls[0]) {
        server_of_line(trimmed(ls[0]))
    } else {
        server_of_lines(ls.drop_first())
    }
}

/// The address of a kubeconfig.
pub open spec fn server_url(content: Seq<char>) -> Option<(Seq<char>, Seq<char>, int)> {
    server_of_lines(lines(content))
}

/// An address as a value.
pub open spec fn server_view(found: Option<(String, String, u16)>) -> Option<
    (Seq<char>, Seq<char>, int),
> {
    match found {
        Some(f) => Some((f.0@, f.1@, f.2 as int)),
        None => None,
    }
}

/// The URL of an address that was found.
pub open spec fn url_in(found: Option<(Seq<char>, Seq<char>, int)>) -> Seq<char> {
    match found {
        Some(f) => f.0,
        None => Seq::empty(),
    }
}

/// The address that a line of a kubeconfig gives.
fn parse_server_line(line: &str) -> (r: Option<(String, String, u16)>)
    ensures
        server_view(r) == server_of_line(line@),
{
    match find_second_word(line) {
        None => None,
        Some(word) => {
            let url = strip(word.as_str(), '"');
            match drop_prefix(url.as_str(), "https://") {
                None => None,
                Some(rest) => {
                    let (host, tail) = cut_at(rest.as_str(), ':');
                    let port: u16 = match tail {
                        Some(p) => match parse_u16(p.as_str()) {
                            Some(n) => n,
                            None => 6443,
                        },
                        None => 6443,
                    };
                    Some((url, host, port))
                },
            }
        },
    }
}

/// Extracts the address of a kubeconfig: the URL, the host and the port.
pub fn extract_server_url(content: &str) -> (r: Option<(String, String, u16)>)
    ensures
        server_view(r) == server_url(content@),
{
    let ls = split_lines(content);
    let ghost all = texts(ls@);
    let mut i: usize = 0;
    proof {
        assert(all.skip(0) =~= all);
    }
    while i < ls.len()
        invariant
            i <= ls@.len(),
            all == texts(ls@),
            all == lines(content@),
            server_of_lines(all.skip(i as int)) == server_of_lines(all),
        decreases ls@.len() - i,
    {
        let line = trim(ls[i].as_str());
        proof {
            assert(all.skip(i as int)[0] == ls@[i as int]@);
            assert(all.skip(i as int).drop_first() =~= all.skip(i + 1));
        }
        if starts_with(line.as_str(), "server:") {
            return parse_server_line(line.as_str());
        }
        i += 1;
    }
    None
}

/// The URL of a kubeconfig whose content could be read.
pub open spec fn url_of(content: Option<String>) -> Option<Seq<char>> {
    match content {
        Some(c) => match server_url(c@) {
            Some(found) => Some(found.0),
            None => None,
        },
        None => None,
    }
}

fn find_url(content: &Option<String>) -> (r: Option<String>)
    ensures
        opt_view(r) == url_of(*content),
{
    match content {
        Some(c) => match extract_server_url(c.as_str()) {
            Some(found) => Some(found.0),
            None => None,
        },
        None => None,
    }
}

/// The kubeconfig with its address replaced; nothing where it gives none.
pub fn override_endpoint(content: &str, endpoint: &str) -> (r: Option<String>)
    ensures
        r is Some == server_url(content@) is Some,
        r is Some ==> r->0@ == replaced(content@, url_in(server_url(content@)), endpoint@),
{
    match extract_server_url(content) {
        Some(found) => {
            proof {
                lemma_url_not_empty(lines(content@));
            }
            Some(replace(content, found.0.as_str(), endpoint))
        },
        None => None,
    }
}

proof fn lemma_url_not_empty(ls: Seq<Seq<char>>)
    requires
        server_of_lines(ls) is Some,
    ensures
        url_in(server_of_lines(ls)).len() > 0,
    decreases ls.len(),
{
    if is_server_line(ls[0]) {
        reveal_strlit("https://");
        assert("https://"@.len() == 8);
    } else {
        lemma_url_not_empty(ls.drop_first());
    }
}

// ---------------------------------------------------------------------------
// Access through the domain address
// ---------------------------------------------------------------------------

/// The authority by which a kubeconfig's cluster is recognised.
#[derive(Debug)]
pub struct Trust {
    pub certificate_authority: Option<String>,
    pub certificate_authority_data: Option<String>,
}

/// The credentials of a kubeconfig's user.
#[derive(Debug)]
pub struct Credentials {
    pub token: Option<String>,
    pub client_certificate: Option<String>,
    pub client_certificate_data: Option<String>,
    pub client_key: Option<String>,
    pub client_key_data: Option<String>,
}

/// Whom a kubeconfig trusts and as whom it speaks, for each of its clusters and
/// users that has an entry.
#[derive(Debug)]
pub struct Access {
    pub clusters: Vec<Option<Trust>>,
    pub users: Vec<Option<Credentials>>,
}

/// Whether no authority is named.
pub open spec fn trusts_system(t: Trust) -> bool {
    t.certificate_authority is None && t.certificate_authority_data is None
}

/// Whether a token is the only credential.
pub open spec fn speaks_by_token(c: Credentials, token: Seq<char>) -> bool {
    &&& opt_view(c.token) == Some(token)
    &&& c.client_certificate is None
    &&& c.client_certificate_data is None
    &&& c.client_key is None
    &&& c.client_key_data is None
}

/// Prepares the access through a domain address. The address answers with the
/// certificate of a public authority, so no cluster keeps an authority of its own.
/// It passes no client certificates on, so a token, where there is one, takes the
/// place of every user's credentials.
pub fn domain_access(access: &mut Access, token: Option<&str>)
    ensures
        final(access).clusters@.len() == old(access).clusters@.len(),
        final(access).users@.len() == old(access).users@.len(),
        forall|i: int|
            0 <= i < old(access).clusters@.len() ==> match #[trigger] final(access).clusters@[i] {
                Some(t) => old(access).clusters@[i] is Some && trusts_system(t),
                None => old(access).clusters@[i] is None,
            },
        forall|i: int|
            0 <= i < old(access).users@.len() ==> match (#[trigger] final(access).users@[i], token) {
                (Some(c), Some(t)) => old(access).users@[i] is Some && speaks_by_token(c, t@),
                (_, None) => final(access).users@[i] == old(access).users@[i],
                (None, _) => old(access).users@[i] is None,
            },
{
    let ghost clusters = access.clusters@;
    let ghost users = access.users@;
    let mut i: usize = 0;
    while i < access.clusters.len()
        invariant
            i <= access.clusters@.len(),
            access.clusters@.len() == clusters.len(),
            access.users@ == users,
            forall|k: int| i <= k < clusters.len() ==> access.clusters@[k] == clusters[k],
            forall|k: int|
                0 <= k < i ==> match #[trigger] access.clusters@[k] {
                    Some(t) => clusters[k] is Some && trusts_system(t),
                    None => clusters[k] is None,
                },
        decreases access.clusters@.len() - i,
    {
        if access.clusters[i].is_some() {
            let none = Trust { certificate_authority: None, certificate_authority_data: None };
            access.clusters.set(i, Some(none));
        }
        i += 1;
    }
    if let Some(t) = token {
        let mut j: usize = 0;
        while j < access.users.len()
            invariant
                j <= access.users@.len(),
                access.users@.len() == users.len(),
                access.clusters@.len() == clusters.len(),
                token == Some(t),
                forall|k: int|
                    0 <= k < clusters.len() ==> match #[trigger] access.clusters@[k] {
                        Some(t) => clusters[k] is Some && trusts_system(t),
                        None => clusters[k] is None,
                    },
                forall|k: int| j <= k < users.len() ==> access.users@[k] == users[k],
                forall|k: int|
                    0 <= k < j ==> match #[trigger] access.users@[k] {
                        Some(c) => users[k] is Some && speaks_by_token(c, t@),
                        None => users[k] is None,
                    },
            decreases access.users@.len() - j,
        {
            if access.users[j].is_some() {
                let by_token = Credentials {
                    token: Some(t.to_owned()),
                    client_certificate: None,
                    client_certificate_data: None,
                    client_key: None,
                    client_key_data: None,
                };
                access.users.set(j, Some(by_token));
            }
            j += 1;
        }
    }
}

// ---------------------------------------------------------------------------
// The bastion
// ---------------------------------------------------------------------------

/// The name that a line gives: what stands behind its first colon and before
/// the next, without white space and quotes.
pub open spec fn name_of_line(line: Seq<char>) -> Seq<char> {
    let rest = line.skip(char_index(line, ':') + 1);
    stripped(stripped(trimmed(rest.take(char_index(rest, ':'))), '"'), '\'')
}

/// Whether a line names a node.
pub open spec fn is_name_line(line: Seq<char>) -> bool {
    has_prefix(trimmed(line), "- name:"@) || has_prefix(trimmed(line), "name:"@)
}

/// The first name among lines that is not empty.
pub open spec fn bastion_of_lines(ls: Seq<Seq<char>>) -> Option<Seq<char>>
    decreases ls.len(),
{
    if ls.len() == 0 {
        None
    } else if is_name_line(ls[0]) && name_of_line(trimmed(ls[0])).len() > 0 {
        Some(name_of_line(trimmed(ls[0])))
    } else {
        bastion_of_lines(ls.drop_first())
    }
}

/// Finds the bastion in the inventory of machines: the first node that has a
/// name.
pub fn resolve_bastion(content: &str) -> (r: Option<String>)
    ensures
        opt_view(r) == bastion_of_lines(lines(content@)),
{
    let ls = split_lines(content);
    let ghost all = texts(ls@);
    let mut i: usize = 0;
    proof {
        assert(all.skip(0) =~= all);
    }
    while i < ls.len()
        invariant
            i <= ls@.len(),
            all == texts(ls@),
            all == lines(content@),
            bastion_of_lines(all.skip(i as int)) == bastion_of_lines(all),
        decreases ls@.len() - i,
    {
        let line = trim(ls[i].as_str());
        proof {
            assert(all.skip(i as int)[0] == ls@[i as int]@);
            assert(all.skip(i as int).drop_first() =~= all.skip(i + 1));
        }
        if starts_with(line.as_str(), "- name:") || starts_with(line.as_str(), "name:") {
            let (_key, rest) = cut_at(line.as_str(), ':');
            proof {
                lemma_name_line_has_colon(line@);
            }
            if let Some(tail) = rest {
                let (value, _more) = cut_at(tail.as_str(), ':');
                let name = strip(strip(trim(value.as_str()).as_str(), '"').as_str(), '\'');
                if !name.as_str().is_empty() {
                    return Some(name);
                }
            }
        }
        i += 1;
    }
    None
}

proof fn lemma_name_line_has_colon(line: Seq<char>)
    requires
        has_prefix(line, "- name:"@) || has_prefix(line, "name:"@),
    ensures
        char_index(line, ':') < line.len(),
{
    lemma_char_index_bound(line, ':');
    reveal_strlit("- name:");
    reveal_strlit("name:");
    if has_prefix(line, "- name:"@) {
        assert(line.subrange(0, 7)[6] == ':');
        assert(line[6] == ':');
    } else {
        assert(line.subrange(0, 5)[4] == ':');
        assert(line[4] == ':');
    }
}

// ---------------------------------------------------------------------------
// The way to a cluster
// ---------------------------------------------------------------------------

/// What kind of trouble a reason names.
pub open spec fn trouble(reason: Seq<char>) -> Seq<char> {
    if has_substring(reason, "dns"@) || has_substring(reason, "resolve"@) {
        "DNS"@
    } else if has_substring(reason, "certificate"@) || has_substring(reason, "tls"@)
        || has_substring(reason, "ssl"@) {
        "TLS"@
    } else {
        "connect"@
    }
}

/// Says what kind of trouble a reason names.
pub fn error_category(reason: &str) -> (r: &'static str)
    ensures
        r@ == trouble(reason@),
{
    if contains(reason, "dns") || contains(reason, "resolve") {
        "DNS"
    } else if contains(reason, "certificate") || contains(reason, "tls") || contains(reason, "ssl") {
        "TLS"
    } else {
        "connect"
    }
}

/// A step to another stage.
pub open spec fn next(stage: Stage) -> StepModel {
    StepModel::Next { stage, token: None }
}

/// A step with notes.
pub open spec fn noting(logs: Seq<Seq<char>>, step: StepModel) -> AdvanceModel {
    AdvanceModel { logs, step }
}

/// The end with a connection over the domain address.
pub open spec fn over_domain(t: Target) -> StepModel {
    StepModel::Finish(
        OutcomeModel::Connected {
            path: t.kubeconfig_path@,
            endpoint: opt_view(t.endpoint),
            tunnel_pid: None,
        },
    )
}

/// After the token was read: without one it is provisioned where that is
/// possible, unless a failed cluster is tried again.
pub open spec fn after_read(t: Target, token: Option<Seq<char>>) -> AdvanceModel {
    if token is None && t.bastion is Some && t.mode != DiscoverMode::Retry {
        noting(
            if t.mode == DiscoverMode::Blocking {
                seq![t.name@ + ": provisioning dash SA..."@]
            } else {
                Seq::empty()
            },
            next(Stage::ProvisionToken),
        )
    } else {
        noting(Seq::empty(), StepModel::Next { stage: Stage::Domain, token })
    }
}

/// After a token was to be provisioned: the domain address is tried, with the
/// token or without.
pub open spec fn after_provision(t: Target, reply: Reply) -> AdvanceModel {
    match reply {
        Reply::TokenFailed(error) => noting(
            if t.mode == DiscoverMode::Blocking {
                seq![t.name@ + ": SA provision failed: "@ + error@]
            } else {
                Seq::empty()
            },
            next(Stage::Domain),
        ),
        Reply::Token(token) => noting(
            Seq::empty(),
            StepModel::Next { stage: Stage::Domain, token: opt_view(token) },
        ),
        _ => noting(Seq::empty(), next(Stage::Domain)),
    }
}

/// After the domain address was tried: a refused token is forgotten; other
/// trouble leads to the direct address.
pub open spec fn after_domain(t: Target, ep: Seq<char>, reply: Reply) -> AdvanceModel {
    let blocking = t.mode == DiscoverMode::Blocking;
    match reply {
        Reply::BuildFailed(reason) => noting(
            seq![
                if blocking {
                    t.name@ + ": domain client build failed ("@ + ep + "): "@ + reason@
                } else {
                    t.name@ + ": domain probe failed ("@ + trouble(reason@) + ": "@ + ep + ")"@
                },
            ],
            next(Stage::Direct),
        ),
        Reply::Probed(ProbeResult::Reachable) => noting(
            seq![
                if blocking {
                    t.name@ + ": connected via domain ("@ + ep + ")"@
                } else {
                    t.name@ + ": connected via domain"@
                },
            ],
            over_domain(t),
        ),
        Reply::Probed(ProbeResult::Unauthorized) => noting(
            seq![t.name@ + ": 401 — re-provisioning SA token"@],
            next(Stage::InvalidateToken),
        ),
        _ => noting(
            seq![
                if blocking {
                    t.name@ + ": domain probe failed ("@ + ep + ")"@
                } else {
                    t.name@ + ": domain probe timed out ("@ + ep + ")"@
                },
            ],
            next(Stage::Direct),
        ),
    }
}

/// The way back to the direct address after a token could not be replaced.
pub open spec fn refresh_failed(t: Target) -> AdvanceModel {
    noting(seq![t.name@ + ": token re-provision failed, falling back"@], next(Stage::Direct))
}

/// After the domain address was tried with a new token.
pub open spec fn after_refreshed(t: Target, ep: Seq<char>, reply: Reply) -> AdvanceModel {
    match reply {
        Reply::Probed(ProbeResult::Reachable) => noting(
            seq![
                if t.mode == DiscoverMode::Blocking {
                    t.name@ + ": reconnected after token refresh ("@ + ep + ")"@
                } else {
                    t.name@ + ": reconnected after token refresh"@
                },
            ],
            over_domain(t),
        ),
        _ => refresh_failed(t),
    }
}

/// After the direct address was tried.
pub open spec fn after_direct(t: Target, connected: bool, content: Option<String>) -> AdvanceModel {
    if connected {
        noting(
            Seq::empty(),
            StepModel::Finish(
                OutcomeModel::Connected {
                    path: t.kubeconfig_path@,
                    endpoint: url_of(content),
                    tunnel_pid: None,
                },
            ),
        )
    } else {
        noting(Seq::empty(), next(Stage::Original))
    }
}

/// After the original address was tried: what is left is a tunnel, where there
/// is a bastion.
pub open spec fn after_original(
    t: Target,
    connected: bool,
    content: Option<String>,
) -> AdvanceModel {
    if connected {
        noting(
            match t.mode {
                DiscoverMode::Streaming => seq![
                    t.name@ + ": connected via .original kubeconfig (VM IP)"@,
                ],
                DiscoverMode::Retry => seq![t.name@ + ": connected via .original kubeconfig"@],
                DiscoverMode::Blocking => Seq::empty(),
            },
            StepModel::Finish(
                OutcomeModel::Connected {
                    path: if t.mode == DiscoverMode::Blocking {
                        t.kubeconfig_path@
                    } else {
                        t.original_path@
                    },
                    endpoint: url_of(content),
                    tunnel_pid: None,
                },
            ),
        )
    } else if t.bastion is Some {
        noting(Seq::empty(), next(Stage::Tunnel))
    } else {
        noting(
            if t.mode == DiscoverMode::Blocking {
                seq![
                    "Warning: Cannot reach "@ + t.name@
                        + " and no bastion available for auto-tunnel"@,
                ]
            } else {
                Seq::empty()
            },
            StepModel::Finish(
                OutcomeModel::Failed { error: "No bastion available for auto-tunnel"@ },
            ),
        )
    }
}

/// After a tunnel was to be set up.
pub open spec fn after_tunnel(t: Target, bastion: Seq<char>, reply: Reply) -> AdvanceModel {
    match reply {
        Reply::TunnelUp(pid) => noting(
            match t.mode {
                DiscoverMode::Streaming => seq![
                    t.name@ + ": connected via SSH tunnel (localhost:"@ + decimal(
                        t.local_port as nat,
                    ) + ")"@,
                ],
                DiscoverMode::Retry => Seq::empty(),
                DiscoverMode::Blocking => seq![
                    "Auto-tunnel: "@ + t.name@ + " → localhost:"@ + decimal(t.local_port as nat)
                        + " via "@ + bastion,
                ],
            },
            StepModel::Finish(
                OutcomeModel::Connected {
                    path: t.kubeconfig_path@,
                    endpoint: Some("localhost:"@ + decimal(t.local_port as nat) + " (tunnel)"@),
                    tunnel_pid: Some(pid),
                },
            ),
        ),
        Reply::TunnelFailed(error) => noting(
            if t.mode == DiscoverMode::Blocking {
                seq!["Warning: Auto-tunnel failed for "@ + t.name@ + ": "@ + error@]
            } else {
                Seq::empty()
            },
            StepModel::Finish(OutcomeModel::Failed { error: error@ }),
        ),
        _ => noting(Seq::empty(), StepModel::Finish(OutcomeModel::Failed { error: Seq::empty() })),
    }
}

/// The first stage for a cluster: with a domain address that is tried first.
pub open spec fn first_stage(t: Target) -> Stage {
    if t.endpoint is Some {
        Stage::ReadToken
    } else {
        Stage::Direct
    }
}

/// How the discovery of a cluster goes on after a stage.
pub open spec fn advanced(t: Target, stage: Stage, reply: Reply) -> AdvanceModel {
    match stage {
        Stage::ReadToken => after_read(
            t,
            match reply {
                Reply::Token(token) => opt_view(token),
                _ => None,
            },
        ),
        Stage::ProvisionToken => after_provision(t, reply),
        Stage::Domain => after_domain(t, opt_view(t.endpoint)->0, reply),
        Stage::InvalidateToken => if t.bastion is Some {
            noting(Seq::empty(), next(Stage::RefreshToken))
        } else {
            refresh_failed(t)
        },
        Stage::RefreshToken => match reply {
            Reply::Token(token) => noting(
                Seq::empty(),
                StepModel::Next { stage: Stage::RefreshedDomain, token: opt_view(token) },
            ),
            _ => refresh_failed(t),
        },
        Stage::RefreshedDomain => after_refreshed(t, opt_view(t.endpoint)->0, reply),
        Stage::Direct => match reply {
            Reply::Tried { connected, content } => after_direct(t, connected, content),
            _ => after_direct(t, false, None),
        },
        Stage::Original => match reply {
            Reply::Tried { connected, content } => after_original(t, connected, content),
            _ => after_original(t, false, None),
        },
        Stage::Tunnel => after_tunnel(t, opt_view(t.bastion)->0, reply),
    }
}

// ---------------------------------------------------------------------------
// Going the way
// ---------------------------------------------------------------------------

/// No notes.
fn no_logs() -> (r: Vec<String>)
    ensures
        texts(r@) == Seq::<Seq<char>>::empty(),
{
    let r: Vec<String> = Vec::new();
    assert(texts(r@) =~= Seq::<Seq<char>>::empty());
    r
}

/// One note.
fn one_log(message: String) -> (r: Vec<String>)
    ensures
        texts(r@) == seq![message@],
{
    let mut r: Vec<String> = Vec::new();
    r.push(message);
    assert(texts(r@) =~= seq![message@]);
    r
}

/// Two texts one after the other.
fn concat2(a: &str, b: &str) -> (r: String)
    ensures
        r@ == a@ + b@,
{
    let mut s = a.to_owned();
    s.append(b);
    s
}

/// Three texts one after the other.
fn concat3(a: &str, b: &str, c: &str) -> (r: String)
    ensures
        r@ == a@ + b@ + c@,
{
    let mut s = a.to_owned();
    s.append(b);
    s.append(c);
    s
}

/// Four texts one after the other.
fn concat4(a: &str, b: &str, c: &str, d: &str) -> (r: String)
    ensures
        r@ == a@ + b@ + c@ + d@,
{
    let mut s = a.to_owned();
    s.append(b);
    s.append(c);
    s.append(d);
    s
}

/// A step to another stage without a token.
fn go(stage: Stage) -> (r: Step)
    ensures
        r@ == next(stage),
{
    Step::Next { stage, token: None }
}

fn finish_over_domain(t: &Target) -> (r: Step)
    ensures
        r@ == over_domain(*t),
{
    Step::Finish(
        Outcome::Connected {
            path: t.kubeconfig_path.clone(),
            endpoint: t.endpoint.clone(),
            tunnel_pid: None,
        },
    )
}

fn advance_read(t: &Target, token: Option<String>) -> (r: Advance)
    ensures
        r@ == after_read(*t, opt_view(token)),
{
    if token.is_none() && t.bastion.is_some() && t.mode != DiscoverMode::Retry {
        let logs = if t.mode == DiscoverMode::Blocking {
            one_log(concat2(t.name.as_str(), ": provisioning dash SA..."))
        } else {
            no_logs()
        };
        Advance { logs, step: go(Stage::ProvisionToken) }
    } else {
        Advance { logs: no_logs(), step: Step::Next { stage: Stage::Domain, token } }
    }
}

fn advance_provision(t: &Target, reply: Reply) -> (r: Advance)
    ensures
        r@ == after_provision(*t, reply),
{
    match reply {
        Reply::TokenFailed(error) => {
            let logs = if t.mode == DiscoverMode::Blocking {
                one_log(concat3(t.name.as_str(), ": SA provision failed: ", error.as_str()))
            } else {
                no_logs()
            };
            Advance { logs, step: go(Stage::Domain) }
        },
        Reply::Token(token) => Advance {
            logs: no_logs(),
            step: Step::Next { stage: Stage::Domain, token },
        },
        _ => Advance { logs: no_logs(), step: go(Stage::Domain) },
    }
}

fn advance_domain(t: &Target, ep: &str, reply: Reply) -> (r: Advance)
    ensures
        r@ == after_domain(*t, ep@, reply),
{
    let blocking = t.mode == DiscoverMode::Blocking;
    let name = t.name.as_str();
    match reply {
        Reply::BuildFailed(reason) => {
            let message = if blocking {
                let mut m = concat4(name, ": domain client build failed (", ep, "): ");
                m.append(reason.as_str());
                m
            } else {
                let mut m = concat4(
                    name,
                    ": domain probe failed (",
                    error_category(reason.as_str()),
                    ": ",
                );
                m.append(ep);
                m.append(")");
                m
            };
            Advance { logs: one_log(message), step: go(Stage::Direct) }
        },
        Reply::Probed(ProbeResult::Reachable) => {
            let message = if blocking {
                concat4(name, ": connected via domain (", ep, ")")
            } else {
                concat2(name, ": connected via domain")
            };
            Advance { logs: one_log(message), step: finish_over_domain(t) }
        },
        Reply::Probed(ProbeResult::Unauthorized) => Advance {
            logs: one_log(concat2(name, ": 401 — re-provisioning SA token")),
            step: go(Stage::InvalidateToken),
        },
        _ => {
            let message = if blocking {
                concat4(name, ": domain probe failed (", ep, ")")
            } else {
                concat4(name, ": domain probe timed out (", ep, ")")
            };
            Advance { logs: one_log(message), step: go(Stage::Direct) }
        },
    }
}

fn give_up_refresh(t: &Target) -> (r: Advance)
    ensures
        r@ == refresh_failed(*t),
{
    Advance {
        logs: one_log(concat2(t.name.as_str(), ": token re-provision failed, falling back")),
        step: go(Stage::Direct),
    }
}

fn advance_refreshed(t: &Target, ep: &str, reply: Reply) -> (r: Advance)
    ensures
        r@ == after_refreshed(*t, ep@, reply),
{
    match reply {
        Reply::Probed(ProbeResult::Reachable) => {
            let message = if t.mode == DiscoverMode::Blocking {
                concat4(t.name.as_str(), ": reconnected after token refresh (", ep, ")")
            } else {
                concat2(t.name.as_str(), ": reconnected after token refresh")
            };
            Advance { logs: one_log(message), step: finish_over_domain(t) }
        },
        _ => give_up_refresh(t),
    }
}

fn advance_direct(t: &Target, connected: bool, content: Option<String>) -> (r: Advance)
    ensures
        r@ == after_direct(*t, connected, content),
{
    if connected {
        Advance {
            logs: no_logs(),
            step: Step::Finish(
                Outcome::Connected {
                    path: t.kubeconfig_path.clone(),
                    endpoint: find_url(&content),
                    tunnel_pid: None,
                },
            ),
        }
    } else {
        Advance { logs: no_logs(), step: go(Stage::Original) }
    }
}

fn advance_original(t: &Target, connected: bool, content: Option<String>) -> (r: Advance)
    ensures
        r@ == after_original(*t, connected, content),
{
    if connected {
        let logs = match t.mode {
            DiscoverMode::Streaming => one_log(
                concat2(t.name.as_str(), ": connected via .original kubeconfig (VM IP)"),
            ),
            DiscoverMode::Retry => one_log(
                concat2(t.name.as_str(), ": connected via .original kubeconfig"),
            ),
            DiscoverMode::Blocking => no_logs(),
        };
        let path = if t.mode == DiscoverMode::Blocking {
            t.kubeconfig_path.clone()
        } else {
            t.original_path.clone()
        };
        Advance {
            logs,
            step: Step::Finish(
                Outcome::Connected { path, endpoint: find_url(&content), tunnel_pid: None },
            ),
        }
    } else if t.bastion.is_some() {
        Advance { logs: no_logs(), step: go(Stage::Tunnel) }
    } else {
        let logs = if t.mode == DiscoverMode::Blocking {
            one_log(
                concat3(
                    "Warning: Cannot reach ",
                    t.name.as_str(),
                    " and no bastion available for auto-tunnel",
                ),
            )
        } else {
            no_logs()
        };
        Advance {
            logs,
            step: Step::Finish(
                Outcome::Failed { error: "No bastion available for auto-tunnel".to_owned() },
            ),
        }
    }
}

fn advance_tunnel(t: &Target, bastion: &str, reply: Reply) -> (r: Advance)
    ensures
        r@ == after_tunnel(*t, bastion@, reply),
{
    match reply {
        Reply::TunnelUp(pid) => {
            let port = decimal_u64(t.local_port as u64);
            let logs = match t.mode {
                DiscoverMode::Streaming => one_log(
                    concat4(
                        t.name.as_str(),
                        ": connected via SSH tunnel (localhost:",
                        port.as_str(),
                        ")",
                    ),
                ),
                DiscoverMode::Retry => no_logs(),
                DiscoverMode::Blocking => {
                    let mut m = concat4(
                        "Auto-tunnel: ",
                        t.name.as_str(),
                        " → localhost:",
                        port.as_str(),
                    );
                    m.append(" via ");
                    m.append(bastion);
                    one_log(m)
                },
            };
            Advance {
                logs,
                step: Step::Finish(
                    Outcome::Connected {
                        path: t.kubeconfig_path.clone(),
                        endpoint: Some(concat3("localhost:", port.as_str(), " (tunnel)")),
                        tunnel_pid: Some(pid),
                    },
                ),
            }
        },
        Reply::TunnelFailed(error) => {
            let logs = if t.mode == DiscoverMode::Blocking {
                one_log(
                    concat4(
                        "Warning: Auto-tunnel failed for ",
                        t.name.as_str(),
                        ": ",
                        error.as_str(),
                    ),
                )
            } else {
                no_logs()
            };
            Advance { logs, step: Step::Finish(Outcome::Failed { error }) }
        },
        _ => Advance {
            logs: no_logs(),
            step: Step::Finish(Outcome::Failed { error: String::new() }),
        },
    }
}

/// The first stage for a cluster.
pub fn begin_discovery(t: &Target) -> (r: Stage)
    ensures
        r == first_stage(*t),
        stage_fits(*t, r),
{
    if t.endpoint.is_some() {
        Stage::ReadToken
    } else {
        Stage::Direct
    }
}

/// Says how the discovery of a cluster goes on after a stage.
pub fn advance(t: &Target, stage: Stage, reply: Reply) -> (r: Advance)
    requires
        stage_fits(*t, stage),
        reply_fits(stage, reply),
    ensures
        r@ == advanced(*t, stage, reply),
        r@.step matches StepModel::Next { stage: after, .. } ==> stage_fits(*t, after),
        r.step matches Step::Finish(Outcome::Failed { .. }) ==> stage == Stage::Tunnel || (stage
            == Stage::Original && t.bastion is None),
        stage == Stage::Original && t.bastion is Some && (reply matches Reply::Tried {
            connected,
            ..
        } && !connected) ==> (r.step matches Step::Next { stage: after, .. } && after
            == Stage::Tunnel),
{
    match stage {
        Stage::ReadToken => match reply {
            Reply::Token(token) => advance_read(t, token),
            _ => advance_read(t, None),
        },
        Stage::ProvisionToken => advance_provision(t, reply),
        Stage::Domain => match &t.endpoint {
            Some(ep) => advance_domain(t, ep.as_str(), reply),
            None => Advance { logs: no_logs(), step: go(Stage::Direct) },
        },
        Stage::InvalidateToken => if t.bastion.is_some() {
            Advance { logs: no_logs(), step: go(Stage::RefreshToken) }
        } else {
            give_up_refresh(t)
        },
        Stage::RefreshToken => match reply {
            Reply::Token(token) => Advance {
                logs: no_logs(),
                step: Step::Next { stage: Stage::RefreshedDomain, token },
            },
            _ => give_up_refresh(t),
        },
        Stage::RefreshedDomain => match &t.endpoint {
            Some(ep) => advance_refreshed(t, ep.as_str(), reply),
            None => give_up_refresh(t),
        },
        Stage::Direct => match reply {
            Reply::Tried { connected, content } => advance_direct(t, connected, content),
            _ => advance_direct(t, false, None),
        },
        Stage::Original => match reply {
            Reply::Tried { connected, content } => advance_original(t, connected, content),
            _ => advance_original(t, false, None),
        },
        Stage::Tunnel => match &t.bastion {
            Some(b) => advance_tunnel(t, b.as_str(), reply),
            None => advance_tunnel(t, "", reply),
        },
    }
}

/// The piece of news that the end of a discovery makes, given the version of
/// the API server.
pub fn discovery_event(t: &Target, outcome: Outcome, server_version: Option<String>) -> (r:
    DiscoverEvent)
    ensures
        is_news_of(r, t.name@),
        match outcome {
            Outcome::Connected { path, endpoint, tunnel_pid } => {
                &&& r matches DiscoverEvent::Connected(c)
                &&& c.name@ == t.name@
                &&& c.kubeconfig_path == path
                &&& c.endpoint == endpoint
                &&& c.tunnel_pid == tunnel_pid
                &&& c.server_version == server_version
            },
            Outcome::Failed { error } => {
                &&& r matches DiscoverEvent::Failed { name, error: e }
                &&& name@ == t.name@
                &&& e == error
            },
        },
{
    match outcome {
        Outcome::Connected { path, endpoint, tunnel_pid } => DiscoverEvent::Connected(
            ClusterClient {
                name: t.name.clone(),
                kubeconfig_path: path,
                tunnel_pid,
                server_version,
                endpoint,
            },
        ),
        Outcome::Failed { error } => DiscoverEvent::Failed { name: t.name.clone(), error },
    }
}

// ---------------------------------------------------------------------------
// Laws of discovery
// ---------------------------------------------------------------------------

/// How many stages can follow.
pub open spec fn stages_left(stage: Stage) -> nat {
    match stage {
        Stage::ReadToken => 8,
        Stage::ProvisionToken => 7,
        Stage::Domain => 6,
        Stage::InvalidateToken => 5,
        Stage::RefreshToken => 4,
        Stage::RefreshedDomain => 3,
        Stage::Direct => 2,
        Stage::Original => 1,
        Stage::Tunnel => 0,
    }
}

/// Every stage leads on towards the end: the domain address is tried before the
/// direct one, that before the original one, that before a tunnel, and none of
/// them twice.
pub proof fn law_discovery_ends(t: Target, stage: Stage, reply: Reply)
    requires
        stage_fits(t, stage),
        reply_fits(stage, reply),
    ensures
        advanced(t, stage, reply).step matches StepModel::Next { stage: after, .. } ==> stages_left(
            after,
        ) < stages_left(stage),
        stage == Stage::Tunnel ==> advanced(t, stage, reply).step is Finish,
{
}

/// A discovery ends with a connection only where a probe or a tunnel said so.
pub proof fn law_connected_only_if_reached(t: Target, stage: Stage, reply: Reply)
    requires
        stage_fits(t, stage),
        reply_fits(stage, reply),
        advanced(t, stage, reply).step matches StepModel::Finish(OutcomeModel::Connected { .. }),
    ensures
        reply == Reply::Probed(ProbeResult::Reachable) || reply is TunnelUp || (reply is Tried
            && reply->connected),
{
}

/// Without a bastion no stage that needs one is ever reached.
pub proof fn law_no_bastion_no_tunnel(t: Target, stage: Stage, reply: Reply)
    requires
        t.bastion is None,
        stage_fits(t, stage),
        reply_fits(stage, reply),
    ensures
        advanced(t, stage, reply).step matches StepModel::Next { stage: after, .. } ==> after
            != Stage::Tunnel && after != Stage::ProvisionToken && after != Stage::RefreshToken
            && after != Stage::RefreshedDomain,
{
}

// ---------------------------------------------------------------------------
// Kubeconfig directories
// ---------------------------------------------------------------------------

/// An entry of the directory that holds kubeconfigs.
#[derive(Debug)]
pub struct ConfigEntry {
    /// The entry's name, where it is text.
    pub name: Option<String>,
    pub is_dir: bool,
    pub has_kubeconfig: bool,
}

/// Whether an entry is that of a cluster.
pub open spec fn is_cluster_entry() -> spec_fn(ConfigEntry) -> bool {
    |e: ConfigEntry| e.is_dir && e.has_kubeconfig && e.name is Some
}

/// The name of an entry.
pub open spec fn entry_text() -> spec_fn(ConfigEntry) -> String {
    |e: ConfigEntry| e.name->0
}

/// The names of the clusters that have a kubeconfig, in ascending order.
pub fn scan_kubeconfig_names(entries: &Vec<ConfigEntry>) -> (r: Vec<String>)
    ensures
        stably_sorted(collect(entries@, is_cluster_entry(), entry_text()), r@),
{
    let mut names: Vec<String> = Vec::new();
    let mut i: usize = 0;
    proof {
        assert(names@ =~= collect(entries@.take(0), is_cluster_entry(), entry_text()));
    }
    while i < entries.len()
        invariant
            i <= entries@.len(),
            names@ == collect(entries@.take(i as int), is_cluster_entry(), entry_text()),
        decreases entries@.len() - i,
    {
        proof {
            lemma_collect_step(entries@, i as int, is_cluster_entry(), entry_text());
        }
        if entries[i].is_dir && entries[i].has_kubeconfig {
            if let Some(name) = &entries[i].name {
                names.push(name.clone());
            }
        }
        i += 1;
    }
    stable_sort(&mut names);
    names
}

/// A cluster of the configuration, with its domain address where it has one.
#[derive(Debug)]
pub struct ClusterDef {
    pub cluster_name: String,
    pub api_endpoint: Option<String>,
}

/// The domain address of a cluster: that of the last entry of its name that has
/// one.
pub open spec fn configured_endpoint(defs: Seq<ClusterDef>, name: Seq<char>) -> Option<Seq<char>>
    decreases defs.len(),
{
    if defs.len() == 0 {
        None
    } else if defs.last().cluster_name@ == name && defs.last().api_endpoint is Some {
        opt_view(defs.last().api_endpoint)
    } else {
        configured_endpoint(defs.drop_last(), name)
    }
}

/// Finds the domain address of a cluster.
pub fn load_api_endpoints(defs: &Vec<ClusterDef>, name: &str) -> (r: Option<String>)
    ensures
        opt_view(r) == configured_endpoint(defs@, name@),
{
    let mut i: usize = defs.len();
    while i > 0
        invariant
            i <= defs@.len(),
            configured_endpoint(defs@.take(i as int), name@) == configured_endpoint(defs@, name@),
        decreases i,
    {
        proof {
            assert(defs@.take(i as int).drop_last() =~= defs@.take(i - 1));
            assert(defs@.take(i as int).last() == defs@[i - 1]);
        }
        i -= 1;
        if same(defs[i].cluster_name.as_str(), name) {
            if let Some(ep) = &defs[i].api_endpoint {
                return Some(ep.clone());
            }
        }
    }
    None
}

// ---------------------------------------------------------------------------
// A round of discovery
// ---------------------------------------------------------------------------

/// An entry of the directory that holds kubeconfigs, with what a discovery needs
/// of it.
#[derive(Debug)]
pub struct ConfigDir {
    /// The bytes of the entry's name, by which entries are sorted.
    pub file_name: Vec<u8>,
    /// The entry's name, where it is text.
    pub name: Option<String>,
    pub is_dir: bool,
    pub has_kubeconfig: bool,
    pub kubeconfig_path: String,
    /// The path of the kubeconfig as it was before its address was rewritten.
    pub original_path: String,
}

/// The key of bytes.
pub open spec fn bytes_key(bytes: Seq<u8>) -> Seq<int> {
    bytes.map_values(|b: u8| b as int)
}

/// Tests whether bytes come strictly before others.
fn bytes_precede(a: &Vec<u8>, b: &Vec<u8>) -> (r: bool)
    ensures
        r == key_less(bytes_key(a@), bytes_key(b@)),
{
    let mut i: usize = 0;
    let ghost x = bytes_key(a@);
    let ghost y = bytes_key(b@);
    proof {
        assert(x.skip(0) =~= x);
        assert(y.skip(0) =~= y);
    }
    while i < a.len() && i < b.len()
        invariant
            i <= a@.len(),
            i <= b@.len(),
            x == bytes_key(a@),
            y == bytes_key(b@),
            key_less(x, y) == key_less(x.skip(i as int), y.skip(i as int)),
        decreases a@.len() - i,
    {
        proof {
            assert(x.skip(i as int)[0] == a@[i as int] as int);
            assert(y.skip(i as int)[0] == b@[i as int] as int);
            assert(x.skip(i as int).drop_first() =~= x.skip(i + 1));
            assert(y.skip(i as int).drop_first() =~= y.skip(i + 1));
        }
        if a[i] != b[i] {
            return a[i] < b[i];
        }
        i += 1;
    }
    i < b.len()
}

impl SortKey for ConfigDir {
    /// Entries are sorted by the bytes of their names.
    open spec fn sort_key(&self) -> Seq<int> {
        bytes_key(self.file_name@)
    }

    fn precedes(&self, other: &Self) -> (r: bool) {
        bytes_precede(&self.file_name, &other.file_name)
    }
}

/// Whether an entry is that of a cluster to be discovered.
pub open spec fn holds_cluster() -> spec_fn(ConfigDir) -> bool {
    |d: ConfigDir| d.is_dir && d.has_kubeconfig
}

/// An entry as it is.
pub open spec fn same_dir() -> spec_fn(ConfigDir) -> ConfigDir {
    |d: ConfigDir| d
}

/// The clusters of a directory that are to be discovered, in the order of their
/// entries' names.
pub fn clusters_to_discover(entries: Vec<ConfigDir>) -> (r: Vec<ConfigDir>)
    ensures
        stably_sorted(collect(entries@, holds_cluster(), same_dir()), r@),
{
    let ghost all = entries@;
    let mut left = entries;
    let mut found: Vec<ConfigDir> = Vec::new();
    let ghost mut n: int = 0;
    proof {
        assert(found@ =~= collect(all.take(0), holds_cluster(), same_dir()));
        assert(left@ =~= all.skip(0));
    }
    while left.len() > 0
        invariant
            0 <= n <= all.len(),
            left@ == all.skip(n),
            found@ == collect(all.take(n), holds_cluster(), same_dir()),
        decreases left@.len(),
    {
        proof {
            lemma_collect_step(all, n, holds_cluster(), same_dir());
        }
        let dir = left.remove(0);
        proof {
            assert(dir == all[n]);
            assert(left@ =~= all.skip(n + 1));
        }
        if dir.is_dir && dir.has_kubeconfig {
            found.push(dir);
        }
        proof {
            n = n + 1;
        }
    }
    proof {
        assert(all.take(n) =~= all);
    }
    stable_sort(&mut found);
    found
}

/// Makes a cluster of a directory ready to be discovered, with the local port
/// that a tunnel would use. A cluster whose directory's name is no text is called
/// `unknown`.
pub fn target_of(
    dir: ConfigDir,
    mode: DiscoverMode,
    bastion: &Option<String>,
    defs: &Vec<ClusterDef>,
    local_port: u32,
) -> (r: Target)
    ensures
        r.mode == mode,
        r.name@ == (match dir.name {
            Some(name) => name@,
            None => "unknown"@,
        }),
        r.kubeconfig_path@ == dir.kubeconfig_path@,
        r.original_path@ == dir.original_path@,
        opt_view(r.endpoint) == configured_endpoint(defs@, r.name@),
        opt_view(r.bastion) == opt_view(*bastion),
        r.local_port == local_port,
{
    let name = match dir.name {
        Some(name) => name,
        None => "unknown".to_owned(),
    };
    let through = match bastion {
        Some(host) => Some(host.clone()),
        None => None,
    };
    Target {
        mode,
        endpoint: load_api_endpoints(defs, name.as_str()),
        name,
        kubeconfig_path: dir.kubeconfig_path,
        original_path: dir.original_path,
        bastion: through,
        local_port,
    }
}

/// What is said of a cluster that is to be tried again without a kubeconfig; one
/// that has a kubeconfig is tried.
pub fn retry_refusal(name: &str, has_kubeconfig: bool) -> (r: Option<DiscoverEvent>)
    ensures
        has_kubeconfig ==> r is None,
        !has_kubeconfig ==> {
            &&& r matches Some(DiscoverEvent::Failed { name: n, error })
            &&& n@ == name@
            &&& error@ == "kubeconfig.yaml not found"@
        },
{
    if has_kubeconfig {
        None
    } else {
        Some(
            DiscoverEvent::Failed {
                name: name.to_owned(),
                error: "kubeconfig.yaml not found".to_owned(),
            },
        )
    }
}

/// The news that ends a round of discovery: only one that goes through all
/// clusters and streams its news says that it is complete.
pub open spec fn closing_news(mode: DiscoverMode) -> Seq<DiscoverEvent> {
    if mode == DiscoverMode::Streaming {
        seq![DiscoverEvent::Complete]
    } else {
        Seq::empty()
    }
}

/// The news that ends a round of discovery, to be sent when every cluster's has
/// been.
pub fn close_round(mode: DiscoverMode) -> (r: Vec<DiscoverEvent>)
    ensures
        r@ == closing_news(mode),
{
    let mut out: Vec<DiscoverEvent> = Vec::new();
    if let DiscoverMode::Streaming = mode {
        out.push(DiscoverEvent::Complete);
    }
    proof {
        assert(out@ =~= closing_news(mode));
    }
    out
}

/// Whether an event is the news of a cluster: that it is connected, or that it
/// could not be reached.
pub open spec fn is_news_of(event: DiscoverEvent, cluster: Seq<char>) -> bool {
    match event {
        DiscoverEvent::Connected(c) => c.name@ == cluster,
        DiscoverEvent::Failed { name, .. } => name@ == cluster,
        _ => false,
    }
}

/// In a round in which each cluster gives its news, in whatever order, followed by
/// what ends the round, no news of a cluster comes after the round is said to be
/// complete. A round that streams through all clusters says so once, with its last
/// event; any other round does not say so.
pub proof fn law_complete_comes_once_and_last(
    mode: DiscoverMode,
    clusters: Seq<Seq<char>>,
    news: Seq<DiscoverEvent>,
)
    requires
        news.len() == clusters.len(),
        forall|i: int| 0 <= i < news.len() ==> is_news_of(#[trigger] news[i], clusters[i]),
    ensures
        ({
            let round = news + closing_news(mode);
            &&& round.len() == clusters.len() + if mode == DiscoverMode::Streaming {
                1int
            } else {
                0
            }
            &&& forall|i: int|
                0 <= i < round.len() ==> ((#[trigger] round[i] is Complete) <==> mode
                    == DiscoverMode::Streaming && i == round.len() - 1)
        }),
{
    let round = news + closing_news(mode);
    assert forall|i: int| 0 <= i < round.len() implies ((#[trigger] round[i] is Complete) <==> mode
        == DiscoverMode::Streaming && i == round.len() - 1) by {
        if i < news.len() {
            assert(round[i] == news[i]);
        }
    }
}

// ---------------------------------------------------------------------------
// Tunnels
// ---------------------------------------------------------------------------

/// How often a tunnel's port is tried.
pub const TUNNEL_RETRIES: u32 = 12;

/// How the wait for a tunnel's port goes on.
#[derive(Debug, Clone, Copy, PartialEq, Eq, Structural)]
pub enum WaitStep {
    /// The port answers.
    Ready,
    /// The tunnel's process has ended, or the port was tried often enough.
    GiveUp,
    /// Wait, then try again.
    TryAgain,
}

/// Says how the wait for a tunnel's port goes on after an attempt, counted from
/// zero.
pub fn wait_for_tunnel_port(attempt: u32, alive: bool, listening: bool) -> (r: WaitStep)
    ensures
        r == (if attempt >= TUNNEL_RETRIES || !alive {
            WaitStep::GiveUp
        } else if listening {
            WaitStep::Ready
        } else {
            WaitStep::TryAgain
        }),
{
    if attempt >= TUNNEL_RETRIES || !alive {
        WaitStep::GiveUp
    } else if listening {
        WaitStep::Ready
    } else {
        WaitStep::TryAgain
    }
}

/// The host at the far end of a tunnel: a local address stands for the
/// cluster's control plane, where that is known.
pub fn tunnel_target(server_ip: String, control_plane: Option<String>) -> (r: String)
    ensures
        r@ == (if (server_ip@ == "127.0.0.1"@ || server_ip@ == "localhost"@) && control_plane is Some {
            control_plane->0@
        } else {
            server_ip@
        }),
{
    if same(server_ip.as_str(), "127.0.0.1") || same(server_ip.as_str(), "localhost") {
        match control_plane {
            Some(ip) => ip,
            None => server_ip,
        }
    } else {
        server_ip
    }
}

/// The arguments of the tunnel's command.
pub fn tunnel_args(local_port: u32, target_ip: &str, server_port: u16, bastion: &str) -> (r: Vec<
    String,
>)
    ensures
        texts(r@) == seq![
            "-N"@,
            "-o"@,
            "StrictHostKeyChecking=no"@,
            "-o"@,
            "BatchMode=yes"@,
            "-o"@,
            "ExitOnForwardFailure=yes"@,
            "-o"@,
            "ServerAliveInterval=30"@,
            "-L"@,
            decimal(local_port as nat) + ":"@ + target_ip@ + ":"@ + decimal(server_port as nat),
            bastion@,
        ],
{
    let mut forward = decimal_u64(local_port as u64);
    forward.append(":");
    forward.append(target_ip);
    forward.append(":");
    forward.append(decimal_u64(server_port as u64).as_str());
    let mut r: Vec<String> = Vec::new();
    r.push("-N".to_owned());
    r.push("-o".to_owned());
    r.push("StrictHostKeyChecking=no".to_owned());
    r.push("-o".to_owned());
    r.push("BatchMode=yes".to_owned());
    r.push("-o".to_owned());
    r.push("ExitOnForwardFailure=yes".to_owned());
    r.push("-o".to_owned());
    r.push("ServerAliveInterval=30".to_owned());
    r.push("-L".to_owned());
    r.push(forward);
    r.push(bastion.to_owned());
    proof {
        assert(texts(r@) =~= seq![
            "-N"@,
            "-o"@,
            "StrictHostKeyChecking=no"@,
            "-o"@,
            "BatchMode=yes"@,
            "-o"@,
            "ExitOnForwardFailure=yes"@,
            "-o"@,
            "ServerAliveInterval=30"@,
            "-L"@,
            forward@,
            bastion@,
        ]);
    }
    r
}

/// The kubeconfig of a tunnel: its address is the local end.
pub fn tunnel_kubeconfig(content: &str, server_url: &str, local_port: u32) -> (r: String)
    requires
        server_url@.len() > 0,
    ensures
        r@ == replaced(
            content@,
            server_url@,
            "https://127.0.0.1:"@ + decimal(local_port as nat),
        ),
{
    let local = concat2("https://127.0.0.1:", decimal_u64(local_port as u64).as_str());
    replace(content, server_url, local.as_str())
}

/// The error of a tunnel whose port never answered.
pub fn tunnel_not_ready(cluster: &str, local_port: u32, pid: u32) -> (r: String)
    ensures
        r@ == "SSH tunnel for "@ + cluster@ + " failed to establish on localhost:"@ + decimal(
            local_port as nat,
        ) + " within 6 s (process "@ + decimal(pid as nat) + ")"@,
{
    let mut m = concat4(
        "SSH tunnel for ",
        cluster,
        " failed to establish on localhost:",
        decimal_u64(local_port as u64).as_str(),
    );
    m.append(" within 6 s (process ");
    m.append(decimal_u64(pid as u64).as_str());
    m.append(")");
    m
}

/// The error of a tunnel through which the cluster does not answer.
pub fn tunnel_silent(cluster: &str, local_port: u32) -> (r: String)
    ensures
        r@ == "SSH tunnel for "@ + cluster@ + " is up (localhost:"@ + decimal(local_port as nat)
            + ") but K8s API did not respond"@,
{
    let mut m = concat4(
        "SSH tunnel for ",
        cluster,
        " is up (localhost:",
        decimal_u64(local_port as u64).as_str(),
    );
    m.append(") but K8s API did not respond");
    m
}

/// The number of a process as signals take it; nothing where it is out of
/// range, so that no such process can be alive.
pub fn signal_target(pid: u32) -> (r: Option<i32>)
    ensures
        r == (if pid <= i32::MAX {
            Some(pid as i32)
        } else {
            None
        }),
{
    if pid <= 0x7fff_ffff {
        Some(pid as i32)
    } else {
        None
    }
}

/// Whether a cluster has a tunnel that can be stopped.
pub open spec fn has_tunnel() -> spec_fn(ClusterClient) -> bool {
    |c: ClusterClient| c.tunnel_pid is Some && c.tunnel_pid->0 <= i32::MAX
}

/// The process of a cluster's tunnel.
pub open spec fn tunnel_process() -> spec_fn(ClusterClient) -> i32 {
    |c: ClusterClient| c.tunnel_pid->0 as i32
}

/// The processes of tunnels that are to be stopped.
pub fn cleanup_tunnels(clusters: &[ClusterClient]) -> (r: Vec<i32>)
    ensures
        r@ == collect(clusters@, has_tunnel(), tunnel_process()),
{
    let mut out: Vec<i32> = Vec::new();
    let mut i: usize = 0;
    proof {
        assert(out@ =~= collect(clusters@.take(0), has_tunnel(), tunnel_process()));
    }
    while i < clusters.len()
        invariant
            i <= clusters@.len(),
            out@ == collect(clusters@.take(i as int), has_tunnel(), tunnel_process()),
        decreases clusters@.len() - i,
    {
        proof {
            lemma_collect_step(clusters@, i as int, has_tunnel(), tunnel_process());
        }
        if let Some(pid) = clusters[i].tunnel_pid {
            if let Some(target) = signal_target(pid) {
                out.push(target);
            }
        }
        i += 1;
    }
    out
}

// ---------------------------------------------------------------------------
// The control plane
// ---------------------------------------------------------------------------

/// The first decision that a function takes on the values of a list.
pub open spec fn first_decision<T>(
    s: Seq<T>,
    decide: spec_fn(T) -> Option<Option<Seq<char>>>,
) -> Option<Option<Seq<char>>>
    decreases s.len(),
{
    if s.len() == 0 {
        None
    } else {
        match decide(s[0]) {
            Some(d) => Some(d),
            None => first_decision(s.drop_first(), decide),
        }
    }
}

/// What a machine decides: one without a name ends the search; one whose name
/// begins as a control plane's does ends it with the machine's address.
pub open spec fn machine_decision(prefix: Seq<char>) -> spec_fn(Json) -> Option<Option<Seq<char>>> {
    |node: Json|
        match member_text(node, "node_name"@) {
            None => Some(None),
            Some(name) => if has_prefix(name, prefix) {
                Some(member_text(node, "ip"@))
            } else {
                None
            },
        }
}

/// What a pool decides: one without machines ends the search.
pub open spec fn pool_decision(prefix: Seq<char>) -> spec_fn(Json) -> Option<Option<Seq<char>>> {
    |pool: Json|
        match member_items(pool, "nodes"@) {
            None => Some(None),
            Some(nodes) => first_decision(nodes, machine_decision(prefix)),
        }
}

/// The address of a cluster's control plane by the state of its machines.
pub open spec fn control_plane_ip(pools: Seq<Json>, cluster: Seq<char>) -> Option<Seq<char>> {
    match first_decision(pools, pool_decision(cluster + "-cp"@)) {
        Some(found) => found,
        None => None,
    }
}

/// What the machines of a pool decide.
fn decide_machines(nodes: &Vec<Json>, prefix: &str) -> (r: Option<Option<String>>)
    ensures
        r is Some == first_decision(nodes@, machine_decision(prefix@)) is Some,
        r is Some ==> opt_view(r->0) == first_decision(nodes@, machine_decision(prefix@))->0,
{
    let mut i: usize = 0;
    proof {
        assert(nodes@.skip(0) =~= nodes@);
    }
    while i < nodes.len()
        invariant
            i <= nodes@.len(),
            first_decision(nodes@.skip(i as int), machine_decision(prefix@)) == first_decision(
                nodes@,
                machine_decision(prefix@),
            ),
        decreases nodes@.len() - i,
    {
        proof {
            assert(nodes@.skip(i as int)[0] == nodes@[i as int]);
            assert(nodes@.skip(i as int).drop_first() =~= nodes@.skip(i + 1));
        }
        match nodes[i].get_str("node_name") {
            None => {
                return Some(None);
            },
            Some(name) => {
                if starts_with(name, prefix) {
                    return Some(
                        match nodes[i].get_str("ip") {
                            Some(ip) => Some(ip.to_owned()),
                            None => None,
                        },
                    );
                }
            },
        }
        i += 1;
    }
    None
}

/// Finds the address of a cluster's control plane.
pub fn lookup_cp_ip(pools: &Vec<Json>, cluster_name: &str) -> (r: Option<String>)
    ensures
        opt_view(r) == control_plane_ip(pools@, cluster_name@),
{
    let prefix = concat2(cluster_name, "-cp");
    let mut i: usize = 0;
    proof {
        assert(pools@.skip(0) =~= pools@);
    }
    while i < pools.len()
        invariant
            i <= pools@.len(),
            prefix@ == cluster_name@ + "-cp"@,
            first_decision(pools@.skip(i as int), pool_decision(prefix@)) == first_decision(
                pools@,
                pool_decision(prefix@),
            ),
        decreases pools@.len() - i,
    {
        proof {
            assert(pools@.skip(i as int)[0] == pools@[i as int]);
            assert(pools@.skip(i as int).drop_first() =~= pools@.skip(i + 1));
        }
        match pools[i].get_array("nodes") {
            None => {
                return None;
            },
            Some(nodes) => {
                if let Some(found) = decide_machines(nodes, prefix.as_str()) {
                    return found;
                }
            },
        }
        i += 1;
    }
    None
}

/// The pools of a state file: the items where it holds a list, else the one value
/// that it holds. Nothing where it could not be parsed.
pub open spec fn pools_of(value: Option<Json>) -> Option<Seq<Json>> {
    match value {
        Some(Json::Array { items, .. }) => Some(items@),
        Some(one) => Some(seq![one]),
        None => None,
    }
}

/// Takes the pools out of the value of a state file.
pub fn take_pools(value: Option<Json>) -> (r: Option<Vec<Json>>)
    ensures
        r is Some == pools_of(value) is Some,
        r is Some ==> r->0@ == pools_of(value)->0,
{
    match value {
        Some(Json::Array { items, .. }) => Some(items),
        Some(one) => {
            let mut alone: Vec<Json> = Vec::new();
            alone.push(one);
            proof {
                assert(alone@ =~= seq![one]);
            }
            Some(alone)
        },
        None => None,
    }
}

/// Parses the pools of a state file.
pub fn parse_pools(content: &str) -> (r: Option<Vec<Json>>)
    ensures
        r is Some == pools_of(parsed_json(content@)) is Some,
        r is Some ==> r->0@ == pools_of(parsed_json(content@))->0,
{
    take_pools(parse_json(content))
}

/// Finds the address of a cluster's control plane in the content of a state file.
pub fn find_control_plane(content: &str, cluster_name: &str) -> (r: Option<String>)
    ensures
        opt_view(r) == match pools_of(parsed_json(content@)) {
            Some(pools) => control_plane_ip(pools, cluster_name@),
            None => None,
        },
{
    match parse_pools(content) {
        Some(pools) => lookup_cp_ip(&pools, cluster_name),
        None => None,
    }
}

} // verus!
