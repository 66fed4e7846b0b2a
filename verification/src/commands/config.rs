//! `config`: adding, removing, selecting and listing saved clusters.
//!
//! Each operation takes the loaded configuration, changes it in place and
//! says what to report; saving the result and printing are the caller's.

use vstd::prelude::*;
use crate::cli::args::{ConfigAction, KafkaConnectionArgs};
use crate::config::loader::not_found_message;
use crate::config::model::{
    least_name, sasl_view, strictly_sorted, tls_view, AppConfig, AppConfigView, ClusterConfig,
    ClusterConfigView, ClusterEntry, SecurityProtocolType, TlsConfig, TlsConfigView, copy_opt_string,
};
use crate::text::{join, split_pieces, trim_ws, views};

verus! {

/// What a configuration command reports.
#[derive(Debug)]
pub enum ConfigOutcome {
    /// The configuration changed: save it, then report the message as done.
    Changed(String),
    /// Nothing changed: report the message as an error.
    Refused(String),
    /// Print these lines.
    Listing(Vec<String>),
}

/// The content of a `ConfigOutcome`.
pub enum ConfigOutcomeView {
    Changed(Seq<char>),
    Refused(Seq<char>),
    Listing(Seq<Seq<char>>),
}

impl View for ConfigOutcome {
    type V = ConfigOutcomeView;

    open spec fn view(&self) -> ConfigOutcomeView {
        match self {
            ConfigOutcome::Changed(m) => ConfigOutcomeView::Changed(m@),
            ConfigOutcome::Refused(m) => ConfigOutcomeView::Refused(m@),
            ConfigOutcome::Listing(l) => ConfigOutcomeView::Listing(views(l@)),
        }
    }
}

/// The brokers saved by `add-cluster`: the text split at commas and spaces,
/// empty pieces left out, each trimmed of whitespace.
pub open spec fn saved_brokers(s: Seq<char>) -> Seq<Seq<char>> {
    split_pieces(s, seq![',', ' ']).filter(|p: Seq<char>| p.len() > 0).map_values(
        |p: Seq<char>| trim_ws(p),
    )
}

/// The TLS settings saved by `add-cluster`: present when TLS is enabled or
/// the protocol uses it, always verifying certificates (skipping
/// verification is only ever a command-line choice).
pub open spec fn saved_tls(auth: &KafkaConnectionArgs, proto: SecurityProtocolType) -> Option<
    TlsConfigView,
> {
    if auth.tls || proto == SecurityProtocolType::Ssl || proto == SecurityProtocolType::SaslSsl {
        Some(
            TlsConfigView {
                insecure: false,
                ca_file: auth.tls_ca.deep_view(),
                cert_file: auth.tls_cert.deep_view(),
                key_file: auth.tls_key.deep_view(),
            },
        )
    } else {
        None
    }
}

/// The message refusing a cluster without brokers.
pub open spec fn no_brokers_message() -> Seq<char> {
    "At least one broker address is required"@
}

/// What `add-cluster` does: with at least one broker, saves the cluster
/// under its name (replacing any cluster of that name) and selects it when
/// no cluster is selected; with none, changes nothing.
pub open spec fn spec_add_cluster(
    old: AppConfigView,
    name: Seq<char>,
    brokers: Seq<char>,
    proto: SecurityProtocolType,
    auth: &KafkaConnectionArgs,
) -> (AppConfigView, ConfigOutcomeView) {
    let list = saved_brokers(brokers);
    if list.len() == 0 {
        (old, ConfigOutcomeView::Refused(no_brokers_message()))
    } else {
        let cfg = ClusterConfigView {
            brokers: list,
            security_protocol: proto,
            sasl: auth.spec_sasl(),
            tls: saved_tls(auth, proto),
        };
        (
            AppConfigView {
                current_cluster: if old.current_cluster is None {
                    Some(name)
                } else {
                    old.current_cluster
                },
                clusters: old.clusters.insert(name, cfg),
            },
            ConfigOutcomeView::Changed("Cluster '"@ + name + "' added"@),
        )
    }
}

/// A cluster saved by `add-cluster` holds the settings given: the protocol
/// given, the SASL settings of the flags, and, when TLS is enabled or the
/// protocol uses it, TLS that verifies certificates with the CA file of
/// `--tls-ca`, the certificate of `--tls-cert` and the key of `--tls-key`
/// (no TLS otherwise).
pub open spec fn saved_as_given(
    c: ClusterConfigView,
    proto: SecurityProtocolType,
    auth: &KafkaConnectionArgs,
) -> bool {
    &&& c.security_protocol == proto
    &&& c.sasl == auth.spec_sasl()
    &&& c.brokers.len() > 0
    &&& if auth.tls || proto == SecurityProtocolType::Ssl || proto == SecurityProtocolType::SaslSsl {
        c.tls matches Some(t) && !t.insecure && t.ca_file == auth.tls_ca.deep_view() && t.cert_file
            == auth.tls_cert.deep_view() && t.key_file == auth.tls_key.deep_view()
    } else {
        c.tls is None
    }
}

/// After a successful `add-cluster`, the cluster is saved under its name
/// with the settings given (see `saved_as_given`), and the outcome is the
/// message naming it.
pub proof fn law_add_cluster_saves_settings(
    old: AppConfigView,
    name: Seq<char>,
    brokers: Seq<char>,
    proto: SecurityProtocolType,
    auth: &KafkaConnectionArgs,
)
    ensures
        spec_add_cluster(old, name, brokers, proto, auth).1 is Changed ==> {
            let new = spec_add_cluster(old, name, brokers, proto, auth).0;
            &&& new.clusters.dom().contains(name)
            &&& saved_as_given(new.clusters[name], proto, auth)
        },
{
}

/// What `remove-cluster` does: removes a saved cluster; when it was the
/// selected one, the first remaining name in code-point order becomes
/// selected, or none if no cluster remains. An unknown name changes nothing.
pub open spec fn spec_remove_cluster(old: AppConfigView, name: Seq<char>) -> (
    AppConfigView,
    ConfigOutcomeView,
) {
    if old.clusters.dom().contains(name) {
        let rest = old.clusters.remove(name);
        (
            AppConfigView {
                current_cluster: if old.current_cluster == Some(name) {
                    if rest.dom() == Set::<Seq<char>>::empty() {
                        None
                    } else {
                        Some(least_name(rest.dom()))
                    }
                } else {
                    old.current_cluster
                },
                clusters: rest,
            },
            ConfigOutcomeView::Changed("Cluster '"@ + name + "' removed"@),
        )
    } else {
        (old, ConfigOutcomeView::Refused(not_found_message(name)))
    }
}

/// What `select-cluster` does: selects a saved cluster; an unknown name
/// changes nothing.
pub open spec fn spec_select_cluster(old: AppConfigView, name: Seq<char>) -> (
    AppConfigView,
    ConfigOutcomeView,
) {
    if old.clusters.dom().contains(name) {
        (
            AppConfigView { current_cluster: Some(name), clusters: old.clusters },
            ConfigOutcomeView::Changed("Switched to cluster '"@ + name + "'"@),
        )
    } else {
        (old, ConfigOutcomeView::Refused(not_found_message(name)))
    }
}

/// One line of the cluster listing: name, brokers, whether SASL and TLS are
/// used, and a marker on the selected cluster.
pub open spec fn cluster_line(name: Seq<char>, cfg: ClusterConfigView, current: Seq<char>) -> Seq<
    char,
> {
    "  "@ + name + " ─ "@ + join(cfg.brokers, ", "@) + (if cfg.sasl is Some {
        " (SASL)"@
    } else {
        Seq::empty()
    }) + (if cfg.tls is Some || cfg.security_protocol != SecurityProtocolType::Plaintext {
        " (TLS)"@
    } else {
        Seq::empty()
    }) + (if name == current {
        " ◄"@
    } else {
        Seq::empty()
    })
}

/// The listing of the clusters named in `names`, in that order.
pub open spec fn listing_of(names: Seq<Seq<char>>, cfg: AppConfigView) -> Seq<Seq<char>> {
    let current = match cfg.current_cluster {
        Some(c) => c,
        None => Seq::empty(),
    };
    seq!["CLUSTERS"@, "───────"@] + names.map_values(
        |n: Seq<char>| cluster_line(n, cfg.clusters[n], current),
    )
}

/// `lines` is the listing of `cfg`: a note when no cluster is saved,
/// otherwise a heading and one line per cluster in code-point order of name.
pub open spec fn is_cluster_listing(cfg: AppConfigView, lines: Seq<Seq<char>>) -> bool {
    if cfg.clusters.dom() == Set::<Seq<char>>::empty() {
        lines == seq!["No clusters configured."@]
    } else {
        exists|names: Seq<Seq<char>>|
            strictly_sorted(names) && names.to_set() == cfg.clusters.dom() && lines == listing_of(
                names,
                cfg,
            )
    }
}

/// Adds (or replaces) a cluster configuration, selecting it when no cluster
/// is selected.
pub fn add_cluster(
    config: &mut AppConfig,
    name: &str,
    brokers: &str,
    security_protocol: SecurityProtocolType,
    auth_args: &KafkaConnectionArgs,
) -> (r: ConfigOutcome)
    ensures
        (final(config)@, r@) == spec_add_cluster(
            old(config)@,
            name@,
            brokers@,
            security_protocol,
            auth_args,
        ),
        r@ is Changed ==> final(config)@.clusters.dom().contains(name@) && saved_as_given(
            final(config)@.clusters[name@],
            security_protocol,
            auth_args,
        ),
{
    proof {
        law_add_cluster_saves_settings(old(config)@, name@, brokers@, security_protocol, auth_args);
    }
    let sasl = auth_args.build_sasl_config();
    let tls_cfg = if auth_args.tls || security_protocol == SecurityProtocolType::Ssl
        || security_protocol == SecurityProtocolType::SaslSsl {
        Some(
            TlsConfig {
                insecure: false,
                ca_file: copy_opt_string(&auth_args.tls_ca),
                cert_file: copy_opt_string(&auth_args.tls_cert),
                key_file: copy_opt_string(&auth_args.tls_key),
            },
        )
    } else {
        None
    };
    assert(tls_view(tls_cfg) =~= saved_tls(auth_args, security_protocol));
    let mut seps: Vec<char> = Vec::new();
    seps.push(',');
    seps.push(' ');
    assert(seps@ =~= seq![',', ' ']);
    let pieces = crate::text::split_at_any(brokers, &seps);
    let listed = crate::text::drop_empty(pieces);
    let broker_list = crate::text::trim_each(&listed);
    if broker_list.len() == 0 {
        return ConfigOutcome::Refused(String::from_str("At least one broker address is required"));
    }
    let cfg = ClusterConfig { brokers: broker_list, security_protocol, sasl, tls: tls_cfg };
    config.clusters.insert(String::from_str(name), cfg);
    if config.current_cluster.is_none() {
        config.current_cluster = Some(String::from_str(name));
    }
    let r = ConfigOutcome::Changed(crate::text::concat3("Cluster '", name, "' added"));
    assert(config@ =~= spec_add_cluster(old(config)@, name@, brokers@, security_protocol, auth_args).0);
    r
}


/// Removes a cluster configuration; when it was the selected one, the first
/// remaining cluster in name order becomes selected.
pub fn remove_cluster(config: &mut AppConfig, name: &str) -> (r: ConfigOutcome)
    ensures
        (final(config)@, r@) == spec_remove_cluster(old(config)@, name@),
{
    match config.clusters.remove(name) {
        Some(_) => {
            let selected = match &config.current_cluster {
                Some(c) => crate::text::str_eq(c.as_str(), name),
                None => false,
            };
            if selected {
                config.current_cluster = config.clusters.least();
            }
            assert(config@ =~= spec_remove_cluster(old(config)@, name@).0);
            ConfigOutcome::Changed(crate::text::concat3("Cluster '", name, "' removed"))
        },
        None => ConfigOutcome::Refused(crate::text::concat3("Cluster '", name, "' not found")),
    }
}

/// Selects the active cluster.
pub fn select_cluster(config: &mut AppConfig, name: &str) -> (r: ConfigOutcome)
    ensures
        (final(config)@, r@) == spec_select_cluster(old(config)@, name@),
{
    if config.clusters.contains_key(name) {
        config.current_cluster = Some(String::from_str(name));
        assert(config@ =~= spec_select_cluster(old(config)@, name@).0);
        ConfigOutcome::Changed(crate::text::concat3("Switched to cluster '", name, "'"))
    } else {
        ConfigOutcome::Refused(crate::text::concat3("Cluster '", name, "' not found"))
    }
}

/// One line of the listing for a saved cluster.
fn format_cluster_line(name: &String, cfg: &ClusterConfig, current: &str) -> (r: String)
    ensures
        r@ == cluster_line(name@, cfg@, current@),
{
    let mut line = String::from_str("  ");
    line.append(name.as_str());
    line.append(" ─ ");
    let joined = crate::text::join_strings(&cfg.brokers, ", ");
    line.append(joined.as_str());
    if cfg.sasl.is_some() {
        line.append(" (SASL)");
    }
    if cfg.tls.is_some() || cfg.security_protocol != SecurityProtocolType::Plaintext {
        line.append(" (TLS)");
    }
    if crate::text::str_eq(name.as_str(), current) {
        line.append(" ◄");
    }
    proof {
        reveal_strlit("");
    }
    assert(line@ =~= cluster_line(name@, cfg@, current@));
    line
}

/// Lists all configured clusters, in name order.
pub fn list_clusters(config: &AppConfig) -> (r: Vec<String>)
    ensures
        is_cluster_listing(config@, views(r@)),
{
    let mut lines: Vec<String> = Vec::new();
    if config.clusters.is_empty() {
        lines.push(String::from_str("No clusters configured."));
        assert(views(lines@) =~= seq!["No clusters configured."@]);
        return lines;
    }
    let current: &str = match &config.current_cluster {
        Some(c) => c.as_str(),
        None => "",
    };
    proof {
        reveal_strlit("");
    }
    let ghost cur = match config@.current_cluster {
        Some(c) => c,
        None => Seq::<char>::empty(),
    };
    assert(current@ == cur);
    let entries = config.clusters.entries();
    let ghost ns = config.clusters.name_seq();
    lines.push(String::from_str("CLUSTERS"));
    lines.push(String::from_str("───────"));
    let n = entries.len();
    assert(ns.len() == n);
    for i in 0..n
        invariant
            n == entries@.len(),
            ns == entries@.map_values(|e: ClusterEntry| e.name@),
            ns == config.clusters.name_seq(),
            strictly_sorted(ns),
            current@ == cur,
            cur == match config@.current_cluster {
                Some(c) => c,
                None => Seq::<char>::empty(),
            },
            entries@.map_values(|e: ClusterEntry| e.config@) == config.clusters.config_seq(),
            views(lines@) == seq!["CLUSTERS"@, "───────"@] + ns.take(i as int).map_values(
                |k: Seq<char>| cluster_line(k, config@.clusters[k], cur),
            ),
    {
        let e = &entries[i];
        let line = format_cluster_line(&e.name, &e.config, current);
        proof {
            crate::config::model::lemma_index_of_pub(ns, i as int);
            assert(config@.clusters[ns[i as int]] == config.clusters.config_seq()[i as int]);
        }
        let ghost before = lines@;
        lines.push(line);
        assert(views(lines@) =~= views(before).push(line@));
        assert(ns.take(i + 1) =~= ns.take(i as int).push(ns[i as int]));
        assert(views(lines@) =~= seq!["CLUSTERS"@, "───────"@] + ns.take(i + 1).map_values(
            |k: Seq<char>| cluster_line(k, config@.clusters[k], cur),
        ));
    }
    assert(ns.take(n as int) =~= ns);
    assert(views(lines@) =~= listing_of(ns, config@));
    lines
}

/// Runs a configuration action on the loaded configuration.
pub fn handle_config(config: &mut AppConfig, action: ConfigAction) -> (r: ConfigOutcome)
    ensures
        match action {
            ConfigAction::AddCluster { name, brokers, security_protocol, auth_args } => (
                final(config)@,
                r@,
            ) == spec_add_cluster(old(config)@, name@, brokers@, security_protocol, &*auth_args),
            ConfigAction::RemoveCluster { name } => (final(config)@, r@) == spec_remove_cluster(
                old(config)@,
                name@,
            ),
            ConfigAction::SelectCluster { name } => (final(config)@, r@) == spec_select_cluster(
                old(config)@,
                name@,
            ),
            ConfigAction::List => final(config)@ == old(config)@ && (r@ matches ConfigOutcomeView::Listing(
                lines,
            ) && is_cluster_listing(old(config)@, lines)),
        },
{
    match action {
        ConfigAction::AddCluster { name, brokers, security_protocol, auth_args } => add_cluster(
            config,
            name.as_str(),
            brokers.as_str(),
            security_protocol,
            &auth_args,
        ),
        ConfigAction::RemoveCluster { name } => remove_cluster(config, name.as_str()),
        ConfigAction::SelectCluster { name } => select_cluster(config, name.as_str()),
        ConfigAction::List => ConfigOutcome::Listing(list_clusters(config)),
    }
}

} // verus!
