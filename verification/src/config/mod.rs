//! Cluster configuration: the saved model, lookup and resolution.

pub mod loader;
pub mod model;

pub use loader::get_cluster;
pub use model::{
    AppConfig, ClusterConfig, ClusterEntry, ClusterMap, SaslConfig, SaslMechanism,
    SecurityProtocolType, TlsConfig,
};

use vstd::prelude::*;
use crate::cli::args::KafkaConnectionArgs;
use crate::config::loader::{named_cluster_view, spec_get_cluster};
use crate::config::model::{default_broker, AppConfigView, ClusterConfigView};
use crate::text::{split_pieces, split_state, trim_ws, views};

verus! {

/// The brokers of an ad-hoc cluster: the comma-separated addresses, each
/// trimmed of whitespace, empty ones left out; the default address when none
/// remains.
pub open spec fn adhoc_brokers(s: Seq<char>) -> Seq<Seq<char>> {
    let listed = split_pieces(s, seq![',']).map_values(|p: Seq<char>| trim_ws(p)).filter(
        |p: Seq<char>| p.len() > 0,
    );
    if listed.len() == 0 {
        seq![default_broker()]
    } else {
        listed
    }
}

/// The protocol after the automatic upgrade: plain text becomes
/// SASL_PLAINTEXT when SASL credentials are given without TLS, and with TLS
/// becomes SASL_SSL or SSL depending on the credentials. Any other protocol
/// stays.
pub open spec fn upgraded_protocol(
    proto: SecurityProtocolType,
    has_sasl: bool,
    tls: bool,
) -> SecurityProtocolType {
    if proto == SecurityProtocolType::Plaintext {
        if tls {
            if has_sasl {
                SecurityProtocolType::SaslSsl
            } else {
                SecurityProtocolType::Ssl
            }
        } else if has_sasl {
            SecurityProtocolType::SaslPlaintext
        } else {
            SecurityProtocolType::Plaintext
        }
    } else {
        proto
    }
}

/// The ad-hoc cluster that `--brokers` describes together with the
/// connection flags.
pub open spec fn adhoc_cluster(
    brokers: Seq<char>,
    connection: &KafkaConnectionArgs,
    security_protocol: SecurityProtocolType,
) -> ClusterConfigView {
    ClusterConfigView {
        brokers: adhoc_brokers(brokers),
        security_protocol: upgraded_protocol(
            security_protocol,
            connection.spec_sasl() is Some,
            connection.tls,
        ),
        sasl: connection.spec_sasl(),
        tls: connection.spec_tls(),
    }
}

/// The name of a cluster given by the command line.
pub open spec fn or_empty(name: Option<&str>) -> Seq<char> {
    match name {
        Some(n) => n@,
        None => Seq::empty(),
    }
}

/// The cluster to connect to, in this order of priority: the ad-hoc
/// cluster of `--brokers`; the cluster named by `--cluster`, or when none is
/// named the selected one (`local` when none is selected); when no name is
/// given and the configuration has no such cluster, the ad-hoc cluster of the
/// `KFK_BROKERS` value, and without one the default broker `127.0.0.1:9092`.
/// A cluster named by `--cluster` that the configuration lacks is an error.
pub open spec fn spec_resolve_cluster(
    cluster_name: Option<&str>,
    brokers_override: Option<&str>,
    env_brokers: Option<&str>,
    connection: &KafkaConnectionArgs,
    security_protocol: SecurityProtocolType,
    config: AppConfigView,
) -> Result<(Seq<char>, ClusterConfigView), Seq<char>> {
    match brokers_override {
        Some(b) => Ok(("adhoc"@, adhoc_cluster(b@, connection, security_protocol))),
        None => {
            let found = spec_get_cluster(config, or_empty(cluster_name));
            if found is Err && or_empty(cluster_name).len() == 0 {
                Ok(("adhoc"@, adhoc_cluster(or_empty(env_brokers), connection, security_protocol)))
            } else {
                found
            }
        },
    }
}

/// The ad-hoc cluster of a comma-separated broker list and the connection
/// flags.
fn adhoc_config(
    brokers_str: &str,
    connection: &KafkaConnectionArgs,
    security_protocol: SecurityProtocolType,
) -> (c: ClusterConfig)
    ensures
        c@ == adhoc_cluster(brokers_str@, connection, security_protocol),
{
    let mut seps: Vec<char> = Vec::new();
    seps.push(',');
    let pieces = crate::text::split_at_any(brokers_str, &seps);
    let trimmed = crate::text::trim_each(&pieces);
    let listed = crate::text::drop_empty(trimmed);
    let broker_list = if listed.len() == 0 {
        let mut d: Vec<String> = Vec::new();
        d.push(String::from_str("127.0.0.1:9092"));
        assert(views(d@) =~= seq![default_broker()]);
        d
    } else {
        listed
    };
    assert(seps@ =~= seq![',']);
    let sasl_config = connection.build_sasl_config();
    let tls_config = connection.build_tls_config();
    let mut proto = security_protocol;
    if sasl_config.is_some() && proto == SecurityProtocolType::Plaintext && !connection.tls {
        proto = SecurityProtocolType::SaslPlaintext;
    }
    if connection.tls && proto == SecurityProtocolType::Plaintext {
        proto = if sasl_config.is_some() {
            SecurityProtocolType::SaslSsl
        } else {
            SecurityProtocolType::Ssl
        };
    }
    let c = ClusterConfig {
        brokers: broker_list,
        security_protocol: proto,
        sasl: sasl_config,
        tls: tls_config,
    };
    assert(c@ =~= adhoc_cluster(brokers_str@, connection, security_protocol));
    c
}

/// Get a cluster config, either from the ad-hoc `--brokers` flag, from the
/// config file, or from the `KFK_BROKERS` value (`env_brokers`), in that
/// order of priority (see `spec_resolve_cluster`).
pub fn resolve_cluster(
    cluster_name: Option<&str>,
    brokers_override: Option<&str>,
    env_brokers: Option<&str>,
    connection: &KafkaConnectionArgs,
    security_protocol: &SecurityProtocolType,
    config: &AppConfig,
) -> (r: Result<(String, ClusterConfig), String>)
    ensures
        named_cluster_view(r) == spec_resolve_cluster(
            cluster_name,
            brokers_override,
            env_brokers,
            connection,
            *security_protocol,
            config@,
        ),
        brokers_override is None && cluster_name is None && spec_get_cluster(config@, Seq::empty()) is Err
            && env_brokers is Some ==> (r matches Ok((_, c)) && c@.brokers == adhoc_brokers(
            env_brokers.unwrap()@,
        )),
        resolves_as_documented(
            cluster_name,
            brokers_override,
            env_brokers,
            connection,
            *security_protocol,
            config@,
            named_cluster_view(r),
        ),
{
    proof {
        law_resolve_cluster_order(
            cluster_name,
            brokers_override,
            env_brokers,
            connection,
            *security_protocol,
            config@,
        );
    }
    if let Some(brokers_str) = brokers_override {
        let c = adhoc_config(brokers_str, connection, *security_protocol);
        return Ok((String::from_str("adhoc"), c));
    }
    let name = match cluster_name {
        Some(n) => n,
        None => "",
    };
    proof {
        reveal_strlit("");
    }
    assert(name@ == or_empty(cluster_name));
    let found = get_cluster(config, name);
    if found.is_err() && name.unicode_len() == 0 {
        let e = match env_brokers {
            Some(e) => e,
            None => "",
        };
        assert(e@ == or_empty(env_brokers));
        let c = adhoc_config(e, connection, *security_protocol);
        return Ok((String::from_str("adhoc"), c));
    }
    found
}


/// The cluster that a resolution must give, by the documented order, stated
/// over the inputs: `--brokers` gives the ad-hoc cluster of its list; a
/// cluster named by `--cluster` is that cluster when saved, and otherwise
/// the not-found error; with no name, the selected cluster (`local` when
/// none is selected) when saved, and otherwise the ad-hoc cluster of
/// `KFK_BROKERS`, or of the default broker alone when that is absent.
pub open spec fn resolves_as_documented(
    cluster_name: Option<&str>,
    brokers_override: Option<&str>,
    env_brokers: Option<&str>,
    connection: &KafkaConnectionArgs,
    security_protocol: SecurityProtocolType,
    config: AppConfigView,
    r: Result<(Seq<char>, ClusterConfigView), Seq<char>>,
) -> bool {
    let sel = match config.current_cluster {
        Some(c) => c,
        None => "local"@,
    };
    let nm = or_empty(cluster_name);
    let ok = |n: Seq<char>, c: ClusterConfigView| Ok::<(Seq<char>, ClusterConfigView), Seq<char>>((n, c));
    &&& brokers_override is Some ==> (r is Ok && r->Ok_0.0 == "adhoc"@ && r->Ok_0.1.brokers
        == adhoc_brokers(brokers_override.unwrap()@) && r->Ok_0.1.sasl == connection.spec_sasl()
        && r->Ok_0.1.tls == connection.spec_tls())
    &&& brokers_override is None && nm.len() > 0 && config.clusters.dom().contains(nm) ==> r == ok(
        nm,
        config.clusters[nm],
    )
    &&& brokers_override is None && nm.len() > 0 && !config.clusters.dom().contains(nm) ==> r == Err::<
        (Seq<char>, ClusterConfigView),
        Seq<char>,
    >("Cluster '"@ + nm + "' not found"@)
    &&& brokers_override is None && nm.len() == 0 && config.clusters.dom().contains(sel) ==> r == ok(
        sel,
        config.clusters[sel],
    )
    &&& brokers_override is None && nm.len() == 0 && !config.clusters.dom().contains(sel)
        && env_brokers is Some ==> (r is Ok && r->Ok_0.0 == "adhoc"@ && r->Ok_0.1.brokers == adhoc_brokers(
        env_brokers.unwrap()@,
    ))
    &&& brokers_override is None && nm.len() == 0 && !config.clusters.dom().contains(sel)
        && env_brokers is None ==> (r is Ok && r->Ok_0.0 == "adhoc"@ && r->Ok_0.1.brokers == seq![
        "127.0.0.1:9092"@,
    ])
}

/// The resolution follows the documented order of priority (see
/// `resolves_as_documented`): `--brokers`, then the cluster named by
/// `--cluster` (an error when it is not saved), then the selected cluster,
/// then `KFK_BROKERS`, then `127.0.0.1:9092`.
pub proof fn law_resolve_cluster_order(
    cluster_name: Option<&str>,
    brokers_override: Option<&str>,
    env_brokers: Option<&str>,
    connection: &KafkaConnectionArgs,
    security_protocol: SecurityProtocolType,
    config: AppConfigView,
)
    ensures
        resolves_as_documented(
            cluster_name,
            brokers_override,
            env_brokers,
            connection,
            security_protocol,
            config,
            spec_resolve_cluster(
                cluster_name,
                brokers_override,
                env_brokers,
                connection,
                security_protocol,
                config,
            ),
        ),
{
    reveal_strlit("local");
    reveal_strlit("");
    let empty = Seq::<char>::empty();
    assert(split_state(empty, seq![',']).0 =~= Seq::<Seq<char>>::empty());
    assert(split_pieces(empty, seq![',']) =~= seq![empty]);
    assert(trim_ws(empty) =~= empty);
    let listed = split_pieces(empty, seq![',']).map_values(|p: Seq<char>| trim_ws(p));
    assert(listed =~= seq![empty]);
    reveal(Seq::filter);
    let keep = |p: Seq<char>| p.len() > 0;
    assert(listed.drop_last() =~= Seq::<Seq<char>>::empty());
    assert(Seq::<Seq<char>>::empty().filter(keep) =~= Seq::<Seq<char>>::empty());
    assert(!keep(listed.last()));
    assert(listed.filter(keep) =~= Seq::<Seq<char>>::empty());
    reveal_strlit("127.0.0.1:9092");
}

/// With SASL credentials and no TLS, a plain-text ad-hoc cluster is
/// upgraded to SASL_PLAINTEXT.
pub proof fn law_sasl_upgrades_plaintext(brokers: Seq<char>, connection: &KafkaConnectionArgs)
    requires
        connection.spec_sasl() is Some,
        !connection.tls,
    ensures
        adhoc_cluster(brokers, connection, SecurityProtocolType::Plaintext).security_protocol
            == SecurityProtocolType::SaslPlaintext,
{
}

/// With TLS enabled, a plain-text ad-hoc cluster is upgraded to SSL, or to
/// SASL_SSL when SASL credentials are given.
pub proof fn law_tls_upgrades_plaintext(brokers: Seq<char>, connection: &KafkaConnectionArgs)
    requires
        connection.tls,
    ensures
        adhoc_cluster(brokers, connection, SecurityProtocolType::Plaintext).security_protocol == (
        if connection.spec_sasl() is Some {
            SecurityProtocolType::SaslSsl
        } else {
            SecurityProtocolType::Ssl
        }),
        adhoc_cluster(brokers, connection, SecurityProtocolType::Plaintext).tls is Some,
{
}

/// A protocol other than plain text is never changed.
pub proof fn law_explicit_protocol_kept(
    brokers: Seq<char>,
    connection: &KafkaConnectionArgs,
    proto: SecurityProtocolType,
)
    requires
        proto != SecurityProtocolType::Plaintext,
    ensures
        adhoc_cluster(brokers, connection, proto).security_protocol == proto,
{
}

/// An ad-hoc cluster always has at least one broker, and none of its broker
/// addresses is empty.
pub proof fn law_adhoc_brokers_nonempty(brokers: Seq<char>)
    ensures
        adhoc_brokers(brokers).len() > 0,
        forall|i: int| 0 <= i < adhoc_brokers(brokers).len() ==> #[trigger] adhoc_brokers(brokers)[i].len() > 0,
{
    let listed = split_pieces(brokers, seq![',']).map_values(|p: Seq<char>| trim_ws(p));
    let f = listed.filter(|p: Seq<char>| p.len() > 0);
    if f.len() > 0 {
        assert forall|i: int| 0 <= i < f.len() implies #[trigger] f[i].len() > 0 by {
            listed.lemma_filter_pred(|p: Seq<char>| p.len() > 0, i);
        }
    } else {
        reveal_strlit("127.0.0.1:9092");
    }
}

} // verus!
