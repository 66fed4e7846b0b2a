//! What the configuration commands promise together.

use vstd::prelude::*;
use crate::cli::args::KafkaConnectionArgs;
use crate::commands::config::{
    saved_brokers, saved_tls, spec_add_cluster, spec_remove_cluster, spec_select_cluster,
    ConfigOutcomeView,
};
use crate::config::loader::{not_found_message, spec_get_cluster};
use crate::config::model::{
    is_least_name, least_name, AppConfigView, ClusterConfigView, SecurityProtocolType,
};

verus! {

/// The selected cluster, if any, is one of the saved clusters.
pub open spec fn selection_is_saved(c: AppConfigView) -> bool {
    match c.current_cluster {
        Some(n) => c.clusters.dom().contains(n),
        None => true,
    }
}

/// Reading back a cluster just added gives what was added: looking its name
/// up finds it, with the brokers, protocol, SASL and TLS settings that
/// `add-cluster` saved.
pub proof fn law_add_then_get(
    old: AppConfigView,
    name: Seq<char>,
    brokers: Seq<char>,
    proto: SecurityProtocolType,
    auth: &KafkaConnectionArgs,
)
    requires
        name.len() > 0,
        saved_brokers(brokers).len() > 0,
    ensures
        ({
            let (new, out) = spec_add_cluster(old, name, brokers, proto, auth);
            &&& out is Changed
            &&& spec_get_cluster(new, name) == Ok::<(Seq<char>, ClusterConfigView), Seq<char>>((
                name,
                ClusterConfigView {
                    brokers: saved_brokers(brokers),
                    security_protocol: proto,
                    sasl: auth.spec_sasl(),
                    tls: saved_tls(auth, proto),
                },
            ))
        }),
{
}

/// Adding a cluster leaves every other saved cluster as it was.
pub proof fn law_add_keeps_others(
    old: AppConfigView,
    name: Seq<char>,
    brokers: Seq<char>,
    proto: SecurityProtocolType,
    auth: &KafkaConnectionArgs,
    other: Seq<char>,
)
    requires
        other != name,
    ensures
        ({
            let new = spec_add_cluster(old, name, brokers, proto, auth).0;
            &&& new.clusters.dom().contains(other) == old.clusters.dom().contains(other)
            &&& old.clusters.dom().contains(other) ==> new.clusters[other] == old.clusters[other]
        }),
{
}

/// Adding a cluster to a configuration where none is selected selects it.
pub proof fn law_first_add_selects(
    old: AppConfigView,
    name: Seq<char>,
    brokers: Seq<char>,
    proto: SecurityProtocolType,
    auth: &KafkaConnectionArgs,
)
    requires
        old.current_cluster is None,
        saved_brokers(brokers).len() > 0,
    ensures
        spec_add_cluster(old, name, brokers, proto, auth).0.current_cluster == Some(name),
{
}

/// A refused command leaves the configuration unchanged.
pub proof fn law_refusal_changes_nothing(
    old: AppConfigView,
    name: Seq<char>,
    brokers: Seq<char>,
    proto: SecurityProtocolType,
    auth: &KafkaConnectionArgs,
)
    ensures
        spec_add_cluster(old, name, brokers, proto, auth).1 is Refused ==> spec_add_cluster(
            old,
            name,
            brokers,
            proto,
            auth,
        ).0 == old,
        spec_remove_cluster(old, name).1 is Refused ==> spec_remove_cluster(old, name).0 == old,
        spec_select_cluster(old, name).1 is Refused ==> spec_select_cluster(old, name).0 == old,
{
}

/// After selecting a saved cluster, looking up the empty name (the active
/// cluster) finds it.
pub proof fn law_select_then_get_active(old: AppConfigView, name: Seq<char>)
    requires
        old.clusters.dom().contains(name),
    ensures
        spec_get_cluster(spec_select_cluster(old, name).0, Seq::empty()) == Ok::<
            (Seq<char>, ClusterConfigView),
            Seq<char>,
        >((name, old.clusters[name])),
{
}

/// After removing a cluster, looking its name up fails with the not-found
/// message.
pub proof fn law_remove_then_get(old: AppConfigView, name: Seq<char>)
    requires
        name.len() > 0,
    ensures
        spec_get_cluster(spec_remove_cluster(old, name).0, name) == Err::<
            (Seq<char>, ClusterConfigView),
            Seq<char>,
        >(not_found_message(name)),
{
}

/// Every configuration command keeps the selected cluster among the saved
/// ones.
pub proof fn law_selection_stays_saved(
    old: AppConfigView,
    name: Seq<char>,
    brokers: Seq<char>,
    proto: SecurityProtocolType,
    auth: &KafkaConnectionArgs,
)
    requires
        selection_is_saved(old),
        old.clusters.dom().finite(),
    ensures
        selection_is_saved(spec_add_cluster(old, name, brokers, proto, auth).0),
        selection_is_saved(spec_remove_cluster(old, name).0),
        selection_is_saved(spec_select_cluster(old, name).0),
{
    let (new, _) = spec_remove_cluster(old, name);
    if old.clusters.dom().contains(name) && old.current_cluster == Some(name) {
        let rest = old.clusters.remove(name).dom();
        if rest != Set::<Seq<char>>::empty() {
            lemma_least_name_exists(rest);
        }
    }
}

/// A finite non-empty set of names has a least one.
pub proof fn lemma_least_name_exists(names: Set<Seq<char>>)
    requires
        names.finite(),
        names != Set::<Seq<char>>::empty(),
    ensures
        is_least_name(names, least_name(names)),
    decreases names.len(),
{
    let x = names.choose();
    assert(names.contains(x)) by {
        vstd::set_lib::lemma_set_empty_equivalency_len(names);
    }
    let rest = names.remove(x);
    if rest == Set::<Seq<char>>::empty() {
        assert(is_least_name(names, x)) by {
            assert forall|j: Seq<char>| #[trigger] names.contains(j) && j != x implies crate::text::lex_lt(
                crate::text::codes(x),
                crate::text::codes(j),
            ) by {
                assert(rest.contains(j));
            }
        }
    } else {
        lemma_least_name_exists(rest);
        let m = least_name(rest);
        crate::text::lemma_lex_total(crate::text::codes(x), crate::text::codes(m));
        if crate::text::lex_lt(crate::text::codes(x), crate::text::codes(m)) {
            assert(is_least_name(names, x)) by {
                assert forall|j: Seq<char>| #[trigger] names.contains(j) && j != x implies crate::text::lex_lt(
                    crate::text::codes(x),
                    crate::text::codes(j),
                ) by {
                    assert(rest.contains(j));
                    if j != m {
                        crate::text::lemma_lex_transitive(crate::text::codes(x), crate::text::codes(m), crate::text::codes(j));
                    }
                }
            }
        } else {
            if crate::text::codes(x) == crate::text::codes(m) {
                crate::text::lemma_codes_injective(x, m);
            }
            assert(is_least_name(names, m)) by {
                assert forall|j: Seq<char>| #[trigger] names.contains(j) && j != m implies crate::text::lex_lt(
                    crate::text::codes(m),
                    crate::text::codes(j),
                ) by {
                    if j != x {
                        assert(rest.contains(j));
                    }
                }
            }
        }
    }
}

} // verus!
