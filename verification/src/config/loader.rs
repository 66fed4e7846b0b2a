//! Looking a cluster up in the saved configuration.

use vstd::prelude::*;
use crate::config::model::{AppConfig, AppConfigView, ClusterConfig, ClusterConfigView};

verus! {

/// The name of the cluster to use: the one asked for, or when none is asked
/// for the selected one, or `local` when none is selected.
pub open spec fn selected_name(current: Option<Seq<char>>, name: Seq<char>) -> Seq<char> {
    if name.len() == 0 {
        match current {
            Some(c) => c,
            None => "local"@,
        }
    } else {
        name
    }
}

/// The message for a cluster name that the configuration does not hold.
pub open spec fn not_found_message(name: Seq<char>) -> Seq<char> {
    "Cluster '"@ + name + "' not found"@
}

/// The outcome of looking `name` up: the chosen name with its
/// configuration, or the message saying that the name is unknown.
pub open spec fn spec_get_cluster(config: AppConfigView, name: Seq<char>) -> Result<
    (Seq<char>, ClusterConfigView),
    Seq<char>,
> {
    let n = selected_name(config.current_cluster, name);
    if config.clusters.dom().contains(n) {
        Ok((n, config.clusters[n]))
    } else {
        Err(not_found_message(n))
    }
}

/// The content of a named cluster, or of an error message.
pub open spec fn named_cluster_view(r: Result<(String, ClusterConfig), String>) -> Result<
    (Seq<char>, ClusterConfigView),
    Seq<char>,
> {
    match r {
        Ok((n, c)) => Ok((n@, c@)),
        Err(e) => Err(e@),
    }
}

/// Get active cluster config by name (an empty name means the selected
/// cluster, or `local` when none is selected).
pub fn get_cluster(config: &AppConfig, name: &str) -> (r: Result<(String, ClusterConfig), String>)
    ensures
        named_cluster_view(r) == spec_get_cluster(config@, name@),
{
    let cluster_name: String = if name.unicode_len() == 0 {
        match &config.current_cluster {
            Some(c) => c.clone(),
            None => String::from_str("local"),
        }
    } else {
        String::from_str(name)
    };
    match config.clusters.get(cluster_name.as_str()) {
        Some(c) => Ok((cluster_name, c.copy())),
        None => Err(crate::text::concat3("Cluster '", cluster_name.as_str(), "' not found")),
    }
}

} // verus!
