//! The multicluster configuration: named clustersets of cluster targets, a
//! current clusterset, and a default namespace per clusterset. Reading and
//! writing the configuration file is a collaborator outside this crate; the
//! rules over the loaded value live here.
use vstd::prelude::*;

use crate::errors::McError;
use crate::strutil;

verus! {

/// One cluster target: a display name and the connection coordinates the
/// external connection-config resolver understands. This crate only reads
/// them.
#[derive(Debug)]
pub struct Cluster {
    /// The name used to associate cluster output with.
    pub name: String,
    /// The cluster to use, as the connection config defines it.
    pub cluster: Option<String>,
    /// The user to connect as, as the connection config defines it.
    pub user: Option<String>,
    /// A context naming both a cluster and a user at once.
    pub context: Option<String>,
}

pub struct ClusterView {
    pub name: Seq<char>,
    pub cluster: Option<Seq<char>>,
    pub user: Option<Seq<char>>,
    pub context: Option<Seq<char>>,
}

pub open spec fn opt_view(o: Option<String>) -> Option<Seq<char>> {
    match o {
        Some(s) => Some(s@),
        None => None,
    }
}

impl View for Cluster {
    type V = ClusterView;

    open spec fn view(&self) -> ClusterView {
        ClusterView {
            name: self.name@,
            cluster: opt_view(self.cluster),
            user: opt_view(self.user),
            context: opt_view(self.context),
        }
    }
}

impl Clone for Cluster {
    fn clone(&self) -> (r: Self)
        ensures
            r@ == self@,
    {
        Cluster {
            name: self.name.clone(),
            cluster: clone_opt_string(&self.cluster),
            user: clone_opt_string(&self.user),
            context: clone_opt_string(&self.context),
        }
    }
}

fn clone_opt_string(o: &Option<String>) -> (r: Option<String>)
    ensures
        opt_view(r) == opt_view(*o),
{
    match o {
        Some(s) => Some(s.clone()),
        None => None,
    }
}

/// A named set of clusters queried together, with the namespace its
/// namespaced queries default to.
#[derive(Debug)]
pub struct Clusterset {
    pub name: String,
    /// Active namespace for namespaced objects.
    pub namespace: String,
    /// Clusters to query as part of the clusterset.
    pub clusters: Vec<Cluster>,
}

pub struct ClustersetView {
    pub name: Seq<char>,
    pub namespace: Seq<char>,
    pub clusters: Seq<ClusterView>,
}

impl View for Clusterset {
    type V = ClustersetView;

    open spec fn view(&self) -> ClustersetView {
        ClustersetView {
            name: self.name@,
            namespace: self.namespace@,
            clusters: self.clusters@.map_values(|c: Cluster| c@),
        }
    }
}

/// The whole configuration: the clustersets available and which one is
/// current.
#[derive(Debug)]
pub struct Config {
    /// Version of the multicluster config format.
    pub api_version: String,
    /// Clusterset to use by default.
    pub current_clusterset: String,
    /// Clustersets available to use.
    pub clustersets: Vec<Clusterset>,
}

pub struct ConfigView {
    pub api_version: Seq<char>,
    pub current_clusterset: Seq<char>,
    pub clustersets: Seq<ClustersetView>,
}

impl View for Config {
    type V = ConfigView;

    open spec fn view(&self) -> ConfigView {
        ConfigView {
            api_version: self.api_version@,
            current_clusterset: self.current_clusterset@,
            clustersets: self.clustersets@.map_values(|c: Clusterset| c@),
        }
    }
}

/// The position of the first clusterset bearing `name`, if any.
pub open spec fn find_clusterset(css: Seq<ClustersetView>, name: Seq<char>) -> Option<int>
    decreases css.len(),
{
    if css.len() == 0 {
        None
    } else if css[0].name == name {
        Some(0)
    } else {
        match find_clusterset(css.drop_first(), name) {
            Some(i) => Some(i + 1),
            None => None,
        }
    }
}

impl Config {
    /// The clusterset the configuration currently selects: the first one
    /// whose name equals `current_clusterset`. Errs exactly when none does.
    pub fn active_clusterset(&self) -> (r: Result<&Clusterset, McError>)
        ensures
            match r {
                Ok(cs) => find_clusterset(self@.clustersets, self@.current_clusterset) matches
                    Some(i) && cs@ == self@.clustersets[i],
                Err(e) => find_clusterset(self@.clustersets, self@.current_clusterset) is None && (
                e matches McError::ClustersetNotFound(n) && n@ == self@.current_clusterset),
            },
    {
        let ghost css = self@.clustersets;
        let mut i: usize = 0;
        proof {
            assert(css.skip(0) =~= css);
        }
        while i < self.clustersets.len()
            invariant
                css == self@.clustersets,
                css.len() == self.clustersets@.len(),
                forall|j: int|
                    0 <= j < self.clustersets@.len() ==> css[j]
                        == #[trigger] self.clustersets@[j]@,
                i <= self.clustersets@.len(),
                (match find_clusterset(css.skip(i as int), self@.current_clusterset) {
                    Some(k) => find_clusterset(css, self@.current_clusterset) == Some(
                        k + i as int,
                    ),
                    None => find_clusterset(css, self@.current_clusterset) is None,
                }),
            decreases self.clustersets@.len() - i,
        {
            proof {
                assert(css.skip(i as int)[0] == css[i as int]);
                assert(css.skip(i as int).drop_first() =~= css.skip(i + 1 as int));
            }
            if strutil::str_eq(
                self.clustersets[i].name.as_str(),
                self.current_clusterset.as_str(),
            ) {
                return Ok(&self.clustersets[i]);
            }
            i += 1;
        }
        proof {
            assert(css.skip(i as int) =~= Seq::<ClustersetView>::empty());
        }
        Err(McError::ClustersetNotFound(self.current_clusterset.clone()))
    }

    /// The namespace the active clusterset defaults to.
    pub fn active_namespace(&self) -> (r: Result<String, McError>)
        ensures
            match r {
                Ok(ns) => find_clusterset(self@.clustersets, self@.current_clusterset) matches
                    Some(i) && ns@ == self@.clustersets[i].namespace,
                Err(e) => find_clusterset(self@.clustersets, self@.current_clusterset) is None && (
                e matches McError::ClustersetNotFound(n) && n@ == self@.current_clusterset),
            },
    {
        match self.active_clusterset() {
            Ok(cs) => Ok(cs.namespace.clone()),
            Err(e) => Err(e),
        }
    }

    /// Replaces the active clusterset's namespace, leaving everything else
    /// as it was. Errs, and changes nothing, exactly when no clusterset
    /// bears the current name.
    pub fn set_namespace(&mut self, ns: &str) -> (r: Result<(), McError>)
        ensures
            match r {
                Ok(_) => find_clusterset(old(self)@.clustersets, old(self)@.current_clusterset)
                    matches Some(i) && final(self)@.clustersets == old(self)@.clustersets.update(
                    i,
                    ClustersetView {
                        namespace: ns@,
                        ..old(self)@.clustersets[i]
                    },
                ) && final(self)@.api_version == old(self)@.api_version
                    && final(self)@.current_clusterset == old(self)@.current_clusterset,
                Err(e) => find_clusterset(old(self)@.clustersets, old(self)@.current_clusterset)
                    is None && final(self)@ == old(self)@ && (e matches
                McError::ClustersetNotFound(n) && n@ == old(self)@.current_clusterset),
            },
    {
        let ghost css = old(self)@.clustersets;
        let ghost current = old(self)@.current_clusterset;
        let mut i: usize = 0;
        proof {
            assert(css.skip(0) =~= css);
        }
        while i < self.clustersets.len()
            invariant
                *self == *old(self),
                css == old(self)@.clustersets,
                current == old(self)@.current_clusterset,
                css.len() == self.clustersets@.len(),
                forall|j: int|
                    0 <= j < self.clustersets@.len() ==> css[j]
                        == #[trigger] self.clustersets@[j]@,
                i <= self.clustersets@.len(),
                (match find_clusterset(css.skip(i as int), current) {
                    Some(k) => find_clusterset(css, current) == Some(k + i as int),
                    None => find_clusterset(css, current) is None,
                }),
            decreases self.clustersets@.len() - i,
        {
            proof {
                assert(css.skip(i as int)[0] == css[i as int]);
                assert(css.skip(i as int).drop_first() =~= css.skip(i + 1 as int));
            }
            if strutil::str_eq(
                self.clustersets[i].name.as_str(),
                self.current_clusterset.as_str(),
            ) {
                assert(find_clusterset(css, current) == Some(i as int));
                self.clustersets[i].namespace = ns.to_owned();
                proof {
                    assert(final(self)@.clustersets =~= css.update(
                        i as int,
                        ClustersetView { namespace: ns@, ..css[i as int] },
                    ));
                }
                return Ok(());
            }
            i += 1;
        }
        proof {
            assert(css.skip(i as int) =~= Seq::<ClustersetView>::empty());
        }
        Err(McError::ClustersetNotFound(self.current_clusterset.clone()))
    }
}

impl Config {
    /// The example configuration offered to a new user: one clusterset of
    /// one cluster, with placeholder connection coordinates.
    pub fn sample() -> (r: Config)
        ensures
            r@.api_version == "kubemc/v1alpha1"@,
            r@.current_clusterset == "clusterset1"@,
            r@.clustersets.len() == 1,
            r@.clustersets[0].name == "clusterset1"@,
            r@.clustersets[0].namespace == "default"@,
            r@.clustersets[0].clusters.len() == 1,
            r@.clustersets[0].clusters[0].name == "cluster1"@,
            r@.clustersets[0].clusters[0].cluster == Some("CLUSTER"@),
            r@.clustersets[0].clusters[0].user == Some("USER"@),
            r@.clustersets[0].clusters[0].context is None,
    {
        let cluster = Cluster {
            name: "cluster1".to_owned(),
            cluster: Some("CLUSTER".to_owned()),
            user: Some("USER".to_owned()),
            context: None,
        };
        let mut clusters: Vec<Cluster> = Vec::new();
        clusters.push(cluster);
        let clusterset = Clusterset {
            name: "clusterset1".to_owned(),
            namespace: "default".to_owned(),
            clusters,
        };
        let mut clustersets: Vec<Clusterset> = Vec::new();
        clustersets.push(clusterset);
        Config {
            api_version: "kubemc/v1alpha1".to_owned(),
            current_clusterset: "clusterset1".to_owned(),
            clustersets,
        }
    }
}

impl Default for Config {
    /// An empty configuration at the current format version, selecting no
    /// clusterset.
    fn default() -> (r: Self)
        ensures
            r@.api_version == "kubemc/v1alpha1"@,
            r@.current_clusterset == Seq::<char>::empty(),
            r@.clustersets == Seq::<ClustersetView>::empty(),
    {
        proof {
            reveal_strlit("");
        }
        let r = Config {
            api_version: "kubemc/v1alpha1".to_owned(),
            current_clusterset: "".to_owned(),
            clustersets: Vec::new(),
        };
        assert(r@.clustersets =~= Seq::<ClustersetView>::empty());
        assert(r@.current_clusterset =~= Seq::<char>::empty());
        r
    }
}

/// The connection coordinates one target hands to the external connection
/// config resolver: either a context, or a cluster and user pair.
#[derive(Debug)]
pub struct ConnectOptions {
    pub context: Option<String>,
    pub cluster: Option<String>,
    pub user: Option<String>,
}

pub struct ConnectOptionsView {
    pub context: Option<Seq<char>>,
    pub cluster: Option<Seq<char>>,
    pub user: Option<Seq<char>>,
}

impl View for ConnectOptions {
    type V = ConnectOptionsView;

    open spec fn view(&self) -> ConnectOptionsView {
        ConnectOptionsView {
            context: opt_view(self.context),
            cluster: opt_view(self.cluster),
            user: opt_view(self.user),
        }
    }
}

impl From<Cluster> for ConnectOptions {
    fn from(c: Cluster) -> (r: Self) {
        ConnectOptions { context: c.context, cluster: c.cluster, user: c.user }
    }
}

impl vstd::std_specs::convert::FromSpecImpl<Cluster> for ConnectOptions {
    open spec fn obeys_from_spec() -> bool {
        true
    }

    open spec fn from_spec(c: Cluster) -> Self {
        ConnectOptions { context: c.context, cluster: c.cluster, user: c.user }
    }
}

} // verus!
