//! The slice of the user's connection config this crate reads to find a
//! server endpoint for a target: named contexts (each naming a cluster) and
//! named clusters (each carrying a server URL). The file itself is loaded by
//! an external collaborator; only these plain values reach the lookup.
use vstd::prelude::*;

use crate::config::{opt_view, ConnectOptions};
use crate::errors::McError;
use crate::strutil;

verus! {

/// A named context: which cluster it points at, where the config gives one.
#[derive(Debug)]
pub struct NamedContext {
    pub name: String,
    pub cluster: Option<String>,
}

pub struct NamedContextView {
    pub name: Seq<char>,
    pub cluster: Option<Seq<char>>,
}

impl View for NamedContext {
    type V = NamedContextView;

    open spec fn view(&self) -> NamedContextView {
        NamedContextView { name: self.name@, cluster: opt_view(self.cluster) }
    }
}

/// A named cluster: its server endpoint, where the config gives one.
#[derive(Debug)]
pub struct NamedCluster {
    pub name: String,
    pub server: Option<String>,
}

pub struct NamedClusterView {
    pub name: Seq<char>,
    pub server: Option<Seq<char>>,
}

impl View for NamedCluster {
    type V = NamedClusterView;

    open spec fn view(&self) -> NamedClusterView {
        NamedClusterView { name: self.name@, server: opt_view(self.server) }
    }
}

/// What the connection config offers: contexts and clusters, in file order.
#[derive(Debug)]
pub struct Kubeconfig {
    pub contexts: Vec<NamedContext>,
    pub clusters: Vec<NamedCluster>,
}

pub struct KubeconfigView {
    pub contexts: Seq<NamedContextView>,
    pub clusters: Seq<NamedClusterView>,
}

impl View for Kubeconfig {
    type V = KubeconfigView;

    open spec fn view(&self) -> KubeconfigView {
        KubeconfigView {
            contexts: self.contexts@.map_values(|c: NamedContext| c@),
            clusters: self.clusters@.map_values(|c: NamedCluster| c@),
        }
    }
}

/// The cluster the first context bearing `name` points at: `None` where no
/// context bears the name or the matching one names no cluster.
pub open spec fn context_cluster(cs: Seq<NamedContextView>, name: Seq<char>) -> Option<Seq<char>>
    decreases cs.len(),
{
    if cs.len() == 0 {
        None
    } else if cs[0].name == name {
        cs[0].cluster
    } else {
        context_cluster(cs.drop_first(), name)
    }
}

/// The server endpoint of the first cluster bearing `name`: `None` where no
/// cluster bears the name or the matching one records no server.
pub open spec fn cluster_server(cs: Seq<NamedClusterView>, name: Seq<char>) -> Option<Seq<char>>
    decreases cs.len(),
{
    if cs.len() == 0 {
        None
    } else if cs[0].name == name {
        cs[0].server
    } else {
        cluster_server(cs.drop_first(), name)
    }
}

/// The cluster name the given context resolves to in the connection config.
pub fn get_cluster_from_context(kubeconfig: &Kubeconfig, ctx: &str) -> (r: Result<String, McError>)
    ensures
        match r {
            Ok(c) => context_cluster(kubeconfig@.contexts, ctx@) == Some(c@),
            Err(e) => context_cluster(kubeconfig@.contexts, ctx@) is None && (e matches
            McError::ContextNotFound(n) && n@ == ctx@),
        },
{
    let ghost cs = kubeconfig@.contexts;
    let mut i: usize = 0;
    proof {
        assert(cs.skip(0) =~= cs);
    }
    while i < kubeconfig.contexts.len()
        invariant
            cs == kubeconfig@.contexts,
            cs.len() == kubeconfig.contexts@.len(),
            forall|j: int|
                0 <= j < kubeconfig.contexts@.len() ==> cs[j]
                    == #[trigger] kubeconfig.contexts@[j]@,
            i <= kubeconfig.contexts@.len(),
            context_cluster(cs, ctx@) == context_cluster(cs.skip(i as int), ctx@),
        decreases kubeconfig.contexts@.len() - i,
    {
        proof {
            assert(cs.skip(i as int)[0] == cs[i as int]);
            assert(cs.skip(i as int).drop_first() =~= cs.skip(i + 1 as int));
        }
        let c = &kubeconfig.contexts[i];
        if strutil::str_eq(c.name.as_str(), ctx) {
            return match &c.cluster {
                Some(cl) => Ok(cl.clone()),
                None => Err(McError::ContextNotFound(ctx.to_owned())),
            };
        }
        i += 1;
    }
    proof {
        assert(cs.skip(i as int) =~= Seq::<NamedContextView>::empty());
    }
    Err(McError::ContextNotFound(ctx.to_owned()))
}

/// The server endpoint the given cluster name resolves to.
pub fn get_server_endpoint_from_kubeconfig(kubeconfig: &Kubeconfig, cluster_name: &str) -> (r:
    Result<String, McError>)
    ensures
        match r {
            Ok(s) => cluster_server(kubeconfig@.clusters, cluster_name@) == Some(s@),
            Err(e) => cluster_server(kubeconfig@.clusters, cluster_name@) is None && (e matches
            McError::EndpointNotFound(n) && n@ == cluster_name@),
        },
{
    let ghost cs = kubeconfig@.clusters;
    let mut i: usize = 0;
    proof {
        assert(cs.skip(0) =~= cs);
    }
    while i < kubeconfig.clusters.len()
        invariant
            cs == kubeconfig@.clusters,
            cs.len() == kubeconfig.clusters@.len(),
            forall|j: int|
                0 <= j < kubeconfig.clusters@.len() ==> cs[j]
                    == #[trigger] kubeconfig.clusters@[j]@,
            i <= kubeconfig.clusters@.len(),
            cluster_server(cs, cluster_name@) == cluster_server(cs.skip(i as int), cluster_name@),
        decreases kubeconfig.clusters@.len() - i,
    {
        proof {
            assert(cs.skip(i as int)[0] == cs[i as int]);
            assert(cs.skip(i as int).drop_first() =~= cs.skip(i + 1 as int));
        }
        let c = &kubeconfig.clusters[i];
        if strutil::str_eq(c.name.as_str(), cluster_name) {
            return match &c.server {
                Some(s) => Ok(s.clone()),
                None => Err(McError::EndpointNotFound(cluster_name.to_owned())),
            };
        }
        i += 1;
    }
    proof {
        assert(cs.skip(i as int) =~= Seq::<NamedClusterView>::empty());
    }
    Err(McError::EndpointNotFound(cluster_name.to_owned()))
}

/// The server endpoint a target's connection coordinates name: through the
/// cluster reference where one is given, else through the context reference,
/// else nothing.
pub fn get_cluster_endpoint(kubeconfig: &Kubeconfig, options: &ConnectOptions) -> (r: Result<
    String,
    McError,
>)
    ensures
        match r {
            Ok(s) => (match options@.cluster {
                Some(cl) => cluster_server(kubeconfig@.clusters, cl) == Some(s@),
                None => options@.context matches Some(cx) && (context_cluster(
                    kubeconfig@.contexts,
                    cx,
                ) matches Some(cl) && cluster_server(kubeconfig@.clusters, cl) == Some(s@)),
            }),
            Err(e) => (match options@.cluster {
                Some(cl) => cluster_server(kubeconfig@.clusters, cl) is None && (e matches
                McError::EndpointNotFound(n) && n@ == cl),
                None => match options@.context {
                    Some(cx) => match context_cluster(kubeconfig@.contexts, cx) {
                        Some(cl) => cluster_server(kubeconfig@.clusters, cl) is None && (e matches
                        McError::EndpointNotFound(n) && n@ == cl),
                        None => e matches McError::ContextNotFound(n) && n@ == cx,
                    },
                    None => e is ClusterUnspecified,
                },
            }),
        },
{
    if let Some(cluster) = &options.cluster {
        get_server_endpoint_from_kubeconfig(kubeconfig, cluster.as_str())
    } else if let Some(ctx) = &options.context {
        match get_cluster_from_context(kubeconfig, ctx.as_str()) {
            Ok(cluster) => get_server_endpoint_from_kubeconfig(kubeconfig, cluster.as_str()),
            Err(e) => Err(e),
        }
    } else {
        Err(McError::ClusterUnspecified)
    }
}

} // verus!
