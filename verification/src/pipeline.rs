//! The fan-out core: the per-target pipeline as a state machine, the
//! cache-then-live resolution policy, the namespace binding decision, and
//! the aggregation of per-target outcomes. One concurrent task per target
//! runs the pipeline; the outside work (connect, live discovery, the list
//! call) happens between steps, and every decision over its results stands
//! here, verified. A failure is terminal for its own target only.
use vstd::prelude::*;

use crate::discovery::{find_match, ApiResource, ApiResourceView, Discovery, DiscoveryResourceView,
    Scope};
use crate::errors::McError;
use crate::json::{json_view_seq, JsonValue, JsonView};
use crate::live::{resolve_live, GroupResources, GroupResourcesView};

verus! {

// ---------------------------------------------------------------------------
// Resolution policy: cache first, live on any cache failure
// ---------------------------------------------------------------------------
pub open spec fn opt_cache_view(c: Option<&Discovery>) -> Option<Seq<DiscoveryResourceView>> {
    match c {
        Some(d) => Some(d@),
        None => None,
    }
}

pub open spec fn opt_groups_view(g: Option<&Vec<GroupResources>>) -> Option<
    Seq<GroupResourcesView>,
> {
    match g {
        Some(v) => Some(v@.map_values(|x: GroupResources| x@)),
        None => None,
    }
}

/// What resolution answers: the cache's first match where the cache is
/// present and holds one, else whatever live discovery answers where a
/// catalog is present, else nothing.
pub open spec fn resolve_spec(
    cache: Option<Seq<DiscoveryResourceView>>,
    groups: Option<Seq<GroupResourcesView>>,
    name: Seq<char>,
) -> Option<(ApiResourceView, Scope)> {
    let from_cache = match cache {
        Some(rs) => find_match(rs, name),
        None => None,
    };
    match from_cache {
        Some(d) => Some((d.api_resource, d.scope)),
        None => match groups {
            Some(gs) => resolve_live(gs, name),
            None => None,
        },
    }
}

/// Resolves a name for one target: the discovery cache first (absent where
/// it could not be read), then the live catalog (absent where none was
/// fetched). The not-found error comes exactly when both paths answer
/// nothing. The ordering is for latency alone: a cache hit avoids the
/// network round trip.
pub fn resolve_resource(
    cache: Option<&Discovery>,
    groups: Option<&Vec<GroupResources>>,
    name: &str,
) -> (r: Result<(ApiResource, Scope), McError>)
    ensures
        match r {
            Ok(p) => resolve_spec(opt_cache_view(cache), opt_groups_view(groups), name@) == Some(
                (p.0@, p.1),
            ),
            Err(e) => resolve_spec(opt_cache_view(cache), opt_groups_view(groups), name@) is None
                && (e matches McError::ResourceNotFound(n) && n@ == name@),
        },
{
    if let Some(d) = cache {
        if let Ok(p) = d.get_resource_from_name(name) {
            return Ok(p);
        }
    }
    if let Some(gs) = groups {
        if let Some(p) = crate::live::resolve_api_resource(gs, name) {
            return Ok(p);
        }
    }
    Err(McError::ResourceNotFound(name.to_owned()))
}

/// A cache hit stands whatever live discovery would have said: a resolution
/// made before the live catalog was fetched agrees with one made after,
/// whenever the first answered. The lazy fetch of the catalog changes no
/// outcome.
pub proof fn lemma_cache_hit_stable(
    cache: Option<Seq<DiscoveryResourceView>>,
    groups: Option<Seq<GroupResourcesView>>,
    name: Seq<char>,
)
    requires
        resolve_spec(cache, None, name) is Some,
    ensures
        resolve_spec(cache, groups, name) == resolve_spec(cache, None, name),
{
}

// ---------------------------------------------------------------------------
// Binding a resolved resource to a namespace
// ---------------------------------------------------------------------------
/// How a client is bound for one target: cluster-wide, or to one namespace.
#[derive(Debug)]
pub enum ClientBinding {
    ClusterWide,
    Namespaced(String),
}

pub open spec fn binding_view(b: ClientBinding) -> Option<Seq<char>> {
    match b {
        ClientBinding::ClusterWide => None,
        ClientBinding::Namespaced(n) => Some(n@),
    }
}

/// The binding a scope calls for: a cluster-scoped resource is bound
/// cluster-wide, ignoring any namespace; a namespaced one is bound to the
/// namespace given.
pub fn binding_for(scope: &Scope, namespace: &str) -> (r: ClientBinding)
    ensures
        match scope {
            Scope::Cluster => r is ClusterWide,
            Scope::Namespaced => binding_view(r) == Some(namespace@),
        },
{
    match scope {
        Scope::Cluster => ClientBinding::ClusterWide,
        Scope::Namespaced => ClientBinding::Namespaced(namespace.to_owned()),
    }
}

/// The namespace a query runs under: the explicitly requested one where
/// present, else the configured default.
pub fn effective_namespace(requested: &Option<String>, default_ns: &str) -> (r: String)
    ensures
        match requested {
            Some(n) => r@ == n@,
            None => r@ == default_ns@,
        },
{
    match requested {
        Some(n) => n.clone(),
        None => default_ns.to_owned(),
    }
}

// ---------------------------------------------------------------------------
// The per-target pipeline as a state machine
// ---------------------------------------------------------------------------
/// What the outside work reports back to one target's pipeline.
#[derive(Debug)]
pub enum PipelineEvent {
    ConnectSucceeded,
    ConnectFailed(McError),
    ResolveSucceeded(ApiResource, Scope),
    ResolveFailed(McError),
    ListReturned(Vec<JsonValue>),
    ListFailed(McError),
}

/// Where one target's pipeline stands. `Listed` and `Failed` are terminal.
#[derive(Debug)]
pub enum PipelineState {
    NotStarted,
    ConnectionEstablished,
    ResourceResolved(ApiResource, Scope),
    Listed(Vec<JsonValue>),
    Failed(McError),
}

pub open spec fn is_terminal(s: PipelineState) -> bool {
    s is Listed || s is Failed
}

/// The pipeline's transitions: connect, resolve, list, in that order, each
/// able to fail terminally; an event out of order changes nothing.
pub open spec fn advance_spec(state: PipelineState, event: PipelineEvent) -> PipelineState {
    match (state, event) {
        (PipelineState::NotStarted, PipelineEvent::ConnectSucceeded) => {
            PipelineState::ConnectionEstablished
        },
        (PipelineState::NotStarted, PipelineEvent::ConnectFailed(e)) => PipelineState::Failed(e),
        (PipelineState::ConnectionEstablished, PipelineEvent::ResolveSucceeded(a, s)) => {
            PipelineState::ResourceResolved(a, s)
        },
        (PipelineState::ConnectionEstablished, PipelineEvent::ResolveFailed(e)) => {
            PipelineState::Failed(e)
        },
        (PipelineState::ResourceResolved(_, _), PipelineEvent::ListReturned(items)) => {
            PipelineState::Listed(items)
        },
        (PipelineState::ResourceResolved(_, _), PipelineEvent::ListFailed(e)) => {
            PipelineState::Failed(e)
        },
        (s, _) => s,
    }
}

/// Drives one target's pipeline one step.
pub fn advance(state: PipelineState, event: PipelineEvent) -> (next: PipelineState)
    ensures
        next == advance_spec(state, event),
{
    match (state, event) {
        (PipelineState::NotStarted, PipelineEvent::ConnectSucceeded) => {
            PipelineState::ConnectionEstablished
        },
        (PipelineState::NotStarted, PipelineEvent::ConnectFailed(e)) => PipelineState::Failed(e),
        (PipelineState::ConnectionEstablished, PipelineEvent::ResolveSucceeded(a, s)) => {
            PipelineState::ResourceResolved(a, s)
        },
        (PipelineState::ConnectionEstablished, PipelineEvent::ResolveFailed(e)) => {
            PipelineState::Failed(e)
        },
        (PipelineState::ResourceResolved(_, _), PipelineEvent::ListReturned(items)) => {
            PipelineState::Listed(items)
        },
        (PipelineState::ResourceResolved(_, _), PipelineEvent::ListFailed(e)) => {
            PipelineState::Failed(e)
        },
        (s, _) => s,
    }
}

/// A terminal state absorbs every further event: once one target has listed
/// or failed, nothing moves it.
pub proof fn lemma_terminal_absorbs(state: PipelineState, event: PipelineEvent)
    requires
        is_terminal(state),
    ensures
        advance_spec(state, event) == state,
{
}

// ---------------------------------------------------------------------------
// Aggregating per-target outcomes
// ---------------------------------------------------------------------------
/// One target's pipeline result short of the list call: who it is, what the
/// name resolved to there, and how the client is to be bound.
#[derive(Debug)]
pub struct ResolvedTarget {
    pub clustername: String,
    pub resource: ApiResource,
    pub scope: Scope,
    pub binding: ClientBinding,
}

pub struct ResolvedTargetView {
    pub clustername: Seq<char>,
    pub resource: ApiResourceView,
    pub scope: Scope,
    pub binding: Option<Seq<char>>,
}

impl View for ResolvedTarget {
    type V = ResolvedTargetView;

    open spec fn view(&self) -> ResolvedTargetView {
        ResolvedTargetView {
            clustername: self.clustername@,
            resource: self.resource@,
            scope: self.scope,
            binding: binding_view(self.binding),
        }
    }
}

/// The multi-cluster client: the targets whose pipelines resolved, and the
/// kind the request is for.
#[derive(Debug)]
pub struct Client {
    /// Kind of the resolved resource, as the renderer labels rows.
    pub kind: String,
    /// One entry per target that resolved, in target order.
    pub targets: Vec<ResolvedTarget>,
}

/// The targets that resolved, in order: the failures leave no entry.
pub open spec fn successes(results: Seq<Option<ResolvedTargetView>>) -> Seq<ResolvedTargetView>
    decreases results.len(),
{
    if results.len() == 0 {
        Seq::empty()
    } else {
        (match results[0] {
            Some(t) => seq![t],
            None => Seq::empty(),
        }) + successes(results.drop_first())
    }
}

/// The kind label the aggregate carries: the last resolved target's kind,
/// empty where every target failed.
pub open spec fn last_kind(results: Seq<Option<ResolvedTargetView>>) -> Seq<char> {
    if successes(results).len() == 0 {
        Seq::empty()
    } else {
        successes(results).last().resource.kind
    }
}

/// Gathers the per-target resolution outcomes into one client: every target
/// that failed any stage is dropped, never aborting a sibling; the rest keep
/// their order.
pub fn collect_clients(results: Vec<Option<ResolvedTarget>>) -> (c: Client)
    ensures
        c.targets@.map_values(|t: ResolvedTarget| t@) == successes(
            results@.map_values(|o: Option<ResolvedTarget>| opt_target_view(o)),
        ),
        c.kind@ == last_kind(results@.map_values(|o: Option<ResolvedTarget>| opt_target_view(o))),
{
    let ghost rv = results@.map_values(|o: Option<ResolvedTarget>| opt_target_view(o));
    let mut kind = String::new();
    let mut targets: Vec<ResolvedTarget> = Vec::new();
    let mut results = results;
    // Walk the outcomes in order, keeping the successes.
    let mut i: usize = 0;
    proof {
        assert(rv.skip(0) =~= rv);
        assert(Seq::<ResolvedTargetView>::empty() + successes(rv) =~= successes(rv));
    }
    let n = results.len();
    while i < n
        invariant
            n == results@.len(),
            rv.len() == results@.len(),
            forall|j: int|
                i <= j < results@.len() ==> rv[j] == opt_target_view(#[trigger] results@[j]),
            i <= n,
            successes(rv) == targets@.map_values(|t: ResolvedTarget| t@) + successes(
                rv.skip(i as int),
            ),
            targets@.len() == 0 ==> kind@ == Seq::<char>::empty(),
            targets@.len() > 0 ==> kind@ == targets@.map_values(|t: ResolvedTarget| t@)
                .last().resource.kind,
        decreases n - i,
    {
        proof {
            assert(rv.skip(i as int)[0] == rv[i as int]);
            assert(rv.skip(i as int).drop_first() =~= rv.skip(i + 1 as int));
        }
        let ghost pre = targets@;
        match take_slot(&mut results, i) {
            Some(t) => {
                kind = t.resource.kind.clone();
                targets.push(t);
                proof {
                    let tv = |t: ResolvedTarget| t@;
                    assert(pre.push(t).map_values(tv) =~= pre.map_values(tv).push(t@));
                    assert(pre.map_values(tv).push(t@) + successes(rv.skip(i + 1 as int))
                        =~= pre.map_values(tv) + (seq![t@] + successes(rv.skip(i + 1 as int))));
                    assert(targets@.map_values(|t: ResolvedTarget| t@) == pre.map_values(tv).push(
                        t@,
                    ));
                }
            },
            None => {
                proof {
                    let tv = |t: ResolvedTarget| t@;
                    assert(pre.map_values(tv) + (Seq::<ResolvedTargetView>::empty() + successes(
                        rv.skip(i + 1 as int),
                    )) =~= pre.map_values(tv) + successes(rv.skip(i + 1 as int)));
                }
            },
        }
        i += 1;
    }
    proof {
        assert(rv.skip(i as int) =~= Seq::<Option<ResolvedTargetView>>::empty());
        assert(targets@.map_values(|t: ResolvedTarget| t@) + Seq::<ResolvedTargetView>::empty()
            =~= targets@.map_values(|t: ResolvedTarget| t@));
    }
    Client { kind, targets }
}

/// One cluster's answer to the list call: where it came from, what kind the
/// rows are, and the objects in the origin server's order. No ordering
/// across clusters is defined.
#[derive(Debug)]
pub struct ListResponse {
    pub clustername: String,
    pub kind: String,
    pub object_list: Vec<JsonValue>,
}

pub struct ListResponseView {
    pub clustername: Seq<char>,
    pub kind: Seq<char>,
    pub object_list: Seq<JsonView>,
}

impl View for ListResponse {
    type V = ListResponseView;

    open spec fn view(&self) -> ListResponseView {
        ListResponseView {
            clustername: self.clustername@,
            kind: self.kind@,
            object_list: json_view_seq(self.object_list@),
        }
    }
}

/// What the fan-out returns for per-cluster list results, in arrival order:
/// one response per cluster whose call returned objects, nothing for one
/// whose call failed.
pub open spec fn collect_spec(
    kind: Seq<char>,
    results: Seq<(Seq<char>, Option<Seq<JsonView>>)>,
) -> Seq<ListResponseView>
    decreases results.len(),
{
    if results.len() == 0 {
        Seq::empty()
    } else {
        (match results[0].1 {
            Some(items) => seq![
                ListResponseView { clustername: results[0].0, kind: kind, object_list: items },
            ],
            None => Seq::empty(),
        }) + collect_spec(kind, results.drop_first())
    }
}

/// How many clusters' list calls came back.
pub open spec fn count_successes(results: Seq<(Seq<char>, Option<Seq<JsonView>>)>) -> int
    decreases results.len(),
{
    if results.len() == 0 {
        0int
    } else {
        (if results[0].1 is Some {
            1int
        } else {
            0int
        }) + count_successes(results.drop_first())
    }
}

/// Of K targets whose list calls ran, with M failures among them, the
/// fan-out returns exactly K minus M responses: one per success, none for a
/// failure, and no failure erases a sibling's answer.
pub proof fn lemma_fanout_counts(kind: Seq<char>, results: Seq<(Seq<char>, Option<Seq<JsonView>>)>)
    ensures
        0 <= count_successes(results) <= results.len(),
        collect_spec(kind, results).len() == count_successes(results),
    decreases results.len(),
{
    if results.len() > 0 {
        lemma_fanout_counts(kind, results.drop_first());
    }
}

pub open spec fn opt_items_view(o: Option<Vec<JsonValue>>) -> Option<Seq<JsonView>> {
    match o {
        Some(items) => Some(json_view_seq(items@)),
        None => None,
    }
}

/// The view of the raw per-cluster results handed back by the list calls.
pub open spec fn results_view(results: Seq<(String, Option<Vec<JsonValue>>)>) -> Seq<
    (Seq<char>, Option<Seq<JsonView>>),
> {
    results.map_values(|p: (String, Option<Vec<JsonValue>>)| (p.0@, opt_items_view(p.1)))
}

/// Gathers the per-cluster list outcomes: a response for every cluster that
/// answered, labelled with the resolved kind, in arrival order; a cluster
/// whose request failed is dropped and aborts nothing.
pub fn collect_list_responses(kind: &str, results: Vec<(String, Option<Vec<JsonValue>>)>) -> (r:
    Vec<ListResponse>)
    ensures
        r@.map_values(|x: ListResponse| x@) == collect_spec(kind@, results_view(results@)),
{
    let ghost rv = results_view(results@);
    let mut out: Vec<ListResponse> = Vec::new();
    let mut results = results;
    let mut i: usize = 0;
    proof {
        assert(rv.skip(0) =~= rv);
        assert(Seq::<ListResponseView>::empty() + collect_spec(kind@, rv) =~= collect_spec(
            kind@,
            rv,
        ));
    }
    let n = results.len();
    while i < n
        invariant
            n == results@.len(),
            rv.len() == results@.len(),
            forall|j: int|
                i <= j < results@.len() ==> rv[j] == (
                    #[trigger] results@[j].0@,
                    opt_items_view(results@[j].1),
                ),
            i <= n,
            collect_spec(kind@, rv) == out@.map_values(|x: ListResponse| x@) + collect_spec(
                kind@,
                rv.skip(i as int),
            ),
        decreases n - i,
    {
        proof {
            assert(rv.skip(i as int)[0] == rv[i as int]);
            assert(rv.skip(i as int).drop_first() =~= rv.skip(i + 1 as int));
        }
        let ghost pre = out@;
        let slot = &mut results[i];
        let name = slot.0.clone();
        match slot.1.take() {
            Some(items) => {
                let resp = ListResponse {
                    clustername: name,
                    kind: kind.to_owned(),
                    object_list: items,
                };
                assert(resp@ == ListResponseView {
                    clustername: rv[i as int].0,
                    kind: kind@,
                    object_list: rv[i as int].1.unwrap(),
                });
                out.push(resp);
                proof {
                    let xv = |x: ListResponse| x@;
                    assert(pre.push(resp).map_values(xv) =~= pre.map_values(xv).push(resp@));
                    assert(pre.map_values(xv).push(resp@) + collect_spec(
                        kind@,
                        rv.skip(i + 1 as int),
                    ) =~= pre.map_values(xv) + (seq![resp@] + collect_spec(
                        kind@,
                        rv.skip(i + 1 as int),
                    )));
                }
            },
            None => {
                proof {
                    let xv = |x: ListResponse| x@;
                    assert(pre.map_values(xv) + (Seq::<ListResponseView>::empty() + collect_spec(
                        kind@,
                        rv.skip(i + 1 as int),
                    )) =~= pre.map_values(xv) + collect_spec(kind@, rv.skip(i + 1 as int)));
                }
            },
        }
        i += 1;
    }
    proof {
        assert(rv.skip(i as int) =~= Seq::<(Seq<char>, Option<Seq<JsonView>>)>::empty());
        assert(out@.map_values(|x: ListResponse| x@) + Seq::<ListResponseView>::empty()
            =~= out@.map_values(|x: ListResponse| x@));
    }
    out
}

pub open spec fn opt_target_view(o: Option<ResolvedTarget>) -> Option<ResolvedTargetView> {
    match o {
        Some(t) => Some(t@),
        None => None,
    }
}

/// Takes one slot's value out of the outcome vector, leaving `None`.
fn take_slot(results: &mut Vec<Option<ResolvedTarget>>, i: usize) -> (r: Option<ResolvedTarget>)
    requires
        i < old(results)@.len(),
    ensures
        r == old(results)@[i as int],
        final(results)@ == old(results)@.update(i as int, None::<ResolvedTarget>),
        opt_target_view(r) == opt_target_view(old(results)@[i as int]),
{
    let slot = &mut results[i];
    slot.take()
}

} // verus!
