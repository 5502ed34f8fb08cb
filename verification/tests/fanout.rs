use kubemc::discovery::{ApiResource, Scope};
use kubemc::errors::McError;
use kubemc::json::JsonValue;
use kubemc::pipeline::{
    advance, binding_for, collect_clients, collect_list_responses, effective_namespace,
    ClientBinding, PipelineEvent, PipelineState, ResolvedTarget,
};

fn descriptor(kind: &str, plural: &str) -> ApiResource {
    ApiResource {
        group: "apps".to_string(),
        version: "v1".to_string(),
        api_version: "apps/v1".to_string(),
        kind: kind.to_string(),
        plural: plural.to_string(),
    }
}

fn item(name: &str) -> JsonValue {
    JsonValue::Object(vec![(
        "metadata".to_string(),
        JsonValue::Object(vec![("name".to_string(), JsonValue::Str(name.to_string()))]),
    )])
}

#[test]
fn fanout_returns_one_outcome_per_surviving_target() {
    // Three targets; the middle one's call fails and is simply dropped.
    let results: Vec<(String, Option<Vec<JsonValue>>)> = vec![
        ("a".to_string(), Some(vec![item("x")])),
        ("b".to_string(), None),
        ("c".to_string(), Some(vec![item("y"), item("z")])),
    ];
    let outcomes = collect_list_responses("Pod", results);
    assert_eq!(outcomes.len(), 2);
    assert_eq!(outcomes[0].clustername, "a");
    assert_eq!(outcomes[0].kind, "Pod");
    assert_eq!(outcomes[0].object_list.len(), 1);
    assert_eq!(outcomes[1].clustername, "c");
    assert_eq!(outcomes[1].object_list.len(), 2);
}

#[test]
fn fanout_with_every_target_failed_returns_an_empty_result() {
    let results: Vec<(String, Option<Vec<JsonValue>>)> =
        vec![("a".to_string(), None), ("b".to_string(), None)];
    let outcomes = collect_list_responses("Pod", results);
    assert_eq!(outcomes.len(), 0);
}

#[test]
fn client_aggregation_keeps_successes_and_the_last_kind() {
    let ok = |name: &str, kind: &str| {
        Some(ResolvedTarget {
            clustername: name.to_string(),
            resource: descriptor(kind, "deployments"),
            scope: Scope::Namespaced,
            binding: ClientBinding::Namespaced("default".to_string()),
        })
    };
    let results = vec![ok("a", "Deployment"), None, ok("c", "Deployment")];
    let client = collect_clients(results);
    assert_eq!(client.kind, "Deployment");
    assert_eq!(client.targets.len(), 2);
    assert_eq!(client.targets[0].clustername, "a");
    assert_eq!(client.targets[1].clustername, "c");
}

#[test]
fn client_aggregation_of_no_successes_is_empty() {
    let client = collect_clients(vec![None, None]);
    assert_eq!(client.kind, "");
    assert_eq!(client.targets.len(), 0);
}

#[test]
fn pipeline_walks_connect_resolve_list() {
    let s = PipelineState::NotStarted;
    let s = advance(s, PipelineEvent::ConnectSucceeded);
    assert!(matches!(s, PipelineState::ConnectionEstablished));
    let s = advance(
        s,
        PipelineEvent::ResolveSucceeded(descriptor("Pod", "pods"), Scope::Namespaced),
    );
    assert!(matches!(s, PipelineState::ResourceResolved(_, _)));
    let s = advance(s, PipelineEvent::ListReturned(vec![item("x")]));
    assert!(matches!(s, PipelineState::Listed(items) if items.len() == 1));
}

#[test]
fn pipeline_failure_is_terminal_for_its_own_target() {
    let s = PipelineState::NotStarted;
    let s = advance(
        s,
        PipelineEvent::ConnectFailed(McError::Connection("unreachable".to_string())),
    );
    assert!(matches!(s, PipelineState::Failed(_)));
    let s = advance(s, PipelineEvent::ConnectSucceeded);
    assert!(matches!(s, PipelineState::Failed(_)));
}

#[test]
fn cluster_scoped_binding_ignores_the_namespace() {
    let b = binding_for(&Scope::Cluster, "default");
    assert!(matches!(b, ClientBinding::ClusterWide));
    let b = binding_for(&Scope::Namespaced, "kube-system");
    assert!(matches!(b, ClientBinding::Namespaced(ns) if ns == "kube-system"));
}

#[test]
fn requested_namespace_overrides_the_default() {
    let requested = Some("monitoring".to_string());
    assert_eq!(effective_namespace(&requested, "default"), "monitoring");
    assert_eq!(effective_namespace(&None, "default"), "default");
}
