use kubemc::config::{Cluster, Clusterset, Config, ConnectOptions};
use kubemc::errors::McError;
use kubemc::kubeconfig::{
    get_cluster_endpoint, get_cluster_from_context, get_server_endpoint_from_kubeconfig,
    Kubeconfig, NamedCluster, NamedContext,
};

fn sample_config() -> Config {
    Config {
        api_version: "kubemc/v1alpha1".to_string(),
        current_clusterset: "prod".to_string(),
        clustersets: vec![
            Clusterset {
                name: "dev".to_string(),
                namespace: "dev-ns".to_string(),
                clusters: vec![],
            },
            Clusterset {
                name: "prod".to_string(),
                namespace: "prod-ns".to_string(),
                clusters: vec![Cluster {
                    name: "p1".to_string(),
                    cluster: Some("p1-cluster".to_string()),
                    user: Some("p1-user".to_string()),
                    context: None,
                }],
            },
        ],
    }
}

fn sample_kubeconfig() -> Kubeconfig {
    Kubeconfig {
        contexts: vec![
            NamedContext {
                name: "ctx-a".to_string(),
                cluster: Some("cluster-a".to_string()),
            },
            NamedContext { name: "ctx-none".to_string(), cluster: None },
        ],
        clusters: vec![
            NamedCluster {
                name: "cluster-a".to_string(),
                server: Some("https://a.example:6443".to_string()),
            },
            NamedCluster { name: "cluster-bare".to_string(), server: None },
        ],
    }
}

#[test]
fn active_clusterset_finds_the_current_one() {
    let config = sample_config();
    let cs = config.active_clusterset().unwrap();
    assert_eq!(cs.name, "prod");
    assert_eq!(cs.clusters.len(), 1);
}

#[test]
fn active_clusterset_errs_when_the_name_is_unknown() {
    let mut config = sample_config();
    config.current_clusterset = "staging".to_string();
    let err = config.active_clusterset().unwrap_err();
    assert!(matches!(err, McError::ClustersetNotFound(n) if n == "staging"));
}

#[test]
fn active_namespace_comes_from_the_active_clusterset() {
    let config = sample_config();
    assert_eq!(config.active_namespace().unwrap(), "prod-ns");
}

#[test]
fn set_namespace_updates_only_the_active_clusterset() {
    let mut config = sample_config();
    config.set_namespace("edge").unwrap();
    assert_eq!(config.clustersets[0].namespace, "dev-ns");
    assert_eq!(config.clustersets[1].namespace, "edge");
}

#[test]
fn set_namespace_errs_and_changes_nothing_without_a_match() {
    let mut config = sample_config();
    config.current_clusterset = "gone".to_string();
    let err = config.set_namespace("edge").unwrap_err();
    assert!(matches!(err, McError::ClustersetNotFound(_)));
    assert_eq!(config.clustersets[1].namespace, "prod-ns");
}

#[test]
fn default_config_is_empty_at_the_current_version() {
    let config = Config::default();
    assert_eq!(config.api_version, "kubemc/v1alpha1");
    assert_eq!(config.current_clusterset, "");
    assert!(config.clustersets.is_empty());
}

#[test]
fn sample_config_offers_one_placeholder_clusterset() {
    let config = Config::sample();
    assert_eq!(config.current_clusterset, "clusterset1");
    assert_eq!(config.clustersets.len(), 1);
    assert_eq!(config.clustersets[0].namespace, "default");
    assert_eq!(config.clustersets[0].clusters[0].cluster.as_deref(), Some("CLUSTER"));
    assert_eq!(config.clustersets[0].clusters[0].user.as_deref(), Some("USER"));
    assert_eq!(config.clustersets[0].clusters[0].context, None);
}

#[test]
fn connect_options_carry_the_cluster_coordinates() {
    let cluster = Cluster {
        name: "p1".to_string(),
        cluster: Some("p1-cluster".to_string()),
        user: Some("p1-user".to_string()),
        context: None,
    };
    let options = ConnectOptions::from(cluster);
    assert_eq!(options.cluster.as_deref(), Some("p1-cluster"));
    assert_eq!(options.user.as_deref(), Some("p1-user"));
    assert_eq!(options.context, None);
}

#[test]
fn context_lookup_names_its_cluster() {
    let kc = sample_kubeconfig();
    assert_eq!(get_cluster_from_context(&kc, "ctx-a").unwrap(), "cluster-a");
    let err = get_cluster_from_context(&kc, "ctx-none").unwrap_err();
    assert!(matches!(err, McError::ContextNotFound(_)));
    let err = get_cluster_from_context(&kc, "missing").unwrap_err();
    assert!(matches!(err, McError::ContextNotFound(n) if n == "missing"));
}

#[test]
fn server_lookup_names_its_endpoint() {
    let kc = sample_kubeconfig();
    assert_eq!(
        get_server_endpoint_from_kubeconfig(&kc, "cluster-a").unwrap(),
        "https://a.example:6443"
    );
    let err = get_server_endpoint_from_kubeconfig(&kc, "cluster-bare").unwrap_err();
    assert!(matches!(err, McError::EndpointNotFound(_)));
}

#[test]
fn endpoint_lookup_goes_by_cluster_then_context() {
    let kc = sample_kubeconfig();
    let by_cluster = ConnectOptions {
        context: None,
        cluster: Some("cluster-a".to_string()),
        user: None,
    };
    assert_eq!(
        get_cluster_endpoint(&kc, &by_cluster).unwrap(),
        "https://a.example:6443"
    );
    let by_context = ConnectOptions {
        context: Some("ctx-a".to_string()),
        cluster: None,
        user: None,
    };
    assert_eq!(
        get_cluster_endpoint(&kc, &by_context).unwrap(),
        "https://a.example:6443"
    );
    let neither = ConnectOptions { context: None, cluster: None, user: None };
    let err = get_cluster_endpoint(&kc, &neither).unwrap_err();
    assert!(matches!(err, McError::ClusterUnspecified));
}
