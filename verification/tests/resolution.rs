use kubemc::discovery::{ApiResource, Discovery, Scope};
use kubemc::errors::McError;
use kubemc::live::{resolve_api_resource, GroupResources};
use kubemc::pipeline::resolve_resource;

fn descriptor(group: &str, kind: &str, plural: &str) -> ApiResource {
    ApiResource {
        group: group.to_string(),
        version: "v1".to_string(),
        api_version: if group.is_empty() {
            "v1".to_string()
        } else {
            format!("{}/v1", group)
        },
        kind: kind.to_string(),
        plural: plural.to_string(),
    }
}

#[test]
fn live_discovery_prefers_the_lexicographically_smallest_group() {
    let groups = vec![
        GroupResources {
            name: "extensions".to_string(),
            resources: vec![(
                descriptor("extensions", "Deployment", "deployments"),
                Scope::Namespaced,
            )],
        },
        GroupResources {
            name: "apps".to_string(),
            resources: vec![(
                descriptor("apps", "Deployment", "deployments"),
                Scope::Namespaced,
            )],
        },
    ];
    let (resource, _scope) = resolve_api_resource(&groups, "deployment").unwrap();
    assert_eq!(resource.group, "apps");
}

#[test]
fn live_discovery_matches_kind_and_plural_case_insensitively() {
    let groups = vec![GroupResources {
        name: "".to_string(),
        resources: vec![(descriptor("", "Pod", "pods"), Scope::Namespaced)],
    }];
    assert!(resolve_api_resource(&groups, "POD").is_some());
    assert!(resolve_api_resource(&groups, "PODS").is_some());
    // No short-name support on the live path.
    assert!(resolve_api_resource(&groups, "po").is_none());
}

#[test]
fn resolver_prefers_the_cache_over_live_discovery() {
    let cache_file = r#"{
      "kind": "APIResourceList",
      "apiVersion": "v1",
      "groupVersion": "cached/v1",
      "resources": [
        {"name": "widgets", "namespaced": true, "kind": "Widget", "verbs": ["list"]}
      ]
    }"#;
    let files = vec![cache_file.to_string()];
    let cache = Discovery::from_cache_files(&files);
    let groups = vec![GroupResources {
        name: "live".to_string(),
        resources: vec![(descriptor("live", "Widget", "widgets"), Scope::Cluster)],
    }];
    let (resource, _) = resolve_resource(Some(&cache), Some(&groups), "widget").unwrap();
    assert_eq!(resource.group, "cached");
}

#[test]
fn resolver_falls_through_to_live_discovery_on_a_cache_miss() {
    let files: Vec<String> = Vec::new();
    let cache = Discovery::from_cache_files(&files);
    let groups = vec![GroupResources {
        name: "apps".to_string(),
        resources: vec![(
            descriptor("apps", "Deployment", "deployments"),
            Scope::Namespaced,
        )],
    }];
    let (resource, _) = resolve_resource(Some(&cache), Some(&groups), "deployment").unwrap();
    assert_eq!(resource.group, "apps");
}

#[test]
fn resolver_reports_not_found_when_both_paths_miss() {
    let err = resolve_resource(None, None, "pods").unwrap_err();
    assert!(matches!(err, McError::ResourceNotFound(n) if n == "pods"));
}
