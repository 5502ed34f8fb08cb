use kubemc::discovery::{parse_kube_url_to_discovery, ApiResourceList, Discovery, Scope};
use kubemc::errors::McError;

const DAEMONSET_LIST: &str = r#"{
  "kind": "APIResourceList",
  "apiVersion": "v1",
  "groupVersion": "apps/v1",
  "resources": [
    {
      "name": "daemonsets",
      "singularName": "",
      "namespaced": true,
      "kind": "DaemonSet",
      "shortNames": ["ds"],
      "verbs": ["create", "delete", "deletecollection", "get", "list", "patch", "update", "watch"]
    },
    {
      "name": "deployments",
      "singularName": "",
      "namespaced": true,
      "kind": "Deployment",
      "verbs": ["get", "list"]
    }
  ]
}"#;

const POD_LIST: &str = r#"{
  "kind": "APIResourceList",
  "apiVersion": "v1",
  "groupVersion": "v1",
  "resources": [
    {
      "name": "pods",
      "singularName": "pod",
      "namespaced": true,
      "kind": "Pod",
      "shortNames": ["po"],
      "verbs": ["get", "list"]
    }
  ]
}"#;

#[test]
fn build_host_path() {
    let hp = parse_kube_url_to_discovery("https://carson.cloud.gravitational.io:443".into())
        .unwrap();
    assert_eq!(hp, "carson.cloud.gravitational.io_443");
}

#[test]
fn host_key_strips_either_scheme_and_slashes() {
    let a = parse_kube_url_to_discovery("https://host:443/".into()).unwrap();
    let b = parse_kube_url_to_discovery("http://host:443".into()).unwrap();
    assert_eq!(a, "host_443");
    assert_eq!(b, "host_443");
}

#[test]
fn host_key_keeps_letters_digits_underscore_dot() {
    let k = parse_kube_url_to_discovery("https://a-b.c_d:8443/x/y".into()).unwrap();
    assert_eq!(k, "a_b.c_d_8443xy");
}

#[test]
fn is_json_checks_the_extension_of_the_final_component() {
    assert!(kubemc::discovery::is_json("/tmp/cache/servergroups.json"));
    assert!(kubemc::discovery::is_json("v1/serverresources.json"));
    assert!(!kubemc::discovery::is_json("/tmp/cache/readme.txt"));
    assert!(!kubemc::discovery::is_json("/tmp/cache/.json"));
    assert!(!kubemc::discovery::is_json("/tmp/dir.json/file.yaml"));
}

#[test]
fn cache_resolves_short_name_to_descriptor() {
    let files = vec![DAEMONSET_LIST.to_string()];
    let discovery = Discovery::from_cache_files(&files);
    let (resource, scope) = discovery.get_resource_from_name("ds").unwrap();
    assert_eq!(resource.kind, "DaemonSet");
    assert_eq!(resource.plural, "daemonsets");
    assert_eq!(resource.group, "apps");
    assert_eq!(resource.version, "v1");
    assert_eq!(resource.api_version, "apps/v1");
    assert!(matches!(scope, Scope::Namespaced));
}

#[test]
fn cache_resolution_is_case_insensitive() {
    let files = vec![DAEMONSET_LIST.to_string()];
    let discovery = Discovery::from_cache_files(&files);
    let lower = discovery.get_resource_from_name("ds").unwrap();
    let upper = discovery.get_resource_from_name("DS").unwrap();
    let mixed = discovery.get_resource_from_name("Ds").unwrap();
    assert_eq!(lower.0.kind, "DaemonSet");
    assert_eq!(upper.0.kind, lower.0.kind);
    assert_eq!(mixed.0.kind, lower.0.kind);
    assert_eq!(upper.0.api_version, lower.0.api_version);
    assert_eq!(mixed.0.plural, lower.0.plural);
}

#[test]
fn cache_resolution_is_idempotent() {
    let files = vec![DAEMONSET_LIST.to_string(), POD_LIST.to_string()];
    let discovery = Discovery::from_cache_files(&files);
    let first = discovery.get_resource_from_name("pods").unwrap();
    let second = discovery.get_resource_from_name("pods").unwrap();
    assert_eq!(first.0.kind, second.0.kind);
    assert_eq!(first.0.group, second.0.group);
    assert_eq!(first.0.version, second.0.version);
    assert_eq!(first.0.api_version, second.0.api_version);
    assert_eq!(first.0.plural, second.0.plural);
    assert_eq!(first.1, second.1);
}

#[test]
fn cache_skips_an_unparsable_file_and_keeps_reading() {
    let files = vec!["{not valid json".to_string(), POD_LIST.to_string()];
    let discovery = Discovery::from_cache_files(&files);
    let (resource, scope) = discovery.get_resource_from_name("pod").unwrap();
    assert_eq!(resource.kind, "Pod");
    assert!(matches!(scope, Scope::Namespaced));
}

#[test]
fn cache_miss_reports_resource_not_found() {
    let files = vec![POD_LIST.to_string()];
    let discovery = Discovery::from_cache_files(&files);
    let err = discovery.get_resource_from_name("nonesuch").unwrap_err();
    assert!(matches!(err, McError::ResourceNotFound(n) if n == "nonesuch"));
}

#[test]
fn listing_document_parses_exactly() {
    let list = ApiResourceList::try_from_str(DAEMONSET_LIST).unwrap();
    assert_eq!(list.kind, "APIResourceList");
    assert_eq!(list.api_version, "v1");
    assert_eq!(list.group_version, "apps/v1");
    assert_eq!(list.resources.len(), 2);
    assert_eq!(list.resources[0].name, "daemonsets");
    assert_eq!(list.resources[0].kind, "DaemonSet");
    assert!(list.resources[0].namespaced);
    assert_eq!(
        list.resources[0].short_names,
        Some(vec!["ds".to_string()])
    );
    assert_eq!(list.resources[1].short_names, None);
}

#[test]
fn listing_document_with_missing_field_is_an_error() {
    let err = ApiResourceList::try_from_str(r#"{"kind": "APIResourceList"}"#).unwrap_err();
    assert!(matches!(err, McError::ParseFailure));
}

#[test]
fn listing_document_with_unknown_verb_is_an_error() {
    let text = r#"{
      "kind": "APIResourceList",
      "apiVersion": "v1",
      "groupVersion": "v1",
      "resources": [
        {"name": "pods", "namespaced": true, "kind": "Pod", "verbs": ["fly"]}
      ]
    }"#;
    let err = ApiResourceList::try_from_str(text).unwrap_err();
    assert!(matches!(err, McError::ParseFailure));
}

#[test]
fn core_group_reads_as_empty() {
    let list = ApiResourceList::try_from_str(POD_LIST).unwrap();
    let entries = list.get_api_resources();
    assert_eq!(entries.len(), 1);
    assert_eq!(entries[0].api_resource.group, "");
    assert_eq!(entries[0].api_resource.api_version, "v1");
    assert_eq!(
        entries[0].kind,
        vec!["pod".to_string(), "pods".to_string(), "po".to_string()]
    );
}
