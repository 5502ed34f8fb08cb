use kubemc::json::JsonValue;
use kubemc::output::{
    convert_list_response_to_table, format_age, Condition, ContainerState, DefaultOutput,
    DeploymentOutput, KubeOutput, NodeOutput, PodOutput, ServiceOutput, Status,
};
use kubemc::pipeline::ListResponse;

// 2023-01-01T00:00:00Z as seconds since the Unix epoch.
const NEW_YEAR_2023: i64 = 1672531200;

fn str_value(s: &str) -> JsonValue {
    JsonValue::Str(s.to_string())
}

fn object(fields: Vec<(&str, JsonValue)>) -> JsonValue {
    JsonValue::Object(
        fields.into_iter().map(|(k, v)| (k.to_string(), v)).collect(),
    )
}

fn metadata(name: &str) -> (&'static str, JsonValue) {
    (
        "metadata",
        object(vec![
            ("name", str_value(name)),
            ("creationTimestamp", str_value("2023-01-01T00:00:00Z")),
        ]),
    )
}

#[test]
fn ages_format_the_short_way() {
    assert_eq!(format_age(59), "59s");
    assert_eq!(format_age(90), "1m30s");
    assert_eq!(format_age(5400), "1h30m");
    assert_eq!(format_age(2 * 86400), "48h0m");
    assert_eq!(format_age(3 * 86400 + 4 * 3600 + 300), "3d4h");
    assert_eq!(format_age(-5), "-5s");
    assert_eq!(format_age(0), "0s");
}

#[test]
fn pod_rows_carry_phase_restarts_ip_and_node() {
    let pod = object(vec![
        metadata("web-1"),
        (
            "status",
            object(vec![
                ("phase", str_value("Running")),
                (
                    "containerStatuses",
                    JsonValue::Array(vec![
                        object(vec![
                            ("ready", JsonValue::Bool(true)),
                            ("restartCount", JsonValue::Number("2".to_string())),
                        ]),
                        object(vec![
                            ("ready", JsonValue::Bool(false)),
                            ("restartCount", JsonValue::Number("3".to_string())),
                        ]),
                    ]),
                ),
                ("podIP", str_value("10.0.0.5")),
            ]),
        ),
        ("spec", object(vec![("nodeName", str_value("node-a"))])),
    ]);
    let row = PodOutput::from_object(&pod, NEW_YEAR_2023 + 90);
    assert_eq!(row.name, "web-1");
    assert_eq!(row.status, "Running");
    assert_eq!(row.restarts, "5");
    assert_eq!(row.age, "1m30s");
    assert_eq!(row.ip, "10.0.0.5");
    assert_eq!(row.node, "node-a");
}

#[test]
fn pod_rows_without_status_or_spec_show_unknown() {
    let pod = object(vec![metadata("bare")]);
    let row = PodOutput::from_object(&pod, NEW_YEAR_2023);
    assert_eq!(row.status, "Unknown");
    assert_eq!(row.restarts, "");
    assert_eq!(row.ip, "");
    assert_eq!(row.node, "");
}

#[test]
fn node_rows_read_readiness_and_system_info() {
    let node = object(vec![
        metadata("node-a"),
        (
            "status",
            object(vec![
                (
                    "conditions",
                    JsonValue::Array(vec![
                        object(vec![
                            ("type", str_value("MemoryPressure")),
                            ("status", str_value("False")),
                        ]),
                        object(vec![
                            ("type", str_value("Ready")),
                            ("status", str_value("True")),
                        ]),
                    ]),
                ),
                (
                    "nodeInfo",
                    object(vec![
                        ("kubeletVersion", str_value("v1.29.1")),
                        ("architecture", str_value("arm64")),
                        ("kernelVersion", str_value("6.6.1")),
                        ("containerRuntimeVersion", str_value("containerd://1.7")),
                    ]),
                ),
            ]),
        ),
    ]);
    let row = NodeOutput::from_object(&node, NEW_YEAR_2023);
    assert_eq!(row.status, "Ready");
    assert_eq!(row.version, "v1.29.1");
    assert_eq!(row.arch, "arm64");
    assert_eq!(row.kernel, "6.6.1");
    assert_eq!(row.container_runtime_version, "containerd://1.7");
}

#[test]
fn node_rows_without_a_ready_condition_show_unknown() {
    let node = object(vec![metadata("node-b"), ("status", object(vec![]))]);
    let row = NodeOutput::from_object(&node, NEW_YEAR_2023);
    assert_eq!(row.status, "Unknown");
    assert_eq!(row.version, "");
}

#[test]
fn deployment_rows_show_replica_counts() {
    let deployment = object(vec![
        metadata("api"),
        (
            "status",
            object(vec![
                ("readyReplicas", JsonValue::Number("2".to_string())),
                ("replicas", JsonValue::Number("3".to_string())),
                ("updatedReplicas", JsonValue::Number("2".to_string())),
                ("availableReplicas", JsonValue::Number("1".to_string())),
            ]),
        ),
        ("spec", object(vec![])),
    ]);
    let row = DeploymentOutput::from_object(&deployment, NEW_YEAR_2023);
    assert_eq!(row.ready, "2/3");
    assert_eq!(row.up_to_date, "2");
    assert_eq!(row.available, "1");
}

#[test]
fn service_rows_join_ports_and_selector() {
    let service = object(vec![
        metadata("svc"),
        (
            "status",
            object(vec![(
                "loadBalancer",
                object(vec![(
                    "ingress",
                    JsonValue::Array(vec![object(vec![("hostname", str_value("lb.example"))])]),
                )]),
            )]),
        ),
        (
            "spec",
            object(vec![
                ("type", str_value("LoadBalancer")),
                ("clusterIP", str_value("10.96.0.10")),
                (
                    "ports",
                    JsonValue::Array(vec![
                        object(vec![
                            ("port", JsonValue::Number("80".to_string())),
                            ("protocol", str_value("TCP")),
                        ]),
                        object(vec![("port", JsonValue::Number("443".to_string()))]),
                    ]),
                ),
                (
                    "selector",
                    object(vec![("app", str_value("web")), ("tier", str_value("front"))]),
                ),
            ]),
        ),
    ]);
    let row = ServiceOutput::from_object(&service, NEW_YEAR_2023);
    assert_eq!(row.type_, "LoadBalancer");
    assert_eq!(row.cluster_ip, "10.96.0.10");
    assert_eq!(row.external_ip, "lb.example");
    assert_eq!(row.ports, "80/TCP,443/");
    assert_eq!(row.selector, "app=web,tier=front");
}

#[test]
fn generic_rows_show_name_and_age() {
    let thing = object(vec![metadata("custom-1")]);
    let row = DefaultOutput::from_object(&thing, NEW_YEAR_2023 + 59);
    assert_eq!(row.name, "custom-1");
    assert_eq!(row.age, "59s");
}

#[test]
fn table_rows_are_stamped_with_their_cluster() {
    let lr = ListResponse {
        clustername: "prod-1".to_string(),
        kind: "Pod".to_string(),
        object_list: vec![object(vec![metadata("web-1"), ("status", object(vec![])), (
            "spec",
            object(vec![]),
        )])],
    };
    let rows = convert_list_response_to_table(&lr, NEW_YEAR_2023);
    assert_eq!(rows.len(), 1);
    match &rows[0] {
        KubeOutput::Pod(p) => {
            assert_eq!(p.clustername, "prod-1");
            assert_eq!(p.name, "web-1");
        },
        _ => panic!("expected a pod row"),
    }
}

#[test]
fn unknown_kinds_fall_back_to_the_generic_row() {
    let lr = ListResponse {
        clustername: "prod-1".to_string(),
        kind: "Widget".to_string(),
        object_list: vec![object(vec![metadata("w-1")])],
    };
    let rows = convert_list_response_to_table(&lr, NEW_YEAR_2023);
    assert!(matches!(&rows[0], KubeOutput::Default_(d) if d.name == "w-1"));
}

#[test]
fn status_counts_ready_containers() {
    let status = Status {
        container_statuses: Some(vec![
            ContainerState { ready: true },
            ContainerState { ready: false },
            ContainerState { ready: true },
        ]),
        phase: Some("Running".to_string()),
        replicas: None,
        conditions: None,
        ready_replicas: None,
    };
    assert_eq!(status.get_ready(), "2/3");
    assert_eq!(status.get_status(), "Running");
}

#[test]
fn status_falls_back_to_replica_counts_and_conditions() {
    let status = Status {
        container_statuses: None,
        phase: None,
        replicas: Some(4),
        conditions: Some(vec![
            Condition { type_: "Ready".to_string(), status: "False".to_string() },
            Condition { type_: "Schedulable".to_string(), status: "True".to_string() },
        ]),
        ready_replicas: Some(3),
    };
    assert_eq!(status.get_ready(), "3/4");
    assert_eq!(status.get_status(), "NotReady");
    assert_eq!(status.display(), "3/4    4");
}
