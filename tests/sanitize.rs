use ketchup::json::{Json, Number};
use ketchup::output::{
    get_resource_identifier, prepare_resources, sanitize_for_output, NamespaceStats,
    SanitizationOutcome, SanitizationStats,
};
use ketchup::sanitize::{sanitize_resource_for_apply, SanitizeError};

fn text(s: &str) -> Json {
    Json::Str(s.to_string())
}

fn num(n: u64) -> Json {
    Json::Num(Number::PosInt(n))
}

fn obj(members: Vec<(&str, Json)>) -> Json {
    Json::Object(members.into_iter().map(|(k, v)| (k.to_string(), v)).collect())
}

fn keys(j: &Json) -> Vec<String> {
    match j {
        Json::Object(es) => es.iter().map(|(k, _)| k.clone()).collect(),
        _ => panic!("not an object"),
    }
}

fn member<'a>(j: &'a Json, k: &str) -> Option<&'a Json> {
    match j {
        Json::Object(es) => es.iter().find(|(key, _)| key == k).map(|(_, v)| v),
        _ => None,
    }
}

fn service(node_port: u64) -> Json {
    obj(vec![
        ("kind", text("Service")),
        ("metadata", obj(vec![("name", text("web"))])),
        (
            "spec",
            obj(vec![
                ("clusterIP", text("10.0.0.1")),
                ("clusterIPs", Json::Array(vec![text("10.0.0.1")])),
                ("type", text("NodePort")),
                (
                    "ports",
                    Json::Array(vec![obj(vec![("port", num(80)), ("nodePort", num(node_port))])]),
                ),
            ]),
        ),
    ])
}

fn first_port(doc: &Json) -> Json {
    let spec = member(doc, "spec").unwrap();
    match member(spec, "ports").unwrap() {
        Json::Array(items) => items[0].clone_deep(),
        _ => panic!("ports is not an array"),
    }
}

trait DeepClone {
    fn clone_deep(&self) -> Json;
}

impl DeepClone for Json {
    fn clone_deep(&self) -> Json {
        match self {
            Json::Null => Json::Null,
            Json::Bool(b) => Json::Bool(*b),
            Json::Num(n) => Json::Num(n.clone()),
            Json::Str(s) => Json::Str(s.clone()),
            Json::Array(v) => Json::Array(v.iter().map(|x| x.clone_deep()).collect()),
            Json::Object(es) => {
                Json::Object(es.iter().map(|(k, v)| (k.clone(), v.clone_deep())).collect())
            }
        }
    }
}

fn deployment_doc() -> Json {
    obj(vec![
        ("apiVersion", text("apps/v1")),
        ("kind", text("Deployment")),
        (
            "metadata",
            obj(vec![
                ("name", text("web")),
                ("namespace", text("default")),
                ("uid", text("1234")),
                ("resourceVersion", text("99")),
                ("creationTimestamp", text("2024-01-01T00:00:00Z")),
                ("generation", num(3)),
                ("managedFields", Json::Array(vec![])),
                ("selfLink", text("/apis/apps/v1/deployments/web")),
                (
                    "annotations",
                    obj(vec![
                        ("kubectl.kubernetes.io/last-applied-configuration", text("{}")),
                        ("deployment.kubernetes.io/revision", text("2")),
                        ("team", text("blue")),
                    ]),
                ),
                (
                    "finalizers",
                    Json::Array(vec![text("kubernetes.io/pvc-protection"), text("example.com/keep")]),
                ),
            ]),
        ),
        ("spec", obj(vec![("replicas", num(2))])),
        ("status", obj(vec![("readyReplicas", num(2))])),
    ])
}

#[test]
fn sanitize_removes_status_and_assigned_metadata() {
    let out = sanitize_resource_for_apply(&deployment_doc()).unwrap();
    assert_eq!(keys(&out), vec!["apiVersion", "kind", "metadata", "spec"]);
    let md = member(&out, "metadata").unwrap();
    assert_eq!(keys(md), vec!["name", "namespace", "annotations", "finalizers"]);
    assert_eq!(member(md, "annotations").unwrap(), &obj(vec![("team", text("blue"))]));
    assert_eq!(member(md, "finalizers").unwrap(), &Json::Array(vec![text("example.com/keep")]));
    assert_eq!(member(&out, "spec").unwrap(), &obj(vec![("replicas", num(2))]));
}

#[test]
fn sanitize_drops_emptied_annotations_and_finalizers() {
    let doc = obj(vec![
        ("kind", text("ConfigMap")),
        (
            "metadata",
            obj(vec![
                ("name", text("cfg")),
                ("annotations", obj(vec![("control-plane.alpha.kubernetes.io/leader", text("x"))])),
                ("finalizers", Json::Array(vec![text("kubernetes.io/pv-protection")])),
            ]),
        ),
    ]);
    let out = sanitize_resource_for_apply(&doc).unwrap();
    assert_eq!(member(&out, "metadata").unwrap(), &obj(vec![("name", text("cfg"))]));
}

#[test]
fn sanitize_keeps_source_unchanged() {
    let doc = deployment_doc();
    let before = doc.clone_deep();
    let _ = sanitize_resource_for_apply(&doc).unwrap();
    assert_eq!(doc, before);
}

#[test]
fn sanitize_node_port_boundary() {
    let removed = sanitize_resource_for_apply(&service(30000)).unwrap();
    assert_eq!(first_port(&removed), obj(vec![("port", num(80))]));
    let kept = sanitize_resource_for_apply(&service(29999)).unwrap();
    assert_eq!(first_port(&kept), obj(vec![("port", num(80)), ("nodePort", num(29999))]));
}

#[test]
fn sanitize_service_drops_cluster_ips() {
    let out = sanitize_resource_for_apply(&service(31000)).unwrap();
    let spec = member(&out, "spec").unwrap();
    assert_eq!(keys(spec), vec!["type", "ports"]);
}

#[test]
fn sanitize_node_keeps_only_cidrs_and_taints() {
    let node_a = obj(vec![
        ("kind", text("Node")),
        ("metadata", obj(vec![("name", text("n1"))])),
        (
            "spec",
            obj(vec![
                ("providerID", text("k3s://n1")),
                ("podCIDR", text("10.42.0.0/24")),
                ("unschedulable", Json::Bool(true)),
                ("taints", Json::Array(vec![])),
                ("podCIDRs", Json::Array(vec![text("10.42.0.0/24")])),
            ]),
        ),
    ]);
    let node_b = obj(vec![
        ("spec", obj(vec![
            ("taints", Json::Array(vec![])),
            ("externalID", text("x")),
            ("podCIDR", text("10.42.0.0/24")),
        ])),
        ("kind", text("Node")),
    ]);
    let a = sanitize_resource_for_apply(&node_a).unwrap();
    assert_eq!(keys(member(&a, "spec").unwrap()), vec!["podCIDR", "taints", "podCIDRs"]);
    let b = sanitize_resource_for_apply(&node_b).unwrap();
    assert_eq!(keys(member(&b, "spec").unwrap()), vec!["taints", "podCIDR"]);
}

#[test]
fn sanitize_volume_and_claim_rules() {
    let pv = obj(vec![
        ("kind", text("PersistentVolume")),
        ("spec", obj(vec![("claimRef", obj(vec![])), ("capacity", obj(vec![]))])),
    ]);
    let pvc = obj(vec![
        ("kind", text("PersistentVolumeClaim")),
        ("spec", obj(vec![("volumeName", text("pv-1")), ("storageClassName", text("local"))])),
    ]);
    let pv_out = sanitize_resource_for_apply(&pv).unwrap();
    assert_eq!(keys(member(&pv_out, "spec").unwrap()), vec!["capacity"]);
    let pvc_out = sanitize_resource_for_apply(&pvc).unwrap();
    assert_eq!(keys(member(&pvc_out, "spec").unwrap()), vec!["storageClassName"]);
}

#[test]
fn sanitize_other_kinds_keep_spec() {
    let doc = obj(vec![
        ("kind", text("Pod")),
        ("spec", obj(vec![("nodeName", text("n1")), ("clusterIP", text("keep"))])),
    ]);
    let out = sanitize_resource_for_apply(&doc).unwrap();
    assert_eq!(keys(member(&out, "spec").unwrap()), vec!["nodeName", "clusterIP"]);
}

#[test]
fn sanitize_rejects_non_object() {
    assert_eq!(sanitize_resource_for_apply(&text("oops")), Err(SanitizeError::NotAnObject));
    assert_eq!(sanitize_resource_for_apply(&Json::Array(vec![])), Err(SanitizeError::NotAnObject));
}

#[test]
fn sanitize_twice_is_sanitize_once() {
    for doc in [deployment_doc(), service(30001), service(80)] {
        let once = sanitize_resource_for_apply(&doc).unwrap();
        let twice = sanitize_resource_for_apply(&once).unwrap();
        assert_eq!(once, twice);
    }
}

#[test]
fn identifier_with_and_without_namespace() {
    assert_eq!(get_resource_identifier(&deployment_doc(), "deployments"), "deployments/web (default)");
    assert_eq!(get_resource_identifier(&service(1), "services"), "services/web");
    assert_eq!(get_resource_identifier(&text("x"), "pods"), "pods/unknown");
}

#[test]
fn prepare_skips_unnamed_and_counts() {
    let docs = vec![deployment_doc(), obj(vec![("kind", text("Deployment"))]), service(30500)];
    let (out, stats) = prepare_resources(&docs, "deployments", true);
    assert_eq!(out.len(), 2);
    assert_eq!(out[0].0, "web");
    assert_eq!(out[0].1, sanitize_resource_for_apply(&docs[0]).unwrap());
    assert_eq!(stats.total_processed, 2);
    assert_eq!(stats.total_sanitized, 2);
    assert_eq!(stats.total_skipped, 0);
    let (raw, raw_stats) = prepare_resources(&docs, "deployments", false);
    assert_eq!(raw.len(), 2);
    assert_eq!(raw[1].1, service(30500));
    assert_eq!(raw_stats.total_processed, 2);
    assert_eq!(raw_stats.total_sanitized, 0);
}

#[test]
fn stats_accumulate() {
    let mut a = SanitizationStats::new();
    a.record_sanitized();
    a.record_raw();
    let mut b = SanitizationStats::new();
    b.record_skipped("pods/x".to_string());
    b.record_sanitized();
    a.add(&b);
    assert_eq!(a.total_processed, 4);
    assert_eq!(a.total_sanitized, 2);
    assert_eq!(a.total_skipped, 1);
    assert_eq!(a.skipped_resources, vec!["pods/x".to_string()]);
}

#[test]
fn namespace_totals() {
    let stats = NamespaceStats {
        namespace: "default".to_string(),
        pods: 3,
        services: 1,
        deployments: 0,
        configmaps: 2,
        secrets: 0,
        ingresses: 0,
        pvcs: 0,
        networkpolicies: 0,
        replicasets: 0,
        daemonsets: 0,
        statefulsets: 0,
        jobs: 0,
        cronjobs: 0,
        serviceaccounts: 1,
        roles: 0,
        rolebindings: 0,
        resourcequotas: 0,
        limitranges: 0,
        horizontalpodautoscalers: 0,
        poddisruptionbudgets: 0,
        endpoints: 0,
        endpointslices: 4,
    };
    assert_eq!(stats.total_resources(), 11);
    assert_eq!(stats.count_non_empty_resource_types(), 5);
}

#[test]
fn outcome_of_sanitizing_for_output() {
    match sanitize_for_output(&service(30000), "services") {
        SanitizationOutcome::Sanitized(d) => assert_eq!(first_port(&d), obj(vec![("port", num(80))])),
        SanitizationOutcome::Skipped(..) => panic!("an object is sanitized"),
    }
    match sanitize_for_output(&text("broken"), "services") {
        SanitizationOutcome::Skipped(id, e) => {
            assert_eq!(id, "services/unknown");
            assert_eq!(e, SanitizeError::NotAnObject);
        }
        SanitizationOutcome::Sanitized(_) => panic!("a string is no object"),
    }
}

#[test]
fn node_spec_result_does_not_depend_on_key_order() {
    let fields = vec![
        ("providerID", text("k3s://n1")),
        ("podCIDR", text("10.42.0.0/24")),
        ("unschedulable", Json::Bool(true)),
        ("taints", Json::Array(vec![text("t")])),
    ];
    let node = |order: &[usize]| {
        obj(vec![
            ("kind", text("Node")),
            ("spec", obj(order.iter().map(|i| (fields[*i].0, fields[*i].1.clone_deep())).collect())),
        ])
    };
    let sorted = |d: &Json| {
        let mut ms: Vec<(String, String)> = match member(d, "spec").unwrap() {
            Json::Object(es) => es.iter().map(|(k, v)| (k.clone(), format!("{:?}", v))).collect(),
            _ => panic!("spec is not an object"),
        };
        ms.sort();
        ms
    };
    let a = sanitize_resource_for_apply(&node(&[0, 1, 2, 3])).unwrap();
    let b = sanitize_resource_for_apply(&node(&[3, 2, 1, 0])).unwrap();
    assert_eq!(sorted(&a), sorted(&b));
    assert_eq!(
        sorted(&a),
        vec![
            ("podCIDR".to_string(), format!("{:?}", text("10.42.0.0/24"))),
            ("taints".to_string(), format!("{:?}", Json::Array(vec![text("t")]))),
        ]
    );
}
