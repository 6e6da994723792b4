use ketchup::json::Json;
use ketchup::resources::ResourceMap;
use ketchup::suse_edge::{
    analyze_cluster, create_empty_analysis, detect_suse_edge_components,
    determine_confidence_level_conservative, determine_deployment_type_precise,
    extract_semantic_version, SuseEdgeComponent,
};

fn text(s: &str) -> Json {
    Json::Str(s.to_string())
}

fn obj(members: Vec<(&str, Json)>) -> Json {
    Json::Object(members.into_iter().map(|(k, v)| (k.to_string(), v)).collect())
}

fn named(name: &str) -> Json {
    obj(vec![("metadata", obj(vec![("name", text(name))]))])
}

fn node(kubelet: &str, labels: Vec<(&str, Json)>) -> Json {
    obj(vec![
        ("metadata", obj(vec![("name", text("node-1")), ("labels", obj(labels))])),
        ("status", obj(vec![("nodeInfo", obj(vec![("kubeletVersion", text(kubelet))]))])),
    ])
}

fn deployment(namespace: &str, name: &str, images: &[&str]) -> Json {
    let containers: Vec<Json> = images.iter().map(|i| obj(vec![("image", text(i))])).collect();
    obj(vec![
        ("metadata", obj(vec![("name", text(name)), ("namespace", text(namespace))])),
        (
            "spec",
            obj(vec![(
                "template",
                obj(vec![("spec", obj(vec![("containers", Json::Array(containers))]))]),
            )]),
        ),
    ])
}

fn pod(images: &[&str]) -> Json {
    let containers: Vec<Json> = images.iter().map(|i| obj(vec![("image", text(i))])).collect();
    obj(vec![
        ("metadata", obj(vec![("name", text("p"))])),
        ("spec", obj(vec![("containers", Json::Array(containers))])),
    ])
}

fn map(entries: Vec<(&str, Vec<Json>)>) -> ResourceMap {
    let mut m = ResourceMap::new();
    for (k, v) in entries {
        m.insert(k.to_string(), v);
    }
    m
}

fn component(name: &str) -> SuseEdgeComponent {
    SuseEdgeComponent {
        name: name.to_string(),
        version: None,
        found_in: vec![],
        category: "Core".to_string(),
    }
}

#[test]
fn empty_input_gives_empty_report() {
    let ns = ResourceMap::new();
    let cl = ResourceMap::new();
    assert!(detect_suse_edge_components(&ns, &cl).is_none());
    let report = analyze_cluster(&ns, &cl);
    assert_eq!(report.total_components, 0);
    assert!(report.components.is_empty());
    assert_eq!(report.confidence, "None - Standard Kubernetes");
    assert_eq!(report.deployment_type, "Standard Kubernetes Cluster");
    assert_eq!(report.kubernetes_distribution, None);
    let empty = create_empty_analysis();
    assert_eq!(empty.confidence, report.confidence);
}

#[test]
fn k3s_with_longhorn_definitions_is_downstream() {
    let longhorn_crd = obj(vec![
        ("metadata", obj(vec![("name", text("volumes.longhorn.io"))])),
        (
            "spec",
            obj(vec![
                ("group", text("longhorn.io")),
                ("names", obj(vec![("plural", text("volumes"))])),
                ("scope", text("Namespaced")),
                ("versions", Json::Array(vec![obj(vec![("name", text("v1")), ("served", Json::Bool(true))])])),
            ]),
        ),
    ]);
    let cl = map(vec![
        ("clusterroles", vec![named("system:k3s-controller")]),
        ("nodes", vec![node("v1.30.8+k3s1", vec![])]),
        ("customresourcedefinitions", vec![longhorn_crd]),
    ]);
    let ns = map(vec![("deployments", vec![])]);
    let report = detect_suse_edge_components(&ns, &cl).unwrap();
    assert_eq!(report.total_components, 2);
    assert_eq!(report.components[0].name, "K3s");
    assert_eq!(report.components[0].version, Some("v1.30.8+k3s1".to_string()));
    assert_eq!(report.components[0].found_in, vec!["Detected via cluster roles and node version".to_string()]);
    assert_eq!(report.components[0].category, "Core");
    assert_eq!(report.components[1].name, "SUSE Storage (Longhorn)");
    assert_eq!(report.components[1].version, None);
    assert_eq!(report.components[1].found_in, vec!["1 CRDs detected".to_string()]);
    assert_eq!(report.components[1].category, "Storage");
    assert_eq!(report.deployment_type, "Downstream Cluster");
    assert_eq!(report.confidence, "Medium");
    assert_eq!(report.kubernetes_distribution, Some("K3s".to_string()));
}

#[test]
fn rancher_with_metal3_is_management_cluster() {
    let ns = map(vec![(
        "deployments",
        vec![deployment("cattle-system", "rancher", &["rancher/rancher:v2.9.1"])],
    )]);
    let cl = map(vec![("customresourcedefinitions", vec![named("baremetalhosts.metal3.io")])]);
    let report = detect_suse_edge_components(&ns, &cl).unwrap();
    assert_eq!(report.deployment_type, "Management Cluster");
    let rancher = report.components.iter().find(|c| c.name == "SUSE Rancher Prime").unwrap();
    assert_eq!(rancher.version, Some("v2.9.1".to_string()));
    assert_eq!(rancher.found_in, vec!["cattle-system/rancher".to_string()]);
    assert_eq!(rancher.category, "Management");
    assert_eq!(report.components[0].name, "Metal3");
    assert_eq!(report.confidence, "Medium");
    assert_eq!(report.kubernetes_distribution, None);
}

#[test]
fn k3s_without_matching_node_reports_placeholder_version() {
    let cl = map(vec![
        ("clusterroles", vec![named("admin"), named("system:k3s-controller")]),
        ("nodes", vec![node("v1.30.8", vec![])]),
    ]);
    let report = detect_suse_edge_components(&ResourceMap::new(), &cl).unwrap();
    assert_eq!(report.components[0].version, Some("detected".to_string()));
    assert_eq!(report.confidence, "Low");
}

#[test]
fn rke2_by_label_and_by_kubelet() {
    let labelled = map(vec![(
        "nodes",
        vec![node("v1.31.2+rke2r1", vec![("rke2.io/hostname", text("n1"))])],
    )]);
    let a = detect_suse_edge_components(&ResourceMap::new(), &labelled).unwrap();
    assert_eq!(a.components[0].name, "RKE2");
    assert_eq!(a.components[0].version, Some("v1.31.2+rke2r1".to_string()));
    assert_eq!(a.components[0].found_in, vec!["Detected via node labels and version".to_string()]);
    let by_value = map(vec![("nodes", vec![node("v1.31.2", vec![("role", text("rke2-server"))])])]);
    let b = detect_suse_edge_components(&ResourceMap::new(), &by_value).unwrap();
    assert_eq!(b.components[0].found_in, vec!["Detected via node labels and version".to_string()]);
    let kubelet_only = map(vec![("nodes", vec![node("v1.31.2+rke2r1", vec![])])]);
    let c = detect_suse_edge_components(&ResourceMap::new(), &kubelet_only).unwrap();
    assert_eq!(c.components[0].found_in, vec!["Detected via kubelet version".to_string()]);
    assert_eq!(c.deployment_type, "Downstream Cluster");
}

#[test]
fn rke2_version_comes_from_the_labelled_node() {
    let nodes = map(vec![(
        "nodes",
        vec![
            node("v1.30.1", vec![("role", text("worker"))]),
            node("v1.31.2+rke2r1", vec![("rke2.io/hostname", text("n2"))]),
        ],
    )]);
    let a = detect_suse_edge_components(&ResourceMap::new(), &nodes).unwrap();
    assert_eq!(a.components[0].name, "RKE2");
    assert_eq!(a.components[0].version, Some("v1.31.2+rke2r1".to_string()));
    assert_eq!(a.components[0].found_in, vec!["Detected via node labels and version".to_string()]);
    let unversioned = obj(vec![(
        "metadata",
        obj(vec![("name", text("n3")), ("labels", obj(vec![("rke2.io/hostname", text("n3"))]))]),
    )]);
    let b = detect_suse_edge_components(
        &ResourceMap::new(),
        &map(vec![("nodes", vec![node("v1.30.1", vec![]), unversioned])]),
    )
    .unwrap();
    assert_eq!(b.components[0].version, Some("detected".to_string()));
}

#[test]
fn registry_use_is_one_aggregate_observation() {
    let ns = map(vec![
        ("pods", vec![pod(&["registry.suse.com/a:1", "docker.io/b:2"]), pod(&["registry.opensuse.org/c"])]),
        ("deployments", vec![deployment("default", "app", &["registry.suse.com/d:v1.0"])]),
    ]);
    let report = detect_suse_edge_components(&ns, &ResourceMap::new()).unwrap();
    assert_eq!(report.total_components, 1);
    assert_eq!(report.components[0].name, "SUSE Container Images");
    assert_eq!(report.components[0].found_in, vec!["3 SUSE images in use".to_string()]);
    assert_eq!(report.confidence, "Minimal");
    assert_eq!(report.deployment_type, "Standalone Cluster");
}

#[test]
fn longhorn_deployment_and_twelve_definitions() {
    let crds: Vec<Json> = (0..12).map(|i| named(&format!("kind{}.longhorn.io", i))).collect();
    let cl = map(vec![("customresourcedefinitions", crds)]);
    let ns = map(vec![(
        "deployments",
        vec![
            deployment("longhorn-system", "longhorn-driver", &["longhornio/x:sha256-abc", "longhornio/y:v1.7.2"]),
            deployment("other", "longhorn-ui", &["longhornio/z:v1.0.0"]),
        ],
    )]);
    let report = detect_suse_edge_components(&ns, &cl).unwrap();
    assert_eq!(report.components[0].found_in, vec!["12 CRDs detected".to_string()]);
    assert_eq!(report.components[1].found_in, vec!["longhorn-system/longhorn-driver".to_string()]);
    assert_eq!(report.components[1].version, Some("v1.7.2".to_string()));
    assert_eq!(report.total_components, 2);
}

#[test]
fn semantic_versions_from_images() {
    assert_eq!(extract_semantic_version("rancher/rancher:v2.9.1"), Some("v2.9.1".to_string()));
    assert_eq!(extract_semantic_version("host:5000/img:v1.2"), Some("v1.2".to_string()));
    assert_eq!(extract_semantic_version("img:1.2.3"), None);
    assert_eq!(extract_semantic_version("img:v2"), None);
    assert_eq!(extract_semantic_version("img:v1.2-sha256.x"), None);
    assert_eq!(extract_semantic_version("img@sha256:v1.abc"), Some("v1.abc".to_string()));
    assert_eq!(extract_semantic_version("v1.5"), Some("v1.5".to_string()));
    assert_eq!(extract_semantic_version("img:vsha256.1"), None);
}

#[test]
fn confidence_tiers() {
    assert_eq!(determine_confidence_level_conservative(60, 5), "Very High");
    assert_eq!(determine_confidence_level_conservative(60, 4), "High");
    assert_eq!(determine_confidence_level_conservative(40, 3), "High");
    assert_eq!(determine_confidence_level_conservative(39, 3), "Medium");
    assert_eq!(determine_confidence_level_conservative(20, 2), "Medium");
    assert_eq!(determine_confidence_level_conservative(20, 1), "Low");
    assert_eq!(determine_confidence_level_conservative(10, 1), "Low");
    assert_eq!(determine_confidence_level_conservative(9, 1), "Minimal");
    assert_eq!(determine_confidence_level_conservative(100, 0), "Minimal");
}

#[test]
fn deployment_topologies() {
    let t = |names: &[&str]| {
        let cs: Vec<SuseEdgeComponent> = names.iter().map(|n| component(n)).collect();
        determine_deployment_type_precise(&cs)
    };
    assert_eq!(t(&["SUSE Rancher Prime", "Metal3", "Elemental"]), "Management Cluster");
    assert_eq!(t(&["SUSE Rancher Prime", "Elemental"]), "Elemental Management Cluster");
    assert_eq!(t(&["SUSE Rancher Prime", "K3s"]), "Rancher Management Cluster");
    assert_eq!(t(&["RKE2", "Metal3"]), "Downstream Cluster");
    assert_eq!(t(&["Metal3", "KubeVirt"]), "Standalone Cluster");
    assert_eq!(t(&[]), "Standalone Cluster");
}
