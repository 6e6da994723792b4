use ketchup::json::Json;
use ketchup::output::{
    calculate_resource_highlights, determine_namespace_purpose, documents_in_namespace,
    resource_directory, NamespaceStats,
};
use ketchup::resolver::absent_namespaces;
use ketchup::suse_edge::{create_empty_analysis, generate_recommendations_clean, SuseEdgeAnalysis, SuseEdgeComponent};
use ketchup::text::decimal_text;

fn stats(namespace: &str, pods: usize, services: usize, secrets: usize, roles: usize) -> NamespaceStats {
    NamespaceStats {
        namespace: namespace.to_string(),
        pods,
        services,
        deployments: 1,
        configmaps: 0,
        secrets,
        ingresses: 0,
        pvcs: 0,
        networkpolicies: 0,
        replicasets: 0,
        daemonsets: 0,
        statefulsets: 0,
        jobs: 0,
        cronjobs: 0,
        serviceaccounts: 0,
        roles,
        rolebindings: 0,
        resourcequotas: 0,
        limitranges: 0,
        horizontalpodautoscalers: 0,
        poddisruptionbudgets: 0,
        endpoints: 2,
        endpointslices: 0,
    }
}

#[test]
fn directories_by_scope_and_kind() {
    assert_eq!(resource_directory("/out", "cluster-wide", "nodes"), "/out/cluster-wide-resources/nodes");
    assert_eq!(
        resource_directory("/out", "cluster-wide", "volumes.longhorn.io"),
        "/out/cluster-wide-resources/custom-resources/volumes.longhorn.io"
    );
    assert_eq!(resource_directory("/out", "apps", "pods"), "/out/namespaced-resources/apps/pods");
    assert_eq!(
        resource_directory("/out", "apps", "volumes.longhorn.io"),
        "/out/namespaced-resources/apps/custom-resources/volumes.longhorn.io"
    );
}

#[test]
fn namespace_purposes() {
    assert_eq!(determine_namespace_purpose("kube-system"), "workloads + system config");
    assert_eq!(determine_namespace_purpose("default"), "user workloads");
    assert_eq!(determine_namespace_purpose("kube-public"), "cluster info");
    assert_eq!(determine_namespace_purpose("kube-node-lease"), "node coordination");
    assert_eq!(determine_namespace_purpose("istio-system"), "service mesh");
    assert_eq!(determine_namespace_purpose("cattle-monitoring-system"), "observability");
    assert_eq!(determine_namespace_purpose("ingress-nginx"), "traffic routing");
    assert_eq!(determine_namespace_purpose("shop"), "application workloads");
}

#[test]
fn highlights_sum_over_namespaces() {
    let all = vec![stats("a", 3, 1, 2, 0), stats("b", 4, 0, 0, 5)];
    let (w, s, c, n) = calculate_resource_highlights(&all);
    assert_eq!(w.pods, 7);
    assert_eq!(w.deployments, 2);
    assert_eq!(w.total, 9);
    assert_eq!(s.roles, 5);
    assert_eq!(s.total, 5);
    assert_eq!(c.secrets, 2);
    assert_eq!(c.total, 2);
    assert_eq!(n.services, 1);
    assert_eq!(n.endpoints, 4);
    assert_eq!(n.total, 5);
}

#[test]
fn recommendations_follow_the_report() {
    let few = SuseEdgeAnalysis {
        components: vec![],
        total_components: 1,
        confidence: "Low".to_string(),
        deployment_type: "Standalone Cluster".to_string(),
        kubernetes_distribution: None,
    };
    assert_eq!(
        generate_recommendations_clean(&few),
        vec![
            "Consider reviewing complete SUSE Edge documentation for full deployment".to_string(),
            "Some components may not be detected due to custom configurations".to_string(),
            "Kubernetes distribution could not be determined".to_string(),
        ]
    );
    let full = SuseEdgeAnalysis {
        components: vec![SuseEdgeComponent {
            name: "K3s".to_string(),
            version: None,
            found_in: vec![],
            category: "Core".to_string(),
        }],
        total_components: 5,
        confidence: "Very High".to_string(),
        deployment_type: "Management Cluster".to_string(),
        kubernetes_distribution: Some("K3s".to_string()),
    };
    assert_eq!(
        generate_recommendations_clean(&full),
        vec!["SUSE Edge deployment detected successfully".to_string()]
    );
    assert_eq!(generate_recommendations_clean(&create_empty_analysis()).len(), 2);
}

#[test]
fn decimal_notation() {
    assert_eq!(decimal_text(0), "0");
    assert_eq!(decimal_text(7), "7");
    assert_eq!(decimal_text(30000), "30000");
    assert_eq!(decimal_text(usize::MAX), usize::MAX.to_string());
}

fn doc_in(ns: Option<&str>, name: &str) -> Json {
    let mut md = vec![("name".to_string(), Json::Str(name.to_string()))];
    if let Some(n) = ns {
        md.push(("namespace".to_string(), Json::Str(n.to_string())));
    }
    Json::Object(vec![("metadata".to_string(), Json::Object(md))])
}

#[test]
fn documents_of_one_namespace() {
    let docs = vec![doc_in(Some("a"), "x"), doc_in(Some("b"), "y"), doc_in(None, "z"), doc_in(Some("a"), "w")];
    let picked = documents_in_namespace(&docs, "a");
    assert_eq!(picked, vec![doc_in(Some("a"), "x"), doc_in(Some("a"), "w")]);
    assert!(documents_in_namespace(&docs, "c").is_empty());
}

#[test]
fn counts_set_by_type() {
    let mut s = stats("a", 0, 0, 0, 0);
    s.set_count("persistentvolumeclaims", 4);
    s.set_count("pods", 2);
    s.set_count("volumes.longhorn.io", 9);
    assert_eq!(s.pvcs, 4);
    assert_eq!(s.pods, 2);
    assert_eq!(s.total_resources(), 4 + 2 + 1 + 2);
}

#[test]
fn absent_namespaces_are_reported() {
    let requested: Vec<String> = vec!["apps".into(), "missing".into(), "default".into(), "gone".into()];
    let available: Vec<String> = vec!["default".into(), "apps".into()];
    assert_eq!(absent_namespaces(&requested, &available), vec!["missing".to_string(), "gone".to_string()]);
}
