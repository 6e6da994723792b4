use vstd::prelude::*;

use crate::json::{
    field_of, items_of, name_of, namespace_of, resource_name, resource_namespace, text_of, views,
    Json, JsonModel,
};
use crate::resources::{docs_of, ResourceMap};
use crate::text::{contains, decimal, decimal_text, has_infix, has_prefix, join, same_text, starts_with};

verus! {

/// One component found in the cluster, with the evidence for it.
#[derive(Debug, Clone)]
pub struct SuseEdgeComponent {
    pub name: String,
    pub version: Option<String>,
    pub found_in: Vec<String>,
    pub category: String,
}

pub ghost struct ComponentModel {
    pub name: Seq<char>,
    pub version: Option<Seq<char>>,
    pub found_in: Seq<Seq<char>>,
    pub category: Seq<char>,
}

pub open spec fn opt_view(o: Option<String>) -> Option<Seq<char>> {
    match o {
        Some(s) => Some(s@),
        None => None,
    }
}

pub open spec fn string_views(v: Seq<String>) -> Seq<Seq<char>> {
    Seq::new(v.len(), |i: int| v[i]@)
}

impl View for SuseEdgeComponent {
    type V = ComponentModel;

    open spec fn view(&self) -> ComponentModel {
        ComponentModel {
            name: self.name@,
            version: opt_view(self.version),
            found_in: string_views(self.found_in@),
            category: self.category@,
        }
    }
}

/// The report of the component scan.
#[derive(Debug, Clone)]
pub struct SuseEdgeAnalysis {
    pub components: Vec<SuseEdgeComponent>,
    pub total_components: usize,
    pub confidence: String,
    pub deployment_type: String,
    pub kubernetes_distribution: Option<String>,
}

pub ghost struct AnalysisModel {
    pub components: Seq<ComponentModel>,
    pub total_components: nat,
    pub confidence: Seq<char>,
    pub deployment_type: Seq<char>,
    pub kubernetes_distribution: Option<Seq<char>>,
}

pub open spec fn component_views(v: Seq<SuseEdgeComponent>) -> Seq<ComponentModel> {
    Seq::new(v.len(), |i: int| v[i]@)
}

impl View for SuseEdgeAnalysis {
    type V = AnalysisModel;

    open spec fn view(&self) -> AnalysisModel {
        AnalysisModel {
            components: component_views(self.components@),
            total_components: self.total_components as nat,
            confidence: self.confidence@,
            deployment_type: self.deployment_type@,
            kubernetes_distribution: opt_view(self.kubernetes_distribution),
        }
    }
}

/// The report for a cluster in which nothing was found.
pub open spec fn empty_analysis() -> AnalysisModel {
    AnalysisModel {
        components: Seq::empty(),
        total_components: 0,
        confidence: "None - Standard Kubernetes"@,
        deployment_type: "Standard Kubernetes Cluster"@,
        kubernetes_distribution: None,
    }
}

/// The report that says that no component was found.
pub fn create_empty_analysis() -> (r: SuseEdgeAnalysis)
    ensures
        r@ == empty_analysis(),
{
    let r = SuseEdgeAnalysis {
        components: Vec::new(),
        total_components: 0,
        confidence: String::from_str("None - Standard Kubernetes"),
        deployment_type: String::from_str("Standard Kubernetes Cluster"),
        kubernetes_distribution: None,
    };
    assert(r@.components =~= Seq::<ComponentModel>::empty());
    r
}

/// The index of the last `:` in `s`, or -1 where it has none.
pub open spec fn last_colon(s: Seq<char>) -> int
    decreases s.len(),
{
    if s.len() == 0 {
        -1
    } else if s.last() == ':' {
        s.len() - 1
    } else {
        last_colon(s.drop_last())
    }
}

/// The tag of an image reference: what follows its last `:`, or all of it.
pub open spec fn image_tag(s: Seq<char>) -> Seq<char> {
    s.subrange(last_colon(s) + 1, s.len() as int)
}

/// The tag of an image reference where it looks like a release version: it
/// starts with `v`, holds a `.`, and is no digest.
pub open spec fn semantic_version(image: Seq<char>) -> Option<Seq<char>> {
    let tag = image_tag(image);
    if has_prefix(tag, "v"@) && has_infix(tag, "."@) && !has_infix(tag, "sha256"@) {
        Some(tag)
    } else {
        None
    }
}

proof fn lemma_last_colon(s: Seq<char>, n: int)
    requires
        0 <= n <= s.len(),
        forall|j: int| n <= j < s.len() ==> s[j] != ':',
    ensures
        last_colon(s) == last_colon(s.subrange(0, n)),
        -1 <= last_colon(s) < n,
    decreases s.len() - n,
{
    if n < s.len() {
        lemma_last_colon(s, n + 1);
        assert(s.subrange(0, n + 1).drop_last() =~= s.subrange(0, n));
    } else {
        assert(s.subrange(0, n) =~= s);
    }
    lemma_last_colon_bound(s.subrange(0, n));
}

proof fn lemma_last_colon_bound(s: Seq<char>)
    ensures
        -1 <= last_colon(s) < s.len(),
    decreases s.len(),
{
    if s.len() > 0 {
        lemma_last_colon_bound(s.drop_last());
    }
}

/// The release version in an image reference, if its tag looks like one.
pub fn extract_semantic_version(image: &str) -> (r: Option<String>)
    ensures
        r matches Some(v) ==> semantic_version(image@) == Some(v@),
        r is None ==> semantic_version(image@) is None,
{
    let c = crate::text::chars_of(image);
    let mut i: usize = c.len();
    while i > 0
        invariant
            c@ == image@,
            i <= c@.len(),
            forall|j: int| i <= j < c@.len() ==> c@[j] != ':',
        ensures
            i <= c@.len(),
            forall|j: int| i <= j < c@.len() ==> c@[j] != ':',
            i > 0 ==> c@[i - 1] == ':',
        decreases i,
    {
        if c[i - 1] == ':' {
            break;
        }
        i = i - 1;
    }
    proof {
        if i > 0 {
            assert(c@[i - 1] == ':');
            lemma_last_colon(c@, i as int);
            assert(c@.subrange(0, i as int).drop_last() =~= c@.subrange(0, i - 1));
        } else {
            lemma_last_colon(c@, 0);
            assert(c@.subrange(0, 0).len() == 0);
        }
        assert(last_colon(image@) + 1 == i);
    }
    let tag = image.substring_char(i, c.len());
    if starts_with(tag, "v") && contains(tag, ".") && !contains(tag, "sha256") {
        Some(String::from_str(tag))
    } else {
        None
    }
}


/// The containers of a workload or pod: those of its pod template where it
/// has one, else its own.
pub open spec fn containers_of(d: JsonModel) -> Option<Seq<JsonModel>> {
    let template = items_of(
        field_of(field_of(field_of(d.field("spec"@), "template"@), "spec"@), "containers"@),
    );
    if template is Some {
        template
    } else {
        items_of(field_of(d.field("spec"@), "containers"@))
    }
}

pub open spec fn image_of(c: JsonModel) -> Option<Seq<char>> {
    text_of(c.field("image"@))
}

/// The release version of the first container whose image tag looks like one.
pub open spec fn first_version(cs: Seq<JsonModel>) -> Option<Seq<char>>
    decreases cs.len(),
{
    if cs.len() == 0 {
        None
    } else {
        let earlier = first_version(cs.drop_last());
        if earlier is Some {
            earlier
        } else {
            match image_of(cs.last()) {
                Some(img) => semantic_version(img),
                None => None,
            }
        }
    }
}

pub open spec fn deployment_version(d: JsonModel) -> Option<Seq<char>> {
    match containers_of(d) {
        Some(cs) => first_version(cs),
        None => None,
    }
}

fn containers_in(d: &Json) -> (r: Option<&Vec<Json>>)
    ensures
        r matches Some(v) ==> containers_of(d@) == Some(views(v@)),
        r is None ==> containers_of(d@) is None,
{
    let in_template = match d.get("spec") {
        Some(spec) => match spec.get("template") {
            Some(t) => match t.get("spec") {
                Some(ts) => match ts.get("containers") {
                    Some(c) => c.as_array(),
                    None => None,
                },
                None => None,
            },
            None => None,
        },
        None => None,
    };
    match in_template {
        Some(v) => Some(v),
        None => match d.get("spec") {
            Some(spec) => match spec.get("containers") {
                Some(c) => c.as_array(),
                None => None,
            },
            None => None,
        },
    }
}

fn image_in(c: &Json) -> (r: Option<&String>)
    ensures
        r matches Some(s) ==> image_of(c@) == Some(s@),
        r is None ==> image_of(c@) is None,
{
    match c.get("image") {
        Some(i) => i.as_str(),
        None => None,
    }
}

proof fn lemma_first_version_prefix(s: Seq<JsonModel>, n: int)
    requires
        0 <= n <= s.len(),
        first_version(s.subrange(0, n)) is Some,
    ensures
        first_version(s) == first_version(s.subrange(0, n)),
    decreases s.len() - n,
{
    if n < s.len() {
        assert(s.subrange(0, n + 1).drop_last() =~= s.subrange(0, n));
        lemma_first_version_prefix(s, n + 1);
    } else {
        assert(s.subrange(0, n) =~= s);
    }
}

/// The release version of a deployment, read from its container images.
pub fn extract_version_from_deployment(deployment: &Json) -> (r: Option<String>)
    ensures
        r matches Some(v) ==> deployment_version(deployment@) == Some(v@),
        r is None ==> deployment_version(deployment@) is None,
{
    let containers = match containers_in(deployment) {
        Some(c) => c,
        None => return None,
    };
    let ghost s = views(containers@);
    let mut i: usize = 0;
    while i < containers.len()
        invariant
            s == views(containers@),
            containers_of(deployment@) == Some(s),
            i <= containers@.len(),
            first_version(s.subrange(0, i as int)) is None,
        decreases containers@.len() - i,
    {
        assert(s.subrange(0, i + 1).drop_last() =~= s.subrange(0, i as int));
        match image_in(&containers[i]) {
            Some(image) => match extract_semantic_version(image.as_str()) {
                Some(v) => {
                    proof {
                        lemma_first_version_prefix(s, i + 1);
                    }
                    return Some(v);
                },
                None => {},
            },
            None => {},
        }
        i = i + 1;
    }
    assert(s.subrange(0, i as int) =~= s);
    None
}

/// The kubelet version that a node reports.
pub open spec fn kubelet_version(n: JsonModel) -> Option<Seq<char>> {
    text_of(field_of(field_of(n.field("status"@), "nodeInfo"@), "kubeletVersion"@))
}

fn kubelet_version_in(n: &Json) -> (r: Option<&String>)
    ensures
        r matches Some(s) ==> kubelet_version(n@) == Some(s@),
        r is None ==> kubelet_version(n@) is None,
{
    match n.get("status") {
        Some(st) => match st.get("nodeInfo") {
            Some(ni) => match ni.get("kubeletVersion") {
                Some(kv) => kv.as_str(),
                None => None,
            },
            None => None,
        },
        None => None,
    }
}

/// The first kubelet version among `nodes` that holds `needle`.
pub open spec fn first_kubelet_with(nodes: Seq<JsonModel>, needle: Seq<char>) -> Option<Seq<char>>
    decreases nodes.len(),
{
    if nodes.len() == 0 {
        None
    } else {
        let earlier = first_kubelet_with(nodes.drop_last(), needle);
        if earlier is Some {
            earlier
        } else {
            match kubelet_version(nodes.last()) {
                Some(v) => if has_infix(v, needle) {
                    Some(v)
                } else {
                    None
                },
                None => None,
            }
        }
    }
}

proof fn lemma_first_kubelet_with_prefix(s: Seq<JsonModel>, n: int, needle: Seq<char>)
    requires
        0 <= n <= s.len(),
        first_kubelet_with(s.subrange(0, n), needle) is Some,
    ensures
        first_kubelet_with(s, needle) == first_kubelet_with(s.subrange(0, n), needle),
    decreases s.len() - n,
{
    if n < s.len() {
        assert(s.subrange(0, n + 1).drop_last() =~= s.subrange(0, n));
        lemma_first_kubelet_with_prefix(s, n + 1, needle);
    } else {
        assert(s.subrange(0, n) =~= s);
    }
}

fn find_kubelet_with(nodes: &Vec<Json>, needle: &str) -> (r: Option<String>)
    ensures
        r matches Some(v) ==> first_kubelet_with(views(nodes@), needle@) == Some(v@),
        r is None ==> first_kubelet_with(views(nodes@), needle@) is None,
{
    let ghost s = views(nodes@);
    let mut i: usize = 0;
    while i < nodes.len()
        invariant
            s == views(nodes@),
            i <= nodes@.len(),
            first_kubelet_with(s.subrange(0, i as int), needle@) is None,
        decreases nodes@.len() - i,
    {
        assert(s.subrange(0, i + 1).drop_last() =~= s.subrange(0, i as int));
        match kubelet_version_in(&nodes[i]) {
            Some(v) => {
                if contains(v.as_str(), needle) {
                    proof {
                        lemma_first_kubelet_with_prefix(s, i + 1, needle@);
                    }
                    return Some(v.clone());
                }
            },
            None => {},
        }
        i = i + 1;
    }
    assert(s.subrange(0, i as int) =~= s);
    None
}

/// A node label that marks an RKE2 node: the `rke2.io/hostname` key, or a
/// text value that mentions `rke2`.
pub open spec fn rke2_label(m: (Seq<char>, JsonModel)) -> bool {
    m.0 == "rke2.io/hostname"@ || (m.1.text() is Some && has_infix(m.1.text()->0, "rke2"@))
}

pub open spec fn rke2_labelled(n: JsonModel) -> bool {
    let labels = field_of(n.field("metadata"@), "labels"@);
    &&& labels is Some
    &&& labels->0 is Object
    &&& exists|i: int|
        0 <= i < labels->0->Object_0.len() && rke2_label(#[trigger] labels->0->Object_0[i])
}

fn is_rke2_labelled(n: &Json) -> (r: bool)
    ensures
        r == rke2_labelled(n@),
{
    let labels = match n.get("metadata") {
        Some(m) => match m.get("labels") {
            Some(l) => l,
            None => return false,
        },
        None => return false,
    };
    match labels {
        Json::Object(es) => {
            proof {
                crate::json::lemma_object_view(*es);
            }
            let ghost m = crate::json::member_views(es@);
            let mut i: usize = 0;
            while i < es.len()
                invariant
                    field_of(n@.field("metadata"@), "labels"@) == Some(labels@),
                    labels@ == JsonModel::Object(m),
                    m == crate::json::member_views(es@),
                    i <= es@.len(),
                    forall|j: int| 0 <= j < i ==> !rke2_label(m[j]),
                decreases es@.len() - i,
            {
                let hit = same_text(es[i].0.as_str(), "rke2.io/hostname") || match es[i].1.as_str() {
                    Some(t) => contains(t.as_str(), "rke2"),
                    None => false,
                };
                assert(m[i as int] == (es@[i as int].0@, es@[i as int].1@));
                if hit {
                    assert(rke2_label(m[i as int]));
                    assert(rke2_label(field_of(n@.field("metadata"@), "labels"@)->0->Object_0[i as int]));
                    return true;
                }
                i = i + 1;
            }
            false
        },
        _ => false,
    }
}

/// One observation with a single piece of evidence.
pub open spec fn component(
    name: Seq<char>,
    version: Option<Seq<char>>,
    evidence: Seq<char>,
    category: Seq<char>,
) -> ComponentModel {
    ComponentModel { name, version, found_in: seq![evidence], category }
}

fn make_component(name: &str, version: Option<String>, evidence: String, category: &str) -> (r:
    SuseEdgeComponent)
    ensures
        r@ == component(name@, opt_view(version), evidence@, category@),
{
    let ghost e = evidence@;
    let r = SuseEdgeComponent {
        name: String::from_str(name),
        version,
        found_in: vec![evidence],
        category: String::from_str(category),
    };
    assert(r@.found_in =~= seq![e]);
    r
}

/// The index of the first node among `nodes` that carries an RKE2 label.
pub open spec fn first_rke2_node(nodes: Seq<JsonModel>) -> Option<int>
    decreases nodes.len(),
{
    if nodes.len() == 0 {
        None
    } else {
        let earlier = first_rke2_node(nodes.drop_last());
        if earlier is Some {
            earlier
        } else if rke2_labelled(nodes.last()) {
            Some(nodes.len() - 1)
        } else {
            None
        }
    }
}

proof fn lemma_first_rke2_node_prefix(s: Seq<JsonModel>, n: int)
    requires
        0 <= n <= s.len(),
        first_rke2_node(s.subrange(0, n)) is Some,
    ensures
        first_rke2_node(s) == first_rke2_node(s.subrange(0, n)),
    decreases s.len() - n,
{
    if n < s.len() {
        assert(s.subrange(0, n + 1).drop_last() =~= s.subrange(0, n));
        lemma_first_rke2_node_prefix(s, n + 1);
    } else {
        assert(s.subrange(0, n) =~= s);
    }
}

/// The index of the first node that carries an RKE2 label.
fn rke2_node_index(nodes: &Vec<Json>) -> (r: Option<usize>)
    ensures
        r matches Some(i) ==> first_rke2_node(views(nodes@)) == Some(i as int) && i < nodes@.len(),
        r is None ==> first_rke2_node(views(nodes@)) is None,
{
    let ghost s = views(nodes@);
    let mut i: usize = 0;
    while i < nodes.len()
        invariant
            s == views(nodes@),
            i <= nodes@.len(),
            first_rke2_node(s.subrange(0, i as int)) is None,
        decreases nodes@.len() - i,
    {
        assert(s.subrange(0, i + 1).drop_last() =~= s.subrange(0, i as int));
        if is_rke2_labelled(&nodes[i]) {
            proof {
                lemma_first_rke2_node_prefix(s, i + 1);
            }
            return Some(i);
        }
        i = i + 1;
    }
    assert(s.subrange(0, i as int) =~= s);
    None
}

pub open spec fn has_k3s_role(roles: Seq<JsonModel>) -> bool {
    exists|i: int| 0 <= i < roles.len() && resource_name(roles[i]) == Some("system:k3s-controller"@)
}

/// The distribution observation: K3s where a cluster role is named
/// `system:k3s-controller` (version: the first kubelet version that mentions
/// `k3s`), else RKE2 where a node carries an RKE2 label (version: the kubelet
/// version of the first such node), else RKE2 where a kubelet version
/// mentions `rke2` (version: that kubelet version). A version that cannot be
/// read is `detected`.
pub open spec fn distribution_spec(cluster: Map<Seq<char>, Seq<JsonModel>>) -> Option<ComponentModel> {
    let roles = docs_of(cluster, "clusterroles"@);
    let nodes = docs_of(cluster, "nodes"@);
    if has_k3s_role(roles) {
        Some(
            component(
                "K3s"@,
                Some(
                    match first_kubelet_with(nodes, "k3s"@) {
                        Some(v) => v,
                        None => "detected"@,
                    },
                ),
                "Detected via cluster roles and node version"@,
                "Core"@,
            ),
        )
    } else if first_rke2_node(nodes) is Some {
        Some(
            component(
                "RKE2"@,
                Some(
                    match kubelet_version(nodes[first_rke2_node(nodes)->0]) {
                        Some(v) => v,
                        None => "detected"@,
                    },
                ),
                "Detected via node labels and version"@,
                "Core"@,
            ),
        )
    } else {
        match first_kubelet_with(nodes, "rke2"@) {
            Some(v) => Some(component("RKE2"@, Some(v), "Detected via kubelet version"@, "Core"@)),
            None => None,
        }
    }
}

/// The documents of type `k`, empty where the type is absent.
fn docs_in<'a>(m: &'a ResourceMap, k: &str, empty: &'a Vec<Json>) -> (r: &'a Vec<Json>)
    requires
        empty@.len() == 0,
    ensures
        views(r@) == docs_of(m@, k@),
{
    match m.get(k) {
        Some(v) => v,
        None => {
            assert(views(empty@) =~= Seq::<JsonModel>::empty());
            empty
        },
    }
}

fn k3s_role_present(roles: &Vec<Json>) -> (r: bool)
    ensures
        r == has_k3s_role(views(roles@)),
{
    let mut i: usize = 0;
    while i < roles.len()
        invariant
            i <= roles@.len(),
            forall|j: int| 0 <= j < i ==> resource_name(views(roles@)[j]) != Some(
                "system:k3s-controller"@,
            ),
        decreases roles@.len() - i,
    {
        match name_of(&roles[i]) {
            Some(n) => {
                if same_text(n.as_str(), "system:k3s-controller") {
                    assert(resource_name(views(roles@)[i as int]) == Some("system:k3s-controller"@));
                    return true;
                }
            },
            None => {},
        }
        i = i + 1;
    }
    false
}

/// Finds the Kubernetes distribution of the cluster, if the cluster-scoped
/// resources show it.
pub fn detect_kubernetes_distribution_precise(cluster_resources: &ResourceMap) -> (r: Option<
    SuseEdgeComponent,
>)
    ensures
        r matches Some(c) ==> distribution_spec(cluster_resources@) == Some(c@),
        r is None ==> distribution_spec(cluster_resources@) is None,
{
    let empty: Vec<Json> = Vec::new();
    let roles = docs_in(cluster_resources, "clusterroles", &empty);
    let nodes = docs_in(cluster_resources, "nodes", &empty);
    if k3s_role_present(roles) {
        let version = match find_kubelet_with(nodes, "k3s") {
            Some(v) => v,
            None => String::from_str("detected"),
        };
        return Some(
            make_component(
                "K3s",
                Some(version),
                String::from_str("Detected via cluster roles and node version"),
                "Core",
            ),
        );
    }
    if let Some(i) = rke2_node_index(nodes) {
        let version = match kubelet_version_in(&nodes[i]) {
            Some(v) => v.clone(),
            None => String::from_str("detected"),
        };
        return Some(
            make_component(
                "RKE2",
                Some(version),
                String::from_str("Detected via node labels and version"),
                "Core",
            ),
        );
    }
    match find_kubelet_with(nodes, "rke2") {
        Some(v) => Some(
            make_component("RKE2", Some(v), String::from_str("Detected via kubelet version"), "Core"),
        ),
        None => None,
    }
}


/// The definition-group signals: an API-group fragment, the component it
/// reveals, and the component's category.
pub open spec fn crd_signal(i: int) -> (Seq<char>, Seq<char>, Seq<char>) {
    if i == 0 {
        ("longhorn.io"@, "SUSE Storage (Longhorn)"@, "Storage"@)
    } else if i == 1 {
        ("neuvector.com"@, "SUSE Security (NeuVector)"@, "Security"@)
    } else if i == 2 {
        ("kubevirt.io"@, "KubeVirt"@, "Virtualization"@)
    } else if i == 3 {
        ("cdi.kubevirt.io"@, "Containerized Data Importer"@, "Virtualization"@)
    } else if i == 4 {
        ("metal3.io"@, "Metal3"@, "Infrastructure"@)
    } else if i == 5 {
        ("elemental.cattle.io"@, "Elemental"@, "Infrastructure"@)
    } else {
        ("akri.sh"@, "Akri"@, "IoT"@)
    }
}

pub const CRD_SIGNAL_COUNT: usize = 7;

fn crd_signal_exec(i: usize) -> (r: (&'static str, &'static str, &'static str))
    requires
        i < CRD_SIGNAL_COUNT,
    ensures
        (r.0@, r.1@, r.2@) == crd_signal(i as int),
{
    if i == 0 {
        ("longhorn.io", "SUSE Storage (Longhorn)", "Storage")
    } else if i == 1 {
        ("neuvector.com", "SUSE Security (NeuVector)", "Security")
    } else if i == 2 {
        ("kubevirt.io", "KubeVirt", "Virtualization")
    } else if i == 3 {
        ("cdi.kubevirt.io", "Containerized Data Importer", "Virtualization")
    } else if i == 4 {
        ("metal3.io", "Metal3", "Infrastructure")
    } else if i == 5 {
        ("elemental.cattle.io", "Elemental", "Infrastructure")
    } else {
        ("akri.sh", "Akri", "IoT")
    }
}

/// How many definitions have a name that holds `group`.
pub open spec fn crd_count(crds: Seq<JsonModel>, group: Seq<char>) -> nat
    decreases crds.len(),
{
    if crds.len() == 0 {
        0
    } else {
        crd_count(crds.drop_last(), group) + match resource_name(crds.last()) {
            Some(n) => if has_infix(n, group) {
                1nat
            } else {
                0
            },
            None => 0,
        }
    }
}

/// The observations from the first `n` definition-group signals.
pub open spec fn crd_components_upto(crds: Seq<JsonModel>, n: int) -> Seq<ComponentModel>
    decreases n,
{
    if n <= 0 {
        Seq::empty()
    } else {
        let rest = crd_components_upto(crds, n - 1);
        let sig = crd_signal(n - 1);
        let c = crd_count(crds, sig.0);
        if c > 0 {
            rest.push(component(sig.1, None, decimal(c) + " CRDs detected"@, sig.2))
        } else {
            rest
        }
    }
}

pub open spec fn crd_components(cluster: Map<Seq<char>, Seq<JsonModel>>) -> Seq<ComponentModel> {
    crd_components_upto(docs_of(cluster, "customresourcedefinitions"@), CRD_SIGNAL_COUNT as int)
}

fn count_crds(crds: &Vec<Json>, group: &str) -> (r: usize)
    ensures
        r == crd_count(views(crds@), group@),
{
    let ghost s = views(crds@);
    let mut n: usize = 0;
    let mut i: usize = 0;
    while i < crds.len()
        invariant
            s == views(crds@),
            i <= crds@.len(),
            n <= i,
            n == crd_count(s.subrange(0, i as int), group@),
        decreases crds@.len() - i,
    {
        assert(s.subrange(0, i + 1).drop_last() =~= s.subrange(0, i as int));
        match name_of(&crds[i]) {
            Some(name) => {
                if contains(name.as_str(), group) {
                    n = n + 1;
                }
            },
            None => {},
        }
        i = i + 1;
    }
    assert(s.subrange(0, i as int) =~= s);
    n
}

/// One observation per definition group that some definition's name holds.
pub fn detect_suse_edge_crds_precise(cluster_resources: &ResourceMap) -> (r: Option<
    Vec<SuseEdgeComponent>,
>)
    ensures
        r matches Some(v) ==> component_views(v@) == crd_components(cluster_resources@) && v@.len()
            > 0,
        r is None ==> crd_components(cluster_resources@).len() == 0,
{
    let empty: Vec<Json> = Vec::new();
    let crds = docs_in(cluster_resources, "customresourcedefinitions", &empty);
    let mut out: Vec<SuseEdgeComponent> = Vec::new();
    let mut i: usize = 0;
    while i < CRD_SIGNAL_COUNT
        invariant
            i <= CRD_SIGNAL_COUNT,
            views(crds@) == docs_of(cluster_resources@, "customresourcedefinitions"@),
            component_views(out@) == crd_components_upto(views(crds@), i as int),
        decreases CRD_SIGNAL_COUNT - i,
    {
        let (group, name, category) = crd_signal_exec(i);
        let count = count_crds(crds, group);
        if count > 0 {
            let evidence = join(decimal_text(count).as_str(), " CRDs detected");
            let c = make_component(name, None, evidence, category);
            let ghost before = out@;
            out.push(c);
            assert(component_views(out@) =~= component_views(before).push(c@));
        }
        i = i + 1;
    }
    if out.len() == 0 {
        None
    } else {
        Some(out)
    }
}

/// The observations from deployments in namespace `ns` whose name holds `needle`.
pub open spec fn namespace_hits(
    deps: Seq<JsonModel>,
    ns: Seq<char>,
    needle: Seq<char>,
    name: Seq<char>,
    category: Seq<char>,
) -> Seq<ComponentModel>
    decreases deps.len(),
{
    if deps.len() == 0 {
        Seq::empty()
    } else {
        let rest = namespace_hits(deps.drop_last(), ns, needle, name, category);
        let d = deps.last();
        if resource_namespace(d) == Some(ns) && resource_name(d) is Some && has_infix(
            resource_name(d)->0,
            needle,
        ) {
            rest.push(
                component(
                    name,
                    deployment_version(d),
                    ns + "/"@ + resource_name(d)->0,
                    category,
                ),
            )
        } else {
            rest
        }
    }
}

/// Rancher in `cattle-system`, then Longhorn in `longhorn-system`.
pub open spec fn core_components(namespaced: Map<Seq<char>, Seq<JsonModel>>) -> Seq<ComponentModel> {
    let deps = docs_of(namespaced, "deployments"@);
    namespace_hits(deps, "cattle-system"@, "rancher"@, "SUSE Rancher Prime"@, "Management"@)
        + namespace_hits(deps, "longhorn-system"@, "longhorn"@, "SUSE Storage (Longhorn)"@, "Storage"@)
}

fn scan_deployments(
    deps: &Vec<Json>,
    ns: &str,
    needle: &str,
    name: &str,
    category: &str,
    out: &mut Vec<SuseEdgeComponent>,
)
    ensures
        component_views(final(out)@) == component_views(old(out)@) + namespace_hits(
            views(deps@),
            ns@,
            needle@,
            name@,
            category@,
        ),
{
    let ghost s = views(deps@);
    let ghost start = component_views(out@);
    let mut i: usize = 0;
    while i < deps.len()
        invariant
            s == views(deps@),
            i <= deps@.len(),
            component_views(out@) == start + namespace_hits(
                s.subrange(0, i as int),
                ns@,
                needle@,
                name@,
                category@,
            ),
        decreases deps@.len() - i,
    {
        assert(s.subrange(0, i + 1).drop_last() =~= s.subrange(0, i as int));
        let d = &deps[i];
        match (namespace_of(d), name_of(d)) {
            (Some(dns), Some(dname)) => {
                if same_text(dns.as_str(), ns) && contains(dname.as_str(), needle) {
                    let head = join(ns, "/");
                    let evidence = join(head.as_str(), dname.as_str());
                    let c = make_component(name, extract_version_from_deployment(d), evidence, category);
                    let ghost before = out@;
                    out.push(c);
                    assert(component_views(out@) =~= component_views(before).push(c@));
                    assert(evidence@ =~= ns@ + "/"@ + dname@);
                }
            },
            _ => {},
        }
        i = i + 1;
        proof {
            assert(component_views(out@) =~= start + namespace_hits(
                s.subrange(0, i as int),
                ns@,
                needle@,
                name@,
                category@,
            ));
        }
    }
    assert(s.subrange(0, i as int) =~= s);
}

/// Observations from deployments: Rancher in `cattle-system`, Longhorn in
/// `longhorn-system`.
pub fn detect_core_suse_components(namespaced_resources: &ResourceMap) -> (r: Option<
    Vec<SuseEdgeComponent>,
>)
    ensures
        r matches Some(v) ==> component_views(v@) == core_components(namespaced_resources@)
            && v@.len() > 0,
        r is None ==> core_components(namespaced_resources@).len() == 0,
{
    let empty: Vec<Json> = Vec::new();
    let deps = docs_in(namespaced_resources, "deployments", &empty);
    let mut out: Vec<SuseEdgeComponent> = Vec::new();
    assert(component_views(out@) =~= Seq::<ComponentModel>::empty());
    scan_deployments(deps, "cattle-system", "rancher", "SUSE Rancher Prime", "Management", &mut out);
    scan_deployments(
        deps,
        "longhorn-system",
        "longhorn",
        "SUSE Storage (Longhorn)",
        "Storage",
        &mut out,
    );
    assert(component_views(out@) =~= core_components(namespaced_resources@));
    if out.len() == 0 {
        None
    } else {
        Some(out)
    }
}


/// An image pulled from a vendor registry.
pub open spec fn vendor_image(img: Seq<char>) -> bool {
    has_prefix(img, "registry.suse.com"@) || has_prefix(img, "registry.opensuse.org"@)
}

/// How many of the containers `cs` run a vendor image.
pub open spec fn vendor_images_in(cs: Seq<JsonModel>) -> nat
    decreases cs.len(),
{
    if cs.len() == 0 {
        0
    } else {
        vendor_images_in(cs.drop_last()) + match image_of(cs.last()) {
            Some(img) => if vendor_image(img) {
                1nat
            } else {
                0
            },
            None => 0,
        }
    }
}

/// `n`, held to what a `usize` can count.
pub open spec fn capped(n: int) -> nat {
    if n > usize::MAX {
        usize::MAX as nat
    } else if n < 0 {
        0
    } else {
        n as nat
    }
}

/// How many containers of `docs` run a vendor image.
pub open spec fn vendor_image_total(docs: Seq<JsonModel>) -> nat
    decreases docs.len(),
{
    if docs.len() == 0 {
        0
    } else {
        capped(vendor_image_total(docs.drop_last()) + match containers_of(docs.last()) {
            Some(cs) => vendor_images_in(cs) as int,
            None => 0int,
        })
    }
}

/// How many containers of pods and deployments run a vendor image.
pub open spec fn registry_count(namespaced: Map<Seq<char>, Seq<JsonModel>>) -> nat {
    capped(
        vendor_image_total(docs_of(namespaced, "pods"@)) as int + vendor_image_total(
            docs_of(namespaced, "deployments"@),
        ) as int,
    )
}

/// The one observation of vendor registry use, where there is any.
pub open spec fn registry_component(namespaced: Map<Seq<char>, Seq<JsonModel>>) -> Option<ComponentModel> {
    let n = registry_count(namespaced);
    if n > 0 {
        Some(
            component(
                "SUSE Container Images"@,
                None,
                decimal(n) + " SUSE images in use"@,
                "Infrastructure"@,
            ),
        )
    } else {
        None
    }
}

fn count_vendor_images(cs: &Vec<Json>) -> (r: usize)
    ensures
        r == vendor_images_in(views(cs@)),
{
    let ghost s = views(cs@);
    let mut n: usize = 0;
    let mut i: usize = 0;
    while i < cs.len()
        invariant
            s == views(cs@),
            i <= cs@.len(),
            n <= i,
            n == vendor_images_in(s.subrange(0, i as int)),
        decreases cs@.len() - i,
    {
        assert(s.subrange(0, i + 1).drop_last() =~= s.subrange(0, i as int));
        match image_in(&cs[i]) {
            Some(img) => {
                if starts_with(img.as_str(), "registry.suse.com") || starts_with(
                    img.as_str(),
                    "registry.opensuse.org",
                ) {
                    n = n + 1;
                }
            },
            None => {},
        }
        i = i + 1;
    }
    assert(s.subrange(0, i as int) =~= s);
    n
}

fn count_vendor_images_in_docs(docs: &Vec<Json>) -> (r: usize)
    ensures
        r == vendor_image_total(views(docs@)),
{
    let ghost s = views(docs@);
    let mut n: usize = 0;
    let mut i: usize = 0;
    while i < docs.len()
        invariant
            s == views(docs@),
            i <= docs@.len(),
            n == vendor_image_total(s.subrange(0, i as int)),
        decreases docs@.len() - i,
    {
        assert(s.subrange(0, i + 1).drop_last() =~= s.subrange(0, i as int));
        let here = match containers_in(&docs[i]) {
            Some(cs) => count_vendor_images(cs),
            None => 0,
        };
        n = n.saturating_add(here);
        i = i + 1;
    }
    assert(s.subrange(0, i as int) =~= s);
    n
}

/// The observation of vendor registry use by pods and deployments.
pub fn detect_suse_registry_usage_precise(namespaced_resources: &ResourceMap) -> (r: Option<
    SuseEdgeComponent,
>)
    ensures
        r matches Some(c) ==> registry_component(namespaced_resources@) == Some(c@),
        r is None ==> registry_component(namespaced_resources@) is None,
{
    let empty: Vec<Json> = Vec::new();
    let pods = docs_in(namespaced_resources, "pods", &empty);
    let deps = docs_in(namespaced_resources, "deployments", &empty);
    let n = count_vendor_images_in_docs(pods).saturating_add(count_vendor_images_in_docs(deps));
    if n > 0 {
        let evidence = join(decimal_text(n).as_str(), " SUSE images in use");
        Some(make_component("SUSE Container Images", None, evidence, "Infrastructure"))
    } else {
        None
    }
}

/// The confidence label for a score and a component count: the first tier
/// whose two thresholds are both met, highest tier first.
pub open spec fn confidence_label(score: int, count: int) -> Seq<char> {
    if score >= 60 && count >= 5 {
        "Very High"@
    } else if score >= 40 && count >= 3 {
        "High"@
    } else if score >= 20 && count >= 2 {
        "Medium"@
    } else if score >= 10 && count >= 1 {
        "Low"@
    } else {
        "Minimal"@
    }
}

pub fn determine_confidence_level_conservative(confidence_score: u32, component_count: usize) -> (r:
    String)
    ensures
        r@ == confidence_label(confidence_score as int, component_count as int),
{
    if confidence_score >= 60 && component_count >= 5 {
        String::from_str("Very High")
    } else if confidence_score >= 40 && component_count >= 3 {
        String::from_str("High")
    } else if confidence_score >= 20 && component_count >= 2 {
        String::from_str("Medium")
    } else if confidence_score >= 10 && component_count >= 1 {
        String::from_str("Low")
    } else {
        String::from_str("Minimal")
    }
}

pub open spec fn any_name_holds(cs: Seq<ComponentModel>, part: Seq<char>) -> bool {
    exists|i: int| 0 <= i < cs.len() && has_infix(cs[i].name, part)
}

pub open spec fn any_distribution(cs: Seq<ComponentModel>) -> bool {
    exists|i: int| 0 <= i < cs.len() && (cs[i].name == "K3s"@ || cs[i].name == "RKE2"@)
}

/// The deployment topology that the observations point to.
pub open spec fn deployment_type_spec(cs: Seq<ComponentModel>) -> Seq<char> {
    let rancher = any_name_holds(cs, "Rancher"@);
    let metal3 = any_name_holds(cs, "Metal3"@);
    let elemental = any_name_holds(cs, "Elemental"@);
    if rancher && metal3 {
        "Management Cluster"@
    } else if rancher && elemental {
        "Elemental Management Cluster"@
    } else if rancher {
        "Rancher Management Cluster"@
    } else if any_distribution(cs) {
        "Downstream Cluster"@
    } else {
        "Standalone Cluster"@
    }
}

fn name_holds(components: &Vec<SuseEdgeComponent>, part: &str) -> (r: bool)
    ensures
        r == any_name_holds(component_views(components@), part@),
{
    let mut i: usize = 0;
    while i < components.len()
        invariant
            i <= components@.len(),
            forall|j: int| 0 <= j < i ==> !has_infix(component_views(components@)[j].name, part@),
        decreases components@.len() - i,
    {
        if contains(components[i].name.as_str(), part) {
            assert(has_infix(component_views(components@)[i as int].name, part@));
            return true;
        }
        i = i + 1;
    }
    false
}

fn distribution_named(components: &Vec<SuseEdgeComponent>) -> (r: bool)
    ensures
        r == any_distribution(component_views(components@)),
{
    let mut i: usize = 0;
    while i < components.len()
        invariant
            i <= components@.len(),
            forall|j: int|
                0 <= j < i ==> !(component_views(components@)[j].name == "K3s"@
                    || component_views(components@)[j].name == "RKE2"@),
        decreases components@.len() - i,
    {
        let n = components[i].name.as_str();
        if same_text(n, "K3s") || same_text(n, "RKE2") {
            assert(component_views(components@)[i as int].name == components@[i as int].name@);
            return true;
        }
        i = i + 1;
    }
    false
}

pub fn determine_deployment_type_precise(components: &Vec<SuseEdgeComponent>) -> (r: String)
    ensures
        r@ == deployment_type_spec(component_views(components@)),
{
    let rancher = name_holds(components, "Rancher");
    let metal3 = name_holds(components, "Metal3");
    let elemental = name_holds(components, "Elemental");
    if rancher && metal3 {
        String::from_str("Management Cluster")
    } else if rancher && elemental {
        String::from_str("Elemental Management Cluster")
    } else if rancher {
        String::from_str("Rancher Management Cluster")
    } else if distribution_named(components) {
        String::from_str("Downstream Cluster")
    } else {
        String::from_str("Standalone Cluster")
    }
}

pub open spec fn opt_seq(o: Option<ComponentModel>) -> Seq<ComponentModel> {
    match o {
        Some(c) => seq![c],
        None => Seq::empty(),
    }
}

/// All observations, in order: distribution, definition groups,
/// deployments, registry use.
pub open spec fn detected_components(
    namespaced: Map<Seq<char>, Seq<JsonModel>>,
    cluster: Map<Seq<char>, Seq<JsonModel>>,
) -> Seq<ComponentModel> {
    opt_seq(distribution_spec(cluster)) + crd_components(cluster) + core_components(namespaced)
        + opt_seq(registry_component(namespaced))
}

/// The weighted score of the observations.
pub open spec fn confidence_score(
    namespaced: Map<Seq<char>, Seq<JsonModel>>,
    cluster: Map<Seq<char>, Seq<JsonModel>>,
) -> int {
    (if distribution_spec(cluster) is Some {
        20int
    } else {
        0
    }) + 15 * crd_components(cluster).len() + 10 * core_components(namespaced).len() + (
    if registry_component(namespaced) is Some {
        5int
    } else {
        0
    })
}

/// The report on the aggregated resources; `None` where nothing was observed.
pub open spec fn detection(
    namespaced: Map<Seq<char>, Seq<JsonModel>>,
    cluster: Map<Seq<char>, Seq<JsonModel>>,
) -> Option<AnalysisModel> {
    let cs = detected_components(namespaced, cluster);
    if cs.len() == 0 {
        None
    } else {
        Some(
            AnalysisModel {
                components: cs,
                total_components: cs.len(),
                confidence: confidence_label(confidence_score(namespaced, cluster), cs.len() as int),
                deployment_type: deployment_type_spec(cs),
                kubernetes_distribution: match distribution_spec(cluster) {
                    Some(c) => Some(c.name),
                    None => None,
                },
            },
        )
    }
}

fn append_components(out: &mut Vec<SuseEdgeComponent>, more: Vec<SuseEdgeComponent>)
    ensures
        component_views(final(out)@) == component_views(old(out)@) + component_views(more@),
{
    let ghost start = out@;
    let ghost added = more@;
    let mut more = more;
    out.append(&mut more);
    assert(out@ == start + added);
    assert(component_views(out@) =~= component_views(start) + component_views(added));
}


proof fn lemma_crd_components_len(crds: Seq<JsonModel>, n: int)
    requires
        n >= 0,
    ensures
        crd_components_upto(crds, n).len() <= n,
    decreases n,
{
    if n > 0 {
        lemma_crd_components_len(crds, n - 1);
    }
}

/// Scans the aggregated resources for the distribution and vendor
/// components; `None` where nothing is observed.
pub fn detect_suse_edge_components(
    namespaced_resources: &ResourceMap,
    cluster_resources: &ResourceMap,
) -> (r: Option<SuseEdgeAnalysis>)
    ensures
        r matches Some(a) ==> detection(namespaced_resources@, cluster_resources@) == Some(a@),
        r is None ==> detection(namespaced_resources@, cluster_resources@) is None,
{
    let ghost ns = namespaced_resources@;
    let ghost cl = cluster_resources@;
    let mut components: Vec<SuseEdgeComponent> = Vec::new();
    let mut distribution: Option<String> = None;
    let mut has_distribution = false;
    match detect_kubernetes_distribution_precise(cluster_resources) {
        Some(c) => {
            distribution = Some(c.name.clone());
            has_distribution = true;
            components.push(c);
        },
        None => {},
    }
    assert(component_views(components@) =~= opt_seq(distribution_spec(cl)));
    let mut crd_found: usize = 0;
    match detect_suse_edge_crds_precise(cluster_resources) {
        Some(v) => {
            crd_found = v.len();
            append_components(&mut components, v);
        },
        None => {
            assert(crd_components(cl) =~= Seq::<ComponentModel>::empty());
        },
    }
    proof {
        lemma_crd_components_len(docs_of(cl, "customresourcedefinitions"@), CRD_SIGNAL_COUNT as int);
    }
    let mut core_found: usize = 0;
    match detect_core_suse_components(namespaced_resources) {
        Some(v) => {
            core_found = v.len();
            append_components(&mut components, v);
        },
        None => {
            assert(core_components(ns) =~= Seq::<ComponentModel>::empty());
        },
    }
    let mut has_registry = false;
    match detect_suse_registry_usage_precise(namespaced_resources) {
        Some(c) => {
            has_registry = true;
            let ghost before = component_views(components@);
            components.push(c);
            assert(component_views(components@) =~= before + seq![c@]);
        },
        None => {},
    }
    assert(component_views(components@) =~= detected_components(ns, cl));
    if components.len() == 0 {
        return None;
    }
    let total = components.len();
    // Past six deployment observations the score clears every threshold anyway.
    let core_score: u32 = if core_found >= 6 {
        60
    } else {
        10 * core_found as u32
    };
    let score: u32 = (if has_distribution {
        20
    } else {
        0
    }) + 15 * crd_found as u32 + core_score + (if has_registry {
        5
    } else {
        0
    });
    proof {
        let full = confidence_score(ns, cl);
        assert(core_found >= 6 ==> full >= 60 && score >= 60);
        assert(core_found < 6 ==> full == score);
        assert(confidence_label(score as int, total as int) == confidence_label(full, total as int));
    }
    let confidence = determine_confidence_level_conservative(score, total);
    let deployment_type = determine_deployment_type_precise(&components);
    Some(
        SuseEdgeAnalysis {
            components,
            total_components: total,
            confidence,
            deployment_type,
            kubernetes_distribution: distribution,
        },
    )
}

/// The report on the aggregated resources, the empty report where nothing
/// is observed.
pub open spec fn report(
    namespaced: Map<Seq<char>, Seq<JsonModel>>,
    cluster: Map<Seq<char>, Seq<JsonModel>>,
) -> AnalysisModel {
    match detection(namespaced, cluster) {
        Some(a) => a,
        None => empty_analysis(),
    }
}

/// Produces the report on the aggregated resources; it never fails, and
/// where nothing is observed it is the explicit empty report.
pub fn analyze_cluster(namespaced_resources: &ResourceMap, cluster_resources: &ResourceMap) -> (r:
    SuseEdgeAnalysis)
    ensures
        r@ == report(namespaced_resources@, cluster_resources@),
{
    match detect_suse_edge_components(namespaced_resources, cluster_resources) {
        Some(a) => a,
        None => create_empty_analysis(),
    }
}

proof fn lemma_no_crd_components(n: int)
    requires
        n >= 0,
    ensures
        crd_components_upto(Seq::empty(), n).len() == 0,
    decreases n,
{
    if n > 0 {
        lemma_no_crd_components(n - 1);
    }
}

/// With no cluster roles, nodes, definitions, deployments or pods to read,
/// the report is the explicit empty one: no observation, the `None`
/// confidence sentinel, no distribution.
pub proof fn lemma_empty_input_gives_empty_report(
    namespaced: Map<Seq<char>, Seq<JsonModel>>,
    cluster: Map<Seq<char>, Seq<JsonModel>>,
)
    requires
        docs_of(cluster, "clusterroles"@).len() == 0,
        docs_of(cluster, "nodes"@).len() == 0,
        docs_of(cluster, "customresourcedefinitions"@).len() == 0,
        docs_of(namespaced, "deployments"@).len() == 0,
        docs_of(namespaced, "pods"@).len() == 0,
    ensures
        detection(namespaced, cluster) is None,
        report(namespaced, cluster) == empty_analysis(),
{
    assert(docs_of(cluster, "customresourcedefinitions"@) =~= Seq::<JsonModel>::empty());
    lemma_no_crd_components(CRD_SIGNAL_COUNT as int);
    assert(detected_components(namespaced, cluster) =~= Seq::<ComponentModel>::empty());
}


/// Advice that goes with a report: a short list when little was found or
/// confidence is low or the distribution is unknown, else a confirmation.
pub open spec fn recommendations_spec(a: AnalysisModel) -> Seq<Seq<char>> {
    let first = if a.total_components < 3 {
        seq!["Consider reviewing complete SUSE Edge documentation for full deployment"@]
    } else {
        Seq::empty()
    };
    let second = if a.confidence == "Low"@ || a.confidence == "Minimal"@ {
        seq!["Some components may not be detected due to custom configurations"@]
    } else {
        Seq::empty()
    };
    let third = if a.kubernetes_distribution is None {
        seq!["Kubernetes distribution could not be determined"@]
    } else {
        Seq::empty()
    };
    let all = first + second + third;
    if all.len() == 0 {
        seq!["SUSE Edge deployment detected successfully"@]
    } else {
        all
    }
}

pub fn generate_recommendations_clean(edge_analysis: &SuseEdgeAnalysis) -> (r: Vec<String>)
    ensures
        string_views(r@) == recommendations_spec(edge_analysis@),
{
    let ghost a = edge_analysis@;
    let mut r: Vec<String> = Vec::new();
    if edge_analysis.total_components < 3 {
        r.push(String::from_str("Consider reviewing complete SUSE Edge documentation for full deployment"));
    }
    let c = edge_analysis.confidence.as_str();
    if same_text(c, "Low") || same_text(c, "Minimal") {
        r.push(String::from_str("Some components may not be detected due to custom configurations"));
    }
    if edge_analysis.kubernetes_distribution.is_none() {
        r.push(String::from_str("Kubernetes distribution could not be determined"));
    }
    if r.len() == 0 {
        r.push(String::from_str("SUSE Edge deployment detected successfully"));
    }
    assert(string_views(r@) =~= recommendations_spec(a));
    r
}

} // verus!
