use vstd::prelude::*;

use crate::json::{
    field_of, lemma_array_view, lemma_object_view, lookup, member_views, text_of, views, Json,
    JsonModel,
};
use crate::text::{has_prefix, same_text, starts_with};

verus! {

/// A member of an object, as the model sees it: its name and its value.
pub type Member = (Seq<char>, JsonModel);

/// The kinds of resource that have rules of their own.
#[derive(Clone, Copy, Debug)]
pub enum ResourceKind {
    Node,
    Service,
    PersistentVolume,
    PersistentVolumeClaim,
    Other,
}

/// Which rule applies to the members of an object.
#[derive(Clone, Copy, Debug)]
pub enum MemberRule {
    /// The top level of a document of the given kind.
    Document(ResourceKind),
    Metadata,
    Annotations,
    NodeSpec,
    ServiceSpec,
    PortFields,
    VolumeSpec,
    ClaimSpec,
}

/// Which rule applies to the items of an array.
#[derive(Clone, Copy, Debug)]
pub enum ItemRule {
    Finalizers,
    Ports,
}

/// Why a document could not be sanitized.
#[derive(Clone, Copy, Debug, PartialEq, Eq)]
pub enum SanitizeError {
    /// The document is not an object.
    NotAnObject,
}

pub open spec fn member_depth(rule: MemberRule) -> nat {
    match rule {
        MemberRule::Document(_) => 3,
        MemberRule::Metadata => 2,
        MemberRule::ServiceSpec => 2,
        _ => 0,
    }
}

pub open spec fn item_depth(rule: ItemRule) -> nat {
    1
}

/// Metadata fields that the cluster assigns.
pub open spec fn assigned_metadata_field(k: Seq<char>) -> bool {
    k == "uid"@ || k == "resourceVersion"@ || k == "creationTimestamp"@ || k == "generation"@
        || k == "managedFields"@ || k == "selfLink"@
}

/// Annotations that tools write at run time.
pub open spec fn runtime_annotation(k: Seq<char>) -> bool {
    has_prefix(k, "kubectl.kubernetes.io/"@) || has_prefix(k, "deployment.kubernetes.io/"@) || k
        == "control-plane.alpha.kubernetes.io/leader"@
}

/// The node spec fields that are kept.
pub open spec fn kept_node_field(k: Seq<char>) -> bool {
    k == "podCIDR"@ || k == "podCIDRs"@ || k == "taints"@
}

/// A node port at or above 30000 counts as assigned by the cluster; a value
/// that is not an unsigned integer counts as 0.
pub open spec fn assigned_node_port(v: JsonModel) -> bool {
    match v.unsigned() {
        Some(n) => n >= 30000,
        None => false,
    }
}

/// The rule for `spec` in a document of the given kind, if it has one.
pub open spec fn spec_rule(kind: ResourceKind) -> Option<MemberRule> {
    match kind {
        ResourceKind::Node => Some(MemberRule::NodeSpec),
        ResourceKind::Service => Some(MemberRule::ServiceSpec),
        ResourceKind::PersistentVolume => Some(MemberRule::VolumeSpec),
        ResourceKind::PersistentVolumeClaim => Some(MemberRule::ClaimSpec),
        ResourceKind::Other => None,
    }
}

/// The members that remain of `s` under `rule`, each as the rule leaves it.
pub open spec fn filter_members(rule: MemberRule, s: Seq<Member>) -> Seq<Member>
    decreases member_depth(rule), 1nat, s.len(),
{
    if s.len() == 0 {
        Seq::empty()
    } else {
        let rest = filter_members(rule, s.drop_last());
        match apply_member(rule, s.last()) {
            Some(m) => rest.push(m),
            None => rest,
        }
    }
}

/// The items that remain of `s` under `rule`, each as the rule leaves it.
pub open spec fn filter_items(rule: ItemRule, s: Seq<JsonModel>) -> Seq<JsonModel>
    decreases item_depth(rule), 1nat, s.len(),
{
    if s.len() == 0 {
        Seq::empty()
    } else {
        let rest = filter_items(rule, s.drop_last());
        match apply_item(rule, s.last()) {
            Some(x) => rest.push(x),
            None => rest,
        }
    }
}

/// What `rule` makes of one member: `None` drops it.
pub open spec fn apply_member(rule: MemberRule, m: Member) -> Option<Member>
    decreases member_depth(rule), 0nat, 0nat,
{
    match rule {
        MemberRule::Document(kind) => {
            if m.0 == "status"@ {
                None
            } else if m.0 == "metadata"@ && m.1 is Object {
                Some((m.0, JsonModel::Object(filter_members(MemberRule::Metadata, m.1->Object_0))))
            } else if m.0 == "spec"@ && m.1 is Object && spec_rule(kind) is Some {
                Some((m.0, JsonModel::Object(filter_members(spec_rule(kind)->0, m.1->Object_0))))
            } else {
                Some(m)
            }
        },
        MemberRule::Metadata => {
            if assigned_metadata_field(m.0) {
                None
            } else if m.0 == "annotations"@ && m.1 is Object {
                let kept = filter_members(MemberRule::Annotations, m.1->Object_0);
                if kept.len() == 0 {
                    None
                } else {
                    Some((m.0, JsonModel::Object(kept)))
                }
            } else if m.0 == "finalizers"@ && m.1 is Array {
                let kept = filter_items(ItemRule::Finalizers, m.1->Array_0);
                if kept.len() == 0 {
                    None
                } else {
                    Some((m.0, JsonModel::Array(kept)))
                }
            } else {
                Some(m)
            }
        },
        MemberRule::Annotations => if runtime_annotation(m.0) {
            None
        } else {
            Some(m)
        },
        MemberRule::NodeSpec => if kept_node_field(m.0) {
            Some(m)
        } else {
            None
        },
        MemberRule::ServiceSpec => {
            if m.0 == "clusterIP"@ || m.0 == "clusterIPs"@ {
                None
            } else if m.0 == "ports"@ && m.1 is Array {
                Some((m.0, JsonModel::Array(filter_items(ItemRule::Ports, m.1->Array_0))))
            } else {
                Some(m)
            }
        },
        MemberRule::PortFields => if m.0 == "nodePort"@ && assigned_node_port(m.1) {
            None
        } else {
            Some(m)
        },
        MemberRule::VolumeSpec => if m.0 == "claimRef"@ {
            None
        } else {
            Some(m)
        },
        MemberRule::ClaimSpec => if m.0 == "volumeName"@ {
            None
        } else {
            Some(m)
        },
    }
}

/// What `rule` makes of one item: `None` drops it.
pub open spec fn apply_item(rule: ItemRule, x: JsonModel) -> Option<JsonModel>
    decreases item_depth(rule), 0nat, 0nat,
{
    match rule {
        ItemRule::Finalizers => match x {
            JsonModel::Str(s) => if has_prefix(s, "kubernetes.io/"@) {
                None
            } else {
                Some(x)
            },
            _ => Some(x),
        },
        ItemRule::Ports => match x {
            JsonModel::Object(es) => Some(
                JsonModel::Object(filter_members(MemberRule::PortFields, es)),
            ),
            _ => Some(x),
        },
    }
}

/// The kind that a document declares, as far as the rules tell kinds apart.
pub open spec fn kind_named(t: Option<Seq<char>>) -> ResourceKind {
    if t == Some("Node"@) {
        ResourceKind::Node
    } else if t == Some("Service"@) {
        ResourceKind::Service
    } else if t == Some("PersistentVolume"@) {
        ResourceKind::PersistentVolume
    } else if t == Some("PersistentVolumeClaim"@) {
        ResourceKind::PersistentVolumeClaim
    } else {
        ResourceKind::Other
    }
}

pub open spec fn document_kind(es: Seq<Member>) -> ResourceKind {
    kind_named(text_of(lookup(es, "kind"@)))
}

/// The document made ready to apply again, or `None` where it is not an object.
pub open spec fn sanitized(d: JsonModel) -> Option<JsonModel> {
    match d {
        JsonModel::Object(es) => Some(
            JsonModel::Object(filter_members(MemberRule::Document(document_kind(es)), es)),
        ),
        _ => None,
    }
}

pub proof fn lemma_filter_members_step(rule: MemberRule, s: Seq<Member>, i: int)
    requires
        0 <= i < s.len(),
    ensures
        filter_members(rule, s.subrange(0, i + 1)) == (match apply_member(rule, s[i]) {
            Some(m) => filter_members(rule, s.subrange(0, i)).push(m),
            None => filter_members(rule, s.subrange(0, i)),
        }),
{
    assert(s.subrange(0, i + 1).drop_last() =~= s.subrange(0, i));
}

pub proof fn lemma_filter_items_step(rule: ItemRule, s: Seq<JsonModel>, i: int)
    requires
        0 <= i < s.len(),
    ensures
        filter_items(rule, s.subrange(0, i + 1)) == (match apply_item(rule, s[i]) {
            Some(x) => filter_items(rule, s.subrange(0, i)).push(x),
            None => filter_items(rule, s.subrange(0, i)),
        }),
{
    assert(s.subrange(0, i + 1).drop_last() =~= s.subrange(0, i));
}


fn is_key(k: &String, name: &str) -> (r: bool)
    ensures
        r == (k@ == name@),
{
    same_text(k.as_str(), name)
}

/// The members of `es` that remain under `rule`, each as the rule leaves it.
fn filter_members_exec(rule: MemberRule, es: &Vec<(String, Json)>) -> (r: Vec<(String, Json)>)
    ensures
        member_views(r@) == filter_members(rule, member_views(es@)),
    decreases member_depth(rule), 1nat,
{
    let ghost s = member_views(es@);
    let mut out: Vec<(String, Json)> = Vec::new();
    let mut i: usize = 0;
    while i < es.len()
        invariant
            s == member_views(es@),
            i <= es@.len(),
            member_views(out@) == filter_members(rule, s.subrange(0, i as int)),
        decreases es@.len() - i,
    {
        proof {
            lemma_filter_members_step(rule, s, i as int);
            assert(s[i as int] == (es@[i as int].0@, es@[i as int].1@));
        }
        match apply_member_exec(rule, &es[i].0, &es[i].1) {
            Some(m) => {
                let ghost before = out@;
                out.push(m);
                assert(member_views(out@) =~= member_views(before).push((m.0@, m.1@)));
            },
            None => {},
        }
        i = i + 1;
    }
    proof {
        crate::json::lemma_prefix_whole(s);
    }
    out
}

/// The items of `items` that remain under `rule`, each as the rule leaves it.
fn filter_items_exec(rule: ItemRule, items: &Vec<Json>) -> (r: Vec<Json>)
    ensures
        views(r@) == filter_items(rule, views(items@)),
    decreases item_depth(rule), 1nat,
{
    let ghost s = views(items@);
    let mut out: Vec<Json> = Vec::new();
    let mut i: usize = 0;
    while i < items.len()
        invariant
            s == views(items@),
            i <= items@.len(),
            views(out@) == filter_items(rule, s.subrange(0, i as int)),
        decreases items@.len() - i,
    {
        proof {
            lemma_filter_items_step(rule, s, i as int);
        }
        match apply_item_exec(rule, &items[i]) {
            Some(x) => {
                let ghost before = out@;
                out.push(x);
                assert(views(out@) =~= views(before).push(x@));
            },
            None => {},
        }
        i = i + 1;
    }
    proof {
        crate::json::lemma_prefix_whole(s);
    }
    out
}

fn exec_spec_rule(kind: ResourceKind) -> (r: Option<MemberRule>)
    ensures
        r == spec_rule(kind),
{
    match kind {
        ResourceKind::Node => Some(MemberRule::NodeSpec),
        ResourceKind::Service => Some(MemberRule::ServiceSpec),
        ResourceKind::PersistentVolume => Some(MemberRule::VolumeSpec),
        ResourceKind::PersistentVolumeClaim => Some(MemberRule::ClaimSpec),
        ResourceKind::Other => None,
    }
}

fn is_runtime_annotation(k: &String) -> (r: bool)
    ensures
        r == runtime_annotation(k@),
{
    starts_with(k.as_str(), "kubectl.kubernetes.io/") || starts_with(k.as_str(), "deployment.kubernetes.io/")
        || is_key(k, "control-plane.alpha.kubernetes.io/leader")
}

fn is_assigned_metadata_field(k: &String) -> (r: bool)
    ensures
        r == assigned_metadata_field(k@),
{
    is_key(k, "uid") || is_key(k, "resourceVersion") || is_key(k, "creationTimestamp") || is_key(
        k,
        "generation",
    ) || is_key(k, "managedFields") || is_key(k, "selfLink")
}

fn is_assigned_node_port(v: &Json) -> (r: bool)
    ensures
        r == assigned_node_port(v@),
{
    match v.as_u64() {
        Some(n) => n >= 30000,
        None => false,
    }
}

/// What `rule` makes of the member `key`: `value`.
fn apply_member_exec(rule: MemberRule, key: &String, value: &Json) -> (r: Option<(String, Json)>)
    ensures
        r matches Some(m) ==> apply_member(rule, (key@, value@)) == Some((m.0@, m.1@)),
        r is None ==> apply_member(rule, (key@, value@)) is None,
    decreases member_depth(rule), 0nat,
{
    let ghost m = (key@, value@);
    match rule {
        MemberRule::Document(kind) => {
            if is_key(key, "status") {
                return None;
            }
            match value {
                Json::Object(es) => {
                    proof { lemma_object_view(*es); }
                    if is_key(key, "metadata") {
                        let kept = filter_members_exec(MemberRule::Metadata, es);
                        proof { lemma_object_view(kept); }
                        return Some((key.clone(), Json::Object(kept)));
                    }
                    if is_key(key, "spec") {
                        match exec_spec_rule(kind) {
                            Some(sub) => {
                                let kept = filter_members_exec(sub, es);
                                proof { lemma_object_view(kept); }
                                return Some((key.clone(), Json::Object(kept)));
                            },
                            None => {},
                        }
                    }
                },
                _ => {},
            }
            Some((key.clone(), value.copy()))
        },
        MemberRule::Metadata => {
            if is_assigned_metadata_field(key) {
                return None;
            }
            match value {
                Json::Object(es) => {
                    proof { lemma_object_view(*es); }
                    if is_key(key, "annotations") {
                        let kept = filter_members_exec(MemberRule::Annotations, es);
                        if kept.len() == 0 {
                            return None;
                        }
                        proof { lemma_object_view(kept); }
                        return Some((key.clone(), Json::Object(kept)));
                    }
                },
                Json::Array(items) => {
                    proof { lemma_array_view(*items); }
                    if is_key(key, "finalizers") {
                        let kept = filter_items_exec(ItemRule::Finalizers, items);
                        if kept.len() == 0 {
                            return None;
                        }
                        proof { lemma_array_view(kept); }
                        return Some((key.clone(), Json::Array(kept)));
                    }
                },
                _ => {},
            }
            Some((key.clone(), value.copy()))
        },
        MemberRule::Annotations => {
            if is_runtime_annotation(key) {
                None
            } else {
                Some((key.clone(), value.copy()))
            }
        },
        MemberRule::NodeSpec => {
            if is_key(key, "podCIDR") || is_key(key, "podCIDRs") || is_key(key, "taints") {
                Some((key.clone(), value.copy()))
            } else {
                None
            }
        },
        MemberRule::ServiceSpec => {
            if is_key(key, "clusterIP") || is_key(key, "clusterIPs") {
                return None;
            }
            match value {
                Json::Array(items) => {
                    proof { lemma_array_view(*items); }
                    if is_key(key, "ports") {
                        let kept = filter_items_exec(ItemRule::Ports, items);
                        proof { lemma_array_view(kept); }
                        return Some((key.clone(), Json::Array(kept)));
                    }
                },
                _ => {},
            }
            Some((key.clone(), value.copy()))
        },
        MemberRule::PortFields => {
            if is_key(key, "nodePort") && is_assigned_node_port(value) {
                None
            } else {
                Some((key.clone(), value.copy()))
            }
        },
        MemberRule::VolumeSpec => {
            if is_key(key, "claimRef") {
                None
            } else {
                Some((key.clone(), value.copy()))
            }
        },
        MemberRule::ClaimSpec => {
            if is_key(key, "volumeName") {
                None
            } else {
                Some((key.clone(), value.copy()))
            }
        },
    }
}

/// What `rule` makes of the item `x`.
fn apply_item_exec(rule: ItemRule, x: &Json) -> (r: Option<Json>)
    ensures
        r matches Some(y) ==> apply_item(rule, x@) == Some(y@),
        r is None ==> apply_item(rule, x@) is None,
    decreases item_depth(rule), 0nat,
{
    match rule {
        ItemRule::Finalizers => match x {
            Json::Str(s) => {
                if starts_with(s.as_str(), "kubernetes.io/") {
                    None
                } else {
                    Some(x.copy())
                }
            },
            _ => Some(x.copy()),
        },
        ItemRule::Ports => match x {
            Json::Object(es) => {
                proof { lemma_object_view(*es); }
                let kept = filter_members_exec(MemberRule::PortFields, es);
                proof { lemma_object_view(kept); }
                Some(Json::Object(kept))
            },
            _ => Some(x.copy()),
        },
    }
}

/// The kind that `resource` declares, as far as the rules tell kinds apart.
fn resource_kind(resource: &Json) -> (r: ResourceKind)
    requires
        resource@ is Object,
    ensures
        r == document_kind(resource@->Object_0),
{
    match resource.get("kind") {
        Some(k) => match k.as_str() {
            Some(t) => {
                if is_key(t, "Node") {
                    ResourceKind::Node
                } else if is_key(t, "Service") {
                    ResourceKind::Service
                } else if is_key(t, "PersistentVolume") {
                    ResourceKind::PersistentVolume
                } else if is_key(t, "PersistentVolumeClaim") {
                    ResourceKind::PersistentVolumeClaim
                } else {
                    ResourceKind::Other
                }
            },
            None => ResourceKind::Other,
        },
        None => ResourceKind::Other,
    }
}

/// A copy of `resource` that can be applied to a cluster again: the status,
/// the fields that the cluster assigns, run-time annotations and system
/// finalizers are gone, and so are the fields of `spec` that the kind's own
/// rule names. The source is left as it was.
pub fn sanitize_resource_for_apply(resource: &Json) -> (r: Result<Json, SanitizeError>)
    ensures
        r matches Ok(d) ==> sanitized(resource@) == Some(d@),
        r is Err ==> sanitized(resource@) is None,
        r is Err <==> !(resource@ is Object),
{
    match resource {
        Json::Object(es) => {
            proof { lemma_object_view(*es); }
            let kind = resource_kind(resource);
            let kept = filter_members_exec(MemberRule::Document(kind), es);
            proof { lemma_object_view(kept); }
            Ok(Json::Object(kept))
        },
        _ => Err(SanitizeError::NotAnObject),
    }
}


/// Applying a rule to what it produced changes nothing.
proof fn lemma_apply_member_stable(rule: MemberRule, m: Member)
    ensures
        apply_member(rule, m) matches Some(m2) ==> apply_member(rule, m2) == Some(m2),
    decreases member_depth(rule), 0nat, 0nat,
{
    match rule {
        MemberRule::Document(kind) => {
            if m.0 != "status"@ && m.0 == "metadata"@ && m.1 is Object {
                lemma_filter_members_stable(MemberRule::Metadata, m.1->Object_0);
            } else if m.0 != "status"@ && m.0 == "spec"@ && m.1 is Object && spec_rule(kind) is Some {
                lemma_filter_members_stable(spec_rule(kind)->0, m.1->Object_0);
            }
        },
        MemberRule::Metadata => {
            if !assigned_metadata_field(m.0) && m.0 == "annotations"@ && m.1 is Object {
                lemma_filter_members_stable(MemberRule::Annotations, m.1->Object_0);
            } else if !assigned_metadata_field(m.0) && m.0 == "finalizers"@ && m.1 is Array {
                lemma_filter_items_stable(ItemRule::Finalizers, m.1->Array_0);
            }
        },
        MemberRule::ServiceSpec => {
            if m.0 == "ports"@ && m.1 is Array {
                lemma_filter_items_stable(ItemRule::Ports, m.1->Array_0);
            }
        },
        _ => {},
    }
}

proof fn lemma_apply_item_stable(rule: ItemRule, x: JsonModel)
    ensures
        apply_item(rule, x) matches Some(y) ==> apply_item(rule, y) == Some(y),
    decreases item_depth(rule), 0nat, 0nat,
{
    match rule {
        ItemRule::Ports => {
            if x is Object {
                lemma_filter_members_stable(MemberRule::PortFields, x->Object_0);
            }
        },
        _ => {},
    }
}

proof fn lemma_filter_members_stable(rule: MemberRule, s: Seq<Member>)
    ensures
        filter_members(rule, filter_members(rule, s)) == filter_members(rule, s),
    decreases member_depth(rule), 1nat, s.len(),
{
    if s.len() > 0 {
        let rest = filter_members(rule, s.drop_last());
        lemma_filter_members_stable(rule, s.drop_last());
        lemma_apply_member_stable(rule, s.last());
        match apply_member(rule, s.last()) {
            Some(m) => {
                assert(rest.push(m).drop_last() =~= rest);
            },
            None => {},
        }
    }
}

proof fn lemma_filter_items_stable(rule: ItemRule, s: Seq<JsonModel>)
    ensures
        filter_items(rule, filter_items(rule, s)) == filter_items(rule, s),
    decreases item_depth(rule), 1nat, s.len(),
{
    if s.len() > 0 {
        let rest = filter_items(rule, s.drop_last());
        lemma_filter_items_stable(rule, s.drop_last());
        lemma_apply_item_stable(rule, s.last());
        match apply_item(rule, s.last()) {
            Some(x) => {
                assert(rest.push(x).drop_last() =~= rest);
            },
            None => {},
        }
    }
}

proof fn lemma_distinct_top_names()
    ensures
        "kind"@ != "status"@,
        "kind"@ != "metadata"@,
        "kind"@ != "spec"@,
        "spec"@ != "status"@,
        "spec"@ != "metadata"@,
{
    reveal_strlit("kind");
    reveal_strlit("status");
    reveal_strlit("metadata");
    reveal_strlit("spec");
    assert("kind"@[0] != "spec"@[0]);
    assert("spec"@[1] != "status"@[1]);
}

/// The top-level rule keeps the `kind` member as it is.
proof fn lemma_kind_kept(k: ResourceKind, es: Seq<Member>)
    ensures
        lookup(filter_members(MemberRule::Document(k), es), "kind"@) == lookup(es, "kind"@),
    decreases es.len(),
{
    lemma_distinct_top_names();
    if es.len() > 0 {
        let rest = filter_members(MemberRule::Document(k), es.drop_last());
        lemma_kind_kept(k, es.drop_last());
        match apply_member(MemberRule::Document(k), es.last()) {
            Some(m) => {
                assert(rest.push(m).drop_last() =~= rest);
                assert(m.0 == es.last().0);
            },
            None => {},
        }
    }
}

/// Sanitizing a sanitized document gives it back unchanged: no field that the
/// rules remove comes back, and nothing else changes.
pub proof fn lemma_sanitize_idempotent(d: JsonModel)
    ensures
        sanitized(d) matches Some(s) ==> sanitized(s) == Some(s),
{
    if d is Object {
        let es = d->Object_0;
        let k = document_kind(es);
        lemma_kind_kept(k, es);
        lemma_filter_members_stable(MemberRule::Document(k), es);
    }
}

/// Every member that a rule leaves is what the rule made of a member of the input.
proof fn lemma_filter_members_origin(rule: MemberRule, s: Seq<Member>, j: int)
    requires
        0 <= j < filter_members(rule, s).len(),
    ensures
        exists|i: int| 0 <= i < s.len() && apply_member(rule, s[i]) == Some(filter_members(rule, s)[j]),
    decreases s.len(),
{
    let rest = filter_members(rule, s.drop_last());
    if j < rest.len() {
        lemma_filter_members_origin(rule, s.drop_last(), j);
        let i = choose|i: int| 0 <= i < s.drop_last().len() && apply_member(rule, s.drop_last()[i]) == Some(rest[j]);
        assert(s[i] == s.drop_last()[i]);
    } else {
        assert(apply_member(rule, s[s.len() - 1]) == Some(filter_members(rule, s)[j]));
    }
}

/// In a sanitized node, `spec` holds no field but `podCIDR`, `podCIDRs` and
/// `taints`, whatever order the input had.
pub proof fn lemma_node_spec_fields(d: JsonModel, i: int, j: int)
    requires
        d is Object,
        document_kind(d->Object_0) == ResourceKind::Node,
        0 <= i < sanitized(d)->0->Object_0.len(),
        sanitized(d)->0->Object_0[i].0 == "spec"@,
        sanitized(d)->0->Object_0[i].1 is Object,
        0 <= j < sanitized(d)->0->Object_0[i].1->Object_0.len(),
    ensures
        kept_node_field(sanitized(d)->0->Object_0[i].1->Object_0[j].0),
{
    let es = d->Object_0;
    let rule = MemberRule::Document(ResourceKind::Node);
    let out = filter_members(rule, es);
    lemma_filter_members_origin(rule, es, i);
    let k = choose|k: int| 0 <= k < es.len() && apply_member(rule, es[k]) == Some(out[i]);
    lemma_distinct_top_names();
    assert(es[k].1 is Object);
    let inner = es[k].1->Object_0;
    assert(out[i].1->Object_0 == filter_members(MemberRule::NodeSpec, inner));
    lemma_filter_members_origin(MemberRule::NodeSpec, inner, j);
}


/// Every item that a rule leaves is what the rule made of an item of the input.
proof fn lemma_filter_items_origin(rule: ItemRule, s: Seq<JsonModel>, j: int)
    requires
        0 <= j < filter_items(rule, s).len(),
    ensures
        exists|i: int| 0 <= i < s.len() && apply_item(rule, s[i]) == Some(filter_items(rule, s)[j]),
    decreases s.len(),
{
    let rest = filter_items(rule, s.drop_last());
    if j < rest.len() {
        lemma_filter_items_origin(rule, s.drop_last(), j);
        let i = choose|i: int| 0 <= i < s.drop_last().len() && apply_item(rule, s.drop_last()[i]) == Some(rest[j]);
        assert(s[i] == s.drop_last()[i]);
    } else {
        assert(apply_item(rule, s[s.len() - 1]) == Some(filter_items(rule, s)[j]));
    }
}

/// Every rule keeps the name of each member it keeps.
proof fn lemma_apply_keeps_name(rule: MemberRule, m: Member)
    ensures
        apply_member(rule, m) matches Some(m2) ==> m2.0 == m.0,
{
}

/// The metadata that sanitizing leaves: no field that the cluster assigns,
/// no run-time annotation, no `kubernetes.io/` finalizer.
pub open spec fn clean_metadata_member(m: Member) -> bool {
    &&& !assigned_metadata_field(m.0)
    &&& (m.0 == "annotations"@ && m.1 is Object ==> forall|k: int|
        0 <= k < m.1->Object_0.len() ==> !runtime_annotation(#[trigger] m.1->Object_0[k].0))
    &&& (m.0 == "finalizers"@ && m.1 is Array ==> forall|k: int|
        0 <= k < m.1->Array_0.len() ==> apply_item(ItemRule::Finalizers, #[trigger] m.1->Array_0[k])
            == Some(m.1->Array_0[k]) && !(m.1->Array_0[k] matches JsonModel::Str(t) && has_prefix(
            t,
            "kubernetes.io/"@,
        )))
}

proof fn lemma_metadata_member_clean(x: Member)
    requires
        apply_member(MemberRule::Metadata, x) is Some,
    ensures
        clean_metadata_member(apply_member(MemberRule::Metadata, x)->0),
{
    reveal_strlit("annotations");
    reveal_strlit("finalizers");
    let m = apply_member(MemberRule::Metadata, x)->0;
    lemma_apply_keeps_name(MemberRule::Metadata, x);
    if m.0 == "annotations"@ && m.1 is Object {
        assert(x.1 is Object);
        assert forall|k: int| 0 <= k < m.1->Object_0.len() implies !runtime_annotation(
            #[trigger] m.1->Object_0[k].0,
        ) by {
            lemma_filter_members_origin(MemberRule::Annotations, x.1->Object_0, k);
        }
    }
    if m.0 == "finalizers"@ && m.1 is Array {
        assert(x.1 is Array);
        assert forall|k: int| 0 <= k < m.1->Array_0.len() implies apply_item(
            ItemRule::Finalizers,
            #[trigger] m.1->Array_0[k],
        ) == Some(m.1->Array_0[k]) && !(m.1->Array_0[k] matches JsonModel::Str(t) && has_prefix(
            t,
            "kubernetes.io/"@,
        )) by {
            lemma_filter_items_origin(ItemRule::Finalizers, x.1->Array_0, k);
        }
    }
}

/// What the rules remove does not come back: a sanitized document has no
/// `status`, and its metadata holds no field that the cluster assigns, no
/// run-time annotation and no `kubernetes.io/` finalizer.
pub proof fn lemma_sanitized_excludes_removed_fields(d: JsonModel, i: int, j: int)
    requires
        sanitized(d) is Some,
        0 <= i < sanitized(d)->0->Object_0.len(),
    ensures
        sanitized(d)->0->Object_0[i].0 != "status"@,
        sanitized(d)->0->Object_0[i].0 == "metadata"@ && sanitized(d)->0->Object_0[i].1 is Object
            && 0 <= j < sanitized(d)->0->Object_0[i].1->Object_0.len() ==> clean_metadata_member(
            sanitized(d)->0->Object_0[i].1->Object_0[j],
        ),
{
    let es = d->Object_0;
    let rule = MemberRule::Document(document_kind(es));
    let out = filter_members(rule, es);
    lemma_filter_members_origin(rule, es, i);
    let k = choose|k: int| 0 <= k < es.len() && apply_member(rule, es[k]) == Some(out[i]);
    reveal_strlit("metadata");
    reveal_strlit("status");
    reveal_strlit("spec");
    if out[i].0 == "metadata"@ && out[i].1 is Object && 0 <= j < out[i].1->Object_0.len() {
        assert("metadata"@[0] != "spec"@[0]);
        assert(es[k].1 is Object);
        let md = es[k].1->Object_0;
        lemma_filter_members_origin(MemberRule::Metadata, md, j);
        let l = choose|l: int| 0 <= l < md.len() && apply_member(MemberRule::Metadata, md[l]) == Some(
            filter_members(MemberRule::Metadata, md)[j],
        );
        lemma_metadata_member_clean(md[l]);
    }
}

/// Looking a name up after a rule that keeps names: where the rule keeps
/// every member of that name, the value found is what the rule makes of the
/// value found before; where it drops every one, nothing is found.
proof fn lemma_lookup_filtered(rule: MemberRule, es: Seq<Member>, k: Seq<char>)
    ensures
        (forall|v: JsonModel| #[trigger] apply_member(rule, (k, v)) is Some) ==> lookup(
            filter_members(rule, es),
            k,
        ) == (match lookup(es, k) {
            Some(v) => Some((apply_member(rule, (k, v))->0).1),
            None => None,
        }),
        (forall|v: JsonModel| #[trigger] apply_member(rule, (k, v)) is None) ==> lookup(
            filter_members(rule, es),
            k,
        ) is None,
    decreases es.len(),
{
    if es.len() > 0 {
        let rest = filter_members(rule, es.drop_last());
        lemma_lookup_filtered(rule, es.drop_last(), k);
        lemma_apply_keeps_name(rule, es.last());
        match apply_member(rule, es.last()) {
            Some(m) => {
                assert(rest.push(m).drop_last() =~= rest);
                if es.last().0 == k {
                    assert(es.last() == (k, es.last().1));
                }
            },
            None => {
                if es.last().0 == k {
                    assert(es.last() == (k, es.last().1));
                }
            },
        }
    }
}

/// The `spec` object of a node document, where it has one.
pub open spec fn node_spec_members(d: JsonModel) -> Seq<Member> {
    lookup(d->Object_0, "spec"@)->0->Object_0
}

/// A node's `spec` comes out of sanitizing with exactly the kept fields it
/// had, whatever order its fields came in: two nodes whose `spec` objects
/// hold the same fields give sanitized `spec` objects that hold the same
/// fields, and none outside `podCIDR`, `podCIDRs` and `taints`.
pub proof fn lemma_node_spec_order_free(d1: JsonModel, d2: JsonModel)
    requires
        d1 is Object,
        d2 is Object,
        document_kind(d1->Object_0) == ResourceKind::Node,
        document_kind(d2->Object_0) == ResourceKind::Node,
        lookup(d1->Object_0, "spec"@) matches Some(JsonModel::Object(_)),
        lookup(d2->Object_0, "spec"@) matches Some(JsonModel::Object(_)),
        forall|k: Seq<char>| #[trigger]
            lookup(node_spec_members(d1), k) == lookup(node_spec_members(d2), k),
    ensures
        sanitized(d1)->0.field("spec"@) == Some(
            JsonModel::Object(filter_members(MemberRule::NodeSpec, node_spec_members(d1))),
        ),
        sanitized(d2)->0.field("spec"@) == Some(
            JsonModel::Object(filter_members(MemberRule::NodeSpec, node_spec_members(d2))),
        ),
        forall|k: Seq<char>|
            #![trigger lookup(filter_members(MemberRule::NodeSpec, node_spec_members(d1)), k)]
            lookup(filter_members(MemberRule::NodeSpec, node_spec_members(d1)), k) == lookup(
                filter_members(MemberRule::NodeSpec, node_spec_members(d2)),
                k,
            ) && lookup(filter_members(MemberRule::NodeSpec, node_spec_members(d1)), k) == (
            if kept_node_field(k) {
                lookup(node_spec_members(d1), k)
            } else {
                None
            }),
{
    lemma_distinct_top_names();
    let rule = MemberRule::Document(ResourceKind::Node);
    lemma_lookup_filtered(rule, d1->Object_0, "spec"@);
    lemma_lookup_filtered(rule, d2->Object_0, "spec"@);
    assert forall|k: Seq<char>|
        #![trigger lookup(filter_members(MemberRule::NodeSpec, node_spec_members(d1)), k)]
        lookup(filter_members(MemberRule::NodeSpec, node_spec_members(d1)), k) == lookup(
            filter_members(MemberRule::NodeSpec, node_spec_members(d2)),
            k,
        ) && lookup(filter_members(MemberRule::NodeSpec, node_spec_members(d1)), k) == (
        if kept_node_field(k) {
            lookup(node_spec_members(d1), k)
        } else {
            None
        }) by {
        lemma_lookup_filtered(MemberRule::NodeSpec, node_spec_members(d1), k);
        lemma_lookup_filtered(MemberRule::NodeSpec, node_spec_members(d2), k);
        assert(lookup(node_spec_members(d1), k) == lookup(node_spec_members(d2), k));
    }
}

} // verus!
