use ketchup::json::{Json, Number};
use ketchup::resolver::{
    api_version_of, descriptors_of, manual_api_resource, merge_listings, parse_crd_info,
    plan_resolution, record_instances, resource_key, split_api_version, verify_namespaces,
    ApiResource, CustomResourceInfo, DiscoveredResource, MalformedDescriptor, NamespaceError,
    Phase,
};
use ketchup::resources::ResourceMap;

fn text(s: &str) -> Json {
    Json::Str(s.to_string())
}

fn obj(members: Vec<(&str, Json)>) -> Json {
    Json::Object(members.into_iter().map(|(k, v)| (k.to_string(), v)).collect())
}

fn version(name: &str, served: bool) -> Json {
    obj(vec![("name", text(name)), ("served", Json::Bool(served))])
}

fn crd(group: &str, plural: &str, scope: Option<&str>, versions: Vec<Json>) -> Json {
    let mut spec = vec![
        ("group", text(group)),
        ("names", obj(vec![("plural", text(plural)), ("kind", text("Thing"))])),
        ("versions", Json::Array(versions)),
    ];
    if let Some(s) = scope {
        spec.push(("scope", text(s)));
    }
    obj(vec![
        ("metadata", obj(vec![("name", text(&format!("{}.{}", plural, group)))])),
        ("spec", obj(spec)),
    ])
}

fn strings(v: &[&str]) -> Vec<String> {
    v.iter().map(|s| s.to_string()).collect()
}

fn info(group: &str, version: &str, plural: &str, namespaced: bool) -> CustomResourceInfo {
    CustomResourceInfo {
        group: group.to_string(),
        version: version.to_string(),
        plural: plural.to_string(),
        namespaced,
    }
}

fn resource(group: &str, version: &str, kind: &str, plural: &str) -> ApiResource {
    ApiResource {
        group: group.to_string(),
        version: version.to_string(),
        api_version: if group.is_empty() { version.to_string() } else { format!("{}/{}", group, version) },
        kind: kind.to_string(),
        plural: plural.to_string(),
    }
}

#[test]
fn parse_takes_first_served_version() {
    let d = crd(
        "longhorn.io",
        "volumes",
        Some("Namespaced"),
        vec![version("v1alpha1", false), version("v1beta2", true), version("v1", true)],
    );
    let i = parse_crd_info(&d).unwrap();
    assert_eq!(i.group, "longhorn.io");
    assert_eq!(i.version, "v1beta2");
    assert_eq!(i.plural, "volumes");
    assert!(i.namespaced);
}

#[test]
fn parse_cluster_scope_and_defaults() {
    let d = crd("metal3.io", "baremetalhosts", Some("Cluster"), vec![version("v1", true)]);
    assert!(!parse_crd_info(&d).unwrap().namespaced);
    let no_scope = crd("metal3.io", "hosts", None, vec![version("v1", true)]);
    assert!(parse_crd_info(&no_scope).unwrap().namespaced);
    let no_group = obj(vec![
        ("metadata", obj(vec![("name", text("things"))])),
        (
            "spec",
            obj(vec![
                ("names", obj(vec![("plural", text("things"))])),
                ("versions", Json::Array(vec![version("v1", true)])),
            ]),
        ),
    ]);
    assert_eq!(parse_crd_info(&no_group).unwrap().group, "");
}

#[test]
fn parse_without_served_version_is_skipped() {
    let d = crd("longhorn.io", "volumes", Some("Namespaced"), vec![version("v1", false)]);
    assert_eq!(parse_crd_info(&d).unwrap_err(), MalformedDescriptor::NoServedVersion);
    let good = crd("kubevirt.io", "virtualmachines", Some("Namespaced"), vec![version("v1", true)]);
    let all = descriptors_of(&vec![d, good]);
    assert_eq!(all.len(), 1);
    assert_eq!(all[0].plural, "virtualmachines");
}

#[test]
fn parse_reports_missing_parts() {
    assert_eq!(parse_crd_info(&obj(vec![])).unwrap_err(), MalformedDescriptor::MissingMetadata);
    let no_spec = obj(vec![("metadata", obj(vec![("name", text("x"))]))]);
    assert_eq!(parse_crd_info(&no_spec).unwrap_err(), MalformedDescriptor::MissingSpec);
    let no_name = obj(vec![("metadata", obj(vec![])), ("spec", obj(vec![]))]);
    assert_eq!(parse_crd_info(&no_name).unwrap_err(), MalformedDescriptor::MissingName);
    let no_plural = obj(vec![
        ("metadata", obj(vec![("name", text("x"))])),
        ("spec", obj(vec![("names", obj(vec![]))])),
    ]);
    assert_eq!(parse_crd_info(&no_plural).unwrap_err(), MalformedDescriptor::MissingPlural);
    let no_versions = obj(vec![
        ("metadata", obj(vec![("name", text("x"))])),
        ("spec", obj(vec![("names", obj(vec![("plural", text("xs"))]))])),
    ]);
    assert_eq!(parse_crd_info(&no_versions).unwrap_err(), MalformedDescriptor::MissingVersions);
}

#[test]
fn keys_and_api_versions() {
    assert_eq!(resource_key(&info("longhorn.io", "v1", "volumes", true)), "volumes.longhorn.io");
    assert_eq!(resource_key(&info("", "v1", "things", true)), "things");
    assert_eq!(api_version_of(&info("longhorn.io", "v1beta2", "volumes", true)), "longhorn.io/v1beta2");
    assert_eq!(api_version_of(&info("", "v1", "things", true)), "v1");
    assert_eq!(split_api_version("longhorn.io/v1beta2"), ("longhorn.io".to_string(), "v1beta2".to_string()));
    assert_eq!(split_api_version("v1"), (String::new(), "v1".to_string()));
    assert_eq!(split_api_version("a/b/c"), ("a".to_string(), "b".to_string()));
}

#[test]
fn manual_endpoint_from_descriptor() {
    let r = manual_api_resource(&info("longhorn.io", "v1beta2", "volumes", true));
    assert_eq!(r.group, "longhorn.io");
    assert_eq!(r.version, "v1beta2");
    assert_eq!(r.api_version, "longhorn.io/v1beta2");
    assert_eq!(r.kind, "");
    assert_eq!(r.plural, "volumes");
}

#[test]
fn plan_uses_discovery_entry_when_found() {
    let discovery = vec![
        DiscoveredResource { resource: resource("longhorn.io", "v1beta2", "Volume", "volumes"), namespaced: false },
        DiscoveredResource { resource: resource("longhorn.io", "v1beta2", "Volume", "volumes"), namespaced: true },
    ];
    let i = info("longhorn.io", "v1beta2", "volumes", true);
    let plan = plan_resolution(&i, &strings(&["a", "b"]), &discovery);
    assert_eq!(plan.phase, Phase::Discovery);
    assert_eq!(plan.targets.len(), 2);
    assert_eq!(plan.targets[0].resource.kind, "Volume");
    assert_eq!(plan.targets[0].namespace, Some("a".to_string()));
    assert_eq!(plan.targets[1].namespace, Some("b".to_string()));
}

#[test]
fn plan_falls_back_to_definition() {
    let discovery = vec![DiscoveredResource {
        resource: resource("longhorn.io", "v1beta2", "Volume", "volumes"),
        namespaced: true,
    }];
    let i = info("metal3.io", "v1alpha1", "baremetalhosts", false);
    let plan = plan_resolution(&i, &strings(&["a", "b"]), &discovery);
    assert_eq!(plan.phase, Phase::Definition);
    assert_eq!(plan.targets.len(), 1);
    assert_eq!(plan.targets[0].namespace, None);
    assert_eq!(plan.targets[0].resource.api_version, "metal3.io/v1alpha1");
    assert_eq!(plan.targets[0].resource.group, "metal3.io");
}

#[test]
fn both_phases_address_the_same_listings() {
    let i = info("longhorn.io", "v1beta2", "volumes", true);
    let ns = strings(&["a", "b"]);
    let found = vec![DiscoveredResource {
        resource: resource("longhorn.io", "v1beta2", "Volume", "volumes"),
        namespaced: true,
    }];
    let one = plan_resolution(&i, &ns, &found);
    let two = plan_resolution(&i, &ns, &vec![]);
    assert_eq!(one.phase, Phase::Discovery);
    assert_eq!(two.phase, Phase::Definition);
    assert_eq!(one.targets.len(), two.targets.len());
    for (a, b) in one.targets.iter().zip(two.targets.iter()) {
        assert_eq!(a.resource.api_version, b.resource.api_version);
        assert_eq!(a.resource.plural, b.resource.plural);
        assert_eq!(a.resource.group, b.resource.group);
        assert_eq!(a.namespace, b.namespace);
    }
    let live = |_: &str| -> Result<Vec<Json>, String> { Ok(vec![text("x"), Json::Num(Number::PosInt(1))]) };
    let outs_one: Vec<Result<Vec<Json>, String>> = one.targets.iter().map(|t| live(&t.resource.plural)).collect();
    let outs_two: Vec<Result<Vec<Json>, String>> = two.targets.iter().map(|t| live(&t.resource.plural)).collect();
    let got_one = merge_listings(&outs_one);
    let got_two = merge_listings(&outs_two);
    assert_eq!(got_one.instances, got_two.instances);
}

#[test]
fn merge_contains_failures() {
    let outcomes = vec![
        Ok(vec![text("a")]),
        Err("forbidden".to_string()),
        Ok(vec![text("b"), text("c")]),
    ];
    let r = merge_listings(&outcomes);
    assert_eq!(r.instances, vec![text("a"), text("b"), text("c")]);
    assert_eq!(r.failures, vec![(1usize, "forbidden".to_string())]);
}

#[test]
fn record_skips_empty_types() {
    let mut map = ResourceMap::new();
    let i = info("longhorn.io", "v1", "volumes", true);
    record_instances(&mut map, &i, vec![]);
    assert!(map.get("volumes.longhorn.io").is_none());
    record_instances(&mut map, &i, vec![text("v")]);
    assert_eq!(map.get("volumes.longhorn.io").unwrap(), &vec![text("v")]);
    map.insert("volumes.longhorn.io".to_string(), vec![text("w")]);
    assert_eq!(map.get("volumes.longhorn.io").unwrap(), &vec![text("w")]);
    assert_eq!(map.entries.len(), 1);
}

#[test]
fn namespaces_verified_against_cluster() {
    let available = strings(&["default", "kube-system", "apps"]);
    let kept = verify_namespaces(&strings(&["apps", "missing", "default"]), &available).unwrap();
    assert_eq!(kept, strings(&["apps", "default"]));
    assert_eq!(
        verify_namespaces(&strings(&["missing"]), &available),
        Err(NamespaceError::NoValidNamespaces)
    );
}
