use vstd::prelude::*;

use crate::json::{field_of, items_of, text_of, views, Json, JsonModel};
use crate::resources::ResourceMap;
use crate::text::{has_infix, join, occurs_at, same_text};

verus! {

/// What is needed to reach the instances of one custom resource type.
#[derive(Debug, Clone)]
pub struct CustomResourceInfo {
    pub group: String,
    pub version: String,
    pub plural: String,
    pub namespaced: bool,
}

pub ghost struct DescriptorModel {
    pub group: Seq<char>,
    pub version: Seq<char>,
    pub plural: Seq<char>,
    pub namespaced: bool,
}

impl View for CustomResourceInfo {
    type V = DescriptorModel;

    open spec fn view(&self) -> DescriptorModel {
        DescriptorModel {
            group: self.group@,
            version: self.version@,
            plural: self.plural@,
            namespaced: self.namespaced,
        }
    }
}

/// Why no descriptor could be built from a custom resource definition.
#[derive(Debug, Clone, Copy, PartialEq, Eq)]
pub enum MalformedDescriptor {
    MissingMetadata,
    MissingSpec,
    MissingName,
    MissingNames,
    MissingPlural,
    MissingVersions,
    NoServedVersion,
}

/// The name of a version entry that is marked served.
pub open spec fn served_version(v: JsonModel) -> Option<Seq<char>> {
    if text_of(v.field("name"@)) is Some && v.field("served"@) == Some(JsonModel::Bool(true)) {
        text_of(v.field("name"@))
    } else {
        None
    }
}

/// The first served version among `s`.
pub open spec fn first_served(s: Seq<JsonModel>) -> Option<Seq<char>>
    decreases s.len(),
{
    if s.len() == 0 {
        None
    } else {
        let earlier = first_served(s.drop_last());
        if earlier is Some {
            earlier
        } else {
            served_version(s.last())
        }
    }
}

/// The descriptor that a custom resource definition yields: its group (empty
/// where none is given), its first served version, its plural name, and
/// whether it is namespaced (the default where no scope is given).
pub open spec fn descriptor_of(crd: JsonModel) -> Result<DescriptorModel, MalformedDescriptor> {
    let metadata = crd.field("metadata"@);
    let spec = crd.field("spec"@);
    let names = field_of(spec, "names"@);
    let versions = items_of(field_of(spec, "versions"@));
    if metadata is None {
        Err(MalformedDescriptor::MissingMetadata)
    } else if spec is None {
        Err(MalformedDescriptor::MissingSpec)
    } else if text_of(field_of(metadata, "name"@)) is None {
        Err(MalformedDescriptor::MissingName)
    } else if names is None {
        Err(MalformedDescriptor::MissingNames)
    } else if text_of(field_of(names, "plural"@)) is None {
        Err(MalformedDescriptor::MissingPlural)
    } else if versions is None {
        Err(MalformedDescriptor::MissingVersions)
    } else if first_served(versions->0) is None {
        Err(MalformedDescriptor::NoServedVersion)
    } else {
        Ok(
            DescriptorModel {
                group: match text_of(field_of(spec, "group"@)) {
                    Some(g) => g,
                    None => Seq::empty(),
                },
                version: first_served(versions->0)->0,
                plural: text_of(field_of(names, "plural"@))->0,
                namespaced: match text_of(field_of(spec, "scope"@)) {
                    Some(s) => s == "Namespaced"@,
                    None => true,
                },
            },
        )
    }
}

fn first_served_version(versions: &Vec<Json>) -> (r: Option<String>)
    ensures
        r matches Some(v) ==> first_served(views(versions@)) == Some(v@),
        r is None ==> first_served(views(versions@)) is None,
{
    let ghost s = views(versions@);
    let mut i: usize = 0;
    while i < versions.len()
        invariant
            s == views(versions@),
            i <= versions@.len(),
            first_served(s.subrange(0, i as int)) is None,
        decreases versions@.len() - i,
    {
        assert(s.subrange(0, i + 1).drop_last() =~= s.subrange(0, i as int));
        let v = &versions[i];
        match (v.get("name"), v.get("served")) {
            (Some(n), Some(served)) => match (n.as_str(), served.as_bool()) {
                (Some(name), Some(true)) => {
                    proof {
                        lemma_first_served_prefix(s, i + 1);
                    }
                    return Some(name.clone());
                },
                _ => {},
            },
            _ => {},
        }
        i = i + 1;
    }
    assert(s.subrange(0, i as int) =~= s);
    None
}

proof fn lemma_first_served_prefix(s: Seq<JsonModel>, n: int)
    requires
        0 <= n <= s.len(),
        first_served(s.subrange(0, n)) is Some,
    ensures
        first_served(s) == first_served(s.subrange(0, n)),
    decreases s.len() - n,
{
    if n < s.len() {
        assert(s.subrange(0, n + 1).drop_last() =~= s.subrange(0, n));
        lemma_first_served_prefix(s, n + 1);
    } else {
        assert(s.subrange(0, n) =~= s);
    }
}

/// Builds the descriptor of one custom resource definition document.
pub fn parse_crd_info(crd: &Json) -> (r: Result<CustomResourceInfo, MalformedDescriptor>)
    ensures
        r matches Ok(info) ==> descriptor_of(crd@) == Ok::<DescriptorModel, MalformedDescriptor>(
            info@,
        ),
        r matches Err(e) ==> descriptor_of(crd@) == Err::<DescriptorModel, MalformedDescriptor>(e),
{
    let metadata = match crd.get("metadata") {
        Some(m) => m,
        None => return Err(MalformedDescriptor::MissingMetadata),
    };
    let spec = match crd.get("spec") {
        Some(s) => s,
        None => return Err(MalformedDescriptor::MissingSpec),
    };
    match metadata.get("name") {
        Some(n) => match n.as_str() {
            Some(_) => {},
            None => return Err(MalformedDescriptor::MissingName),
        },
        None => return Err(MalformedDescriptor::MissingName),
    }
    let group = match spec.get("group") {
        Some(g) => match g.as_str() {
            Some(t) => t.clone(),
            None => String::new(),
        },
        None => String::new(),
    };
    let names = match spec.get("names") {
        Some(n) => n,
        None => return Err(MalformedDescriptor::MissingNames),
    };
    let plural = match names.get("plural") {
        Some(p) => match p.as_str() {
            Some(t) => t.clone(),
            None => return Err(MalformedDescriptor::MissingPlural),
        },
        None => return Err(MalformedDescriptor::MissingPlural),
    };
    let namespaced = match spec.get("scope") {
        Some(sc) => match sc.as_str() {
            Some(t) => same_text(t.as_str(), "Namespaced"),
            None => true,
        },
        None => true,
    };
    let versions = match spec.get("versions") {
        Some(v) => match v.as_array() {
            Some(items) => items,
            None => return Err(MalformedDescriptor::MissingVersions),
        },
        None => return Err(MalformedDescriptor::MissingVersions),
    };
    match first_served_version(versions) {
        Some(version) => Ok(CustomResourceInfo { group, version, plural, namespaced }),
        None => Err(MalformedDescriptor::NoServedVersion),
    }
}

/// The key under which the instances of a type are filed: the plural name,
/// followed by `.` and the group where there is one.
pub open spec fn resource_key_spec(info: DescriptorModel) -> Seq<char> {
    if info.group.len() == 0 {
        info.plural
    } else {
        info.plural + "."@ + info.group
    }
}

pub fn resource_key(info: &CustomResourceInfo) -> (r: String)
    ensures
        r@ == resource_key_spec(info@),
{
    if info.group.as_str().unicode_len() == 0 {
        info.plural.clone()
    } else {
        let head = join(info.plural.as_str(), ".");
        let r = join(head.as_str(), info.group.as_str());
        assert(r@ =~= resource_key_spec(info@));
        r
    }
}

/// The descriptors of all definitions that yield one, in order; the others
/// are skipped.
pub open spec fn descriptors_spec(crds: Seq<JsonModel>) -> Seq<DescriptorModel>
    decreases crds.len(),
{
    if crds.len() == 0 {
        Seq::empty()
    } else {
        let rest = descriptors_spec(crds.drop_last());
        match descriptor_of(crds.last()) {
            Ok(d) => rest.push(d),
            Err(_) => rest,
        }
    }
}

pub fn descriptors_of(crds: &Vec<Json>) -> (r: Vec<CustomResourceInfo>)
    ensures
        r@.map_values(|i: CustomResourceInfo| i@) == descriptors_spec(views(crds@)),
{
    let ghost s = views(crds@);
    let mut out: Vec<CustomResourceInfo> = Vec::new();
    let mut i: usize = 0;
    while i < crds.len()
        invariant
            s == views(crds@),
            i <= crds@.len(),
            out@.map_values(|i: CustomResourceInfo| i@) == descriptors_spec(s.subrange(0, i as int)),
        decreases crds@.len() - i,
    {
        assert(s.subrange(0, i + 1).drop_last() =~= s.subrange(0, i as int));
        let ghost before = out@;
        match parse_crd_info(&crds[i]) {
            Ok(info) => {
                out.push(info);
                assert(out@.map_values(|i: CustomResourceInfo| i@) =~= before.map_values(
                    |i: CustomResourceInfo| i@,
                ).push(info@));
            },
            Err(_) => {},
        }
        i = i + 1;
    }
    assert(s.subrange(0, i as int) =~= s);
    out
}

/// A definition none of whose versions is served yields no descriptor, so it
/// adds nothing to the descriptors that collection works through.
pub proof fn lemma_unserved_definition_skipped(crds: Seq<JsonModel>, crd: JsonModel)
    requires
        first_served(items_of(field_of(crd.field("spec"@), "versions"@))->0) is None,
    ensures
        descriptor_of(crd) is Err,
        descriptors_spec(crds.push(crd)) == descriptors_spec(crds),
{
    assert(crds.push(crd).drop_last() =~= crds);
}

/// Why namespace verification failed.
#[derive(Debug, Clone, Copy, PartialEq, Eq)]
pub enum NamespaceError {
    NoValidNamespaces,
}

/// The requested namespaces that are present, in the order requested.
pub open spec fn present_namespaces(requested: Seq<Seq<char>>, available: Seq<Seq<char>>) -> Seq<
    Seq<char>,
>
    decreases requested.len(),
{
    if requested.len() == 0 {
        Seq::empty()
    } else {
        let rest = present_namespaces(requested.drop_last(), available);
        if available.contains(requested.last()) {
            rest.push(requested.last())
        } else {
            rest
        }
    }
}

fn is_listed(available: &Vec<String>, ns: &String) -> (r: bool)
    ensures
        r == available@.map_values(|s: String| s@).contains(ns@),
{
    let ghost a = available@.map_values(|s: String| s@);
    let mut i: usize = 0;
    while i < available.len()
        invariant
            a == available@.map_values(|s: String| s@),
            i <= available@.len(),
            forall|j: int| 0 <= j < i ==> a[j] != ns@,
        decreases available@.len() - i,
    {
        if same_text(available[i].as_str(), ns.as_str()) {
            assert(a[i as int] == ns@);
            return true;
        }
        i = i + 1;
    }
    false
}

/// The requested namespaces that `available` does not list, in the order requested.
pub open spec fn absent_namespaces_spec(requested: Seq<Seq<char>>, available: Seq<Seq<char>>) -> Seq<
    Seq<char>,
>
    decreases requested.len(),
{
    if requested.len() == 0 {
        Seq::empty()
    } else {
        let rest = absent_namespaces_spec(requested.drop_last(), available);
        if available.contains(requested.last()) {
            rest
        } else {
            rest.push(requested.last())
        }
    }
}

/// The requested namespaces that are not present, for reporting.
pub fn absent_namespaces(requested: &Vec<String>, available: &Vec<String>) -> (r: Vec<String>)
    ensures
        r@.map_values(|s: String| s@) == absent_namespaces_spec(
            requested@.map_values(|s: String| s@),
            available@.map_values(|s: String| s@),
        ),
{
    let ghost req = requested@.map_values(|s: String| s@);
    let ghost avail = available@.map_values(|s: String| s@);
    let mut absent: Vec<String> = Vec::new();
    let mut i: usize = 0;
    while i < requested.len()
        invariant
            req == requested@.map_values(|s: String| s@),
            avail == available@.map_values(|s: String| s@),
            i <= requested@.len(),
            absent@.map_values(|s: String| s@) == absent_namespaces_spec(req.subrange(0, i as int), avail),
        decreases requested@.len() - i,
    {
        assert(req.subrange(0, i + 1).drop_last() =~= req.subrange(0, i as int));
        let ghost before = absent@;
        if !is_listed(available, &requested[i]) {
            absent.push(requested[i].clone());
            assert(absent@.map_values(|s: String| s@) =~= before.map_values(|s: String| s@).push(
                req[i as int],
            ));
        }
        i = i + 1;
    }
    assert(req.subrange(0, i as int) =~= req);
    absent
}

/// Keeps the requested namespaces that `available` lists; fails where none is left.
pub fn verify_namespaces(requested: &Vec<String>, available: &Vec<String>) -> (r: Result<
    Vec<String>,
    NamespaceError,
>)
    ensures
        ({
            let kept = present_namespaces(
                requested@.map_values(|s: String| s@),
                available@.map_values(|s: String| s@),
            );
            &&& r matches Ok(v) ==> v@.map_values(|s: String| s@) == kept && kept.len() > 0
            &&& r is Err <==> kept.len() == 0
        }),
{
    let ghost req = requested@.map_values(|s: String| s@);
    let ghost avail = available@.map_values(|s: String| s@);
    let mut kept: Vec<String> = Vec::new();
    let mut i: usize = 0;
    while i < requested.len()
        invariant
            req == requested@.map_values(|s: String| s@),
            avail == available@.map_values(|s: String| s@),
            i <= requested@.len(),
            kept@.map_values(|s: String| s@) == present_namespaces(req.subrange(0, i as int), avail),
        decreases requested@.len() - i,
    {
        assert(req.subrange(0, i + 1).drop_last() =~= req.subrange(0, i as int));
        let ghost before = kept@;
        if is_listed(available, &requested[i]) {
            kept.push(requested[i].clone());
            assert(kept@.map_values(|s: String| s@) =~= before.map_values(|s: String| s@).push(
                req[i as int],
            ));
        }
        i = i + 1;
    }
    assert(req.subrange(0, i as int) =~= req);
    if kept.len() == 0 {
        Err(NamespaceError::NoValidNamespaces)
    } else {
        Ok(kept)
    }
}


/// How to address one resource type on the API server, as discovery reports it
/// or as it is built from a descriptor.
#[derive(Debug)]
pub struct ApiResource {
    pub group: String,
    pub version: String,
    pub api_version: String,
    pub kind: String,
    pub plural: String,
}

pub ghost struct ApiResourceModel {
    pub group: Seq<char>,
    pub version: Seq<char>,
    pub api_version: Seq<char>,
    pub kind: Seq<char>,
    pub plural: Seq<char>,
}

impl View for ApiResource {
    type V = ApiResourceModel;

    open spec fn view(&self) -> ApiResourceModel {
        ApiResourceModel {
            group: self.group@,
            version: self.version@,
            api_version: self.api_version@,
            kind: self.kind@,
            plural: self.plural@,
        }
    }
}

impl ApiResource {
    pub fn duplicate(&self) -> (r: ApiResource)
        ensures
            r@ == self@,
    {
        ApiResource {
            group: self.group.clone(),
            version: self.version.clone(),
            api_version: self.api_version.clone(),
            kind: self.kind.clone(),
            plural: self.plural.clone(),
        }
    }
}

/// One entry of the discovery document: a resource type and its scope.
#[derive(Debug)]
pub struct DiscoveredResource {
    pub resource: ApiResource,
    pub namespaced: bool,
}

/// One listing call: a resource type, in one namespace or cluster-wide (`None`).
#[derive(Debug)]
pub struct ListTarget {
    pub resource: ApiResource,
    pub namespace: Option<String>,
}

pub open spec fn opt_text(o: Option<String>) -> Option<Seq<char>> {
    match o {
        Some(s) => Some(s@),
        None => None,
    }
}

impl View for ListTarget {
    type V = (ApiResourceModel, Option<Seq<char>>);

    open spec fn view(&self) -> (ApiResourceModel, Option<Seq<char>>) {
        (self.resource@, opt_text(self.namespace))
    }
}

/// Which phase a resolution went through.
#[derive(Debug, Clone, Copy, PartialEq, Eq)]
pub enum Phase {
    /// The type was found in the discovery document.
    Discovery,
    /// The type was not found there: its endpoint is built from the descriptor.
    Definition,
}

/// The listings to make for one descriptor, and the phase they belong to.
#[derive(Debug)]
pub struct ResolutionPlan {
    pub phase: Phase,
    pub targets: Vec<ListTarget>,
}

/// The API version string: `group/version`, or the version alone for the core group.
pub open spec fn api_version_spec(info: DescriptorModel) -> Seq<char> {
    if info.group.len() == 0 {
        info.version
    } else {
        info.group + "/"@ + info.version
    }
}

/// The index of the first `/` in `s`, or its length where it has none.
pub open spec fn first_slash(s: Seq<char>) -> int
    decreases s.len(),
{
    if s.len() == 0 {
        0
    } else {
        let p = first_slash(s.drop_last());
        if p < s.len() - 1 {
            p
        } else if s.last() == '/' {
            s.len() - 1
        } else {
            s.len() as int
        }
    }
}

/// Group and version read back from an API version string: the parts before
/// and after its first `/` (the second part ends at the next `/`), or an empty
/// group and the whole string where it has no `/`.
pub open spec fn split_api_version_spec(a: Seq<char>) -> (Seq<char>, Seq<char>) {
    let i = first_slash(a);
    if i < a.len() {
        let rest = a.subrange(i + 1, a.len() as int);
        (a.subrange(0, i), rest.subrange(0, first_slash(rest)))
    } else {
        (Seq::empty(), a)
    }
}

/// The endpoint built from a descriptor alone.
pub open spec fn manual_resource(info: DescriptorModel) -> ApiResourceModel {
    let a = api_version_spec(info);
    ApiResourceModel {
        group: split_api_version_spec(a).0,
        version: split_api_version_spec(a).1,
        api_version: a,
        kind: Seq::empty(),
        plural: info.plural,
    }
}

/// The scopes to list in: each namespace for a namespaced type, else the cluster.
pub open spec fn scopes(namespaced: bool, namespaces: Seq<Seq<char>>) -> Seq<Option<Seq<char>>> {
    if namespaced {
        Seq::new(namespaces.len(), |i: int| Some(namespaces[i]))
    } else {
        seq![None]
    }
}

pub open spec fn targets_for(r: ApiResourceModel, sc: Seq<Option<Seq<char>>>) -> Seq<
    (ApiResourceModel, Option<Seq<char>>),
> {
    Seq::new(sc.len(), |i: int| (r, sc[i]))
}

/// The index of the first discovery entry with the given plural name and scope.
pub open spec fn discovered_index(d: Seq<(ApiResourceModel, bool)>, plural: Seq<char>, namespaced: bool) -> Option<int>
    decreases d.len(),
{
    if d.len() == 0 {
        None
    } else {
        let earlier = discovered_index(d.drop_last(), plural, namespaced);
        if earlier is Some {
            earlier
        } else if d.last().0.plural == plural && d.last().1 == namespaced {
            Some(d.len() - 1)
        } else {
            None
        }
    }
}

pub open spec fn discovery_view(d: Seq<DiscoveredResource>) -> Seq<(ApiResourceModel, bool)> {
    Seq::new(d.len(), |i: int| (d[i].resource@, d[i].namespaced))
}

/// The plan for one descriptor: through the discovery entry where there is
/// one, else through the endpoint built from the descriptor.
pub open spec fn plan_spec(
    info: DescriptorModel,
    namespaces: Seq<Seq<char>>,
    d: Seq<(ApiResourceModel, bool)>,
) -> (Phase, Seq<(ApiResourceModel, Option<Seq<char>>)>) {
    let sc = scopes(info.namespaced, namespaces);
    match discovered_index(d, info.plural, info.namespaced) {
        Some(i) => (Phase::Discovery, targets_for(d[i].0, sc)),
        None => (Phase::Definition, targets_for(manual_resource(info), sc)),
    }
}

fn find_discovered(discovery: &Vec<DiscoveredResource>, plural: &String, namespaced: bool) -> (r: Option<usize>)
    ensures
        r matches Some(i) ==> discovered_index(discovery_view(discovery@), plural@, namespaced) == Some(i as int)
            && i < discovery@.len(),
        r is None ==> discovered_index(discovery_view(discovery@), plural@, namespaced) is None,
{
    let ghost d = discovery_view(discovery@);
    let mut i: usize = 0;
    while i < discovery.len()
        invariant
            d == discovery_view(discovery@),
            i <= discovery@.len(),
            discovered_index(d.subrange(0, i as int), plural@, namespaced) is None,
        decreases discovery@.len() - i,
    {
        assert(d.subrange(0, i + 1).drop_last() =~= d.subrange(0, i as int));
        if discovery[i].namespaced == namespaced && same_text(
            discovery[i].resource.plural.as_str(),
            plural.as_str(),
        ) {
            proof {
                lemma_discovered_prefix(d, i + 1, plural@, namespaced);
            }
            return Some(i);
        }
        i = i + 1;
    }
    assert(d.subrange(0, i as int) =~= d);
    None
}

proof fn lemma_discovered_prefix(d: Seq<(ApiResourceModel, bool)>, n: int, plural: Seq<char>, namespaced: bool)
    requires
        0 <= n <= d.len(),
        discovered_index(d.subrange(0, n), plural, namespaced) is Some,
    ensures
        discovered_index(d, plural, namespaced) == discovered_index(d.subrange(0, n), plural, namespaced),
    decreases d.len() - n,
{
    if n < d.len() {
        assert(d.subrange(0, n + 1).drop_last() =~= d.subrange(0, n));
        lemma_discovered_prefix(d, n + 1, plural, namespaced);
    } else {
        assert(d.subrange(0, n) =~= d);
    }
}

/// The API version string of a descriptor.
pub fn api_version_of(info: &CustomResourceInfo) -> (r: String)
    ensures
        r@ == api_version_spec(info@),
{
    if info.group.as_str().unicode_len() == 0 {
        info.version.clone()
    } else {
        let head = join(info.group.as_str(), "/");
        let r = join(head.as_str(), info.version.as_str());
        assert(r@ =~= api_version_spec(info@));
        r
    }
}

fn slash_position(s: &Vec<char>, from: usize) -> (r: usize)
    requires
        from <= s@.len(),
    ensures
        r as int == from + first_slash(s@.subrange(from as int, s@.len() as int)),
{
    let ghost rest = s@.subrange(from as int, s@.len() as int);
    let mut i: usize = from;
    while i < s.len()
        invariant
            from <= i <= s@.len(),
            rest == s@.subrange(from as int, s@.len() as int),
            first_slash(rest.subrange(0, i - from)) == i - from,
        decreases s@.len() - i,
    {
        assert(rest.subrange(0, i - from + 1).drop_last() =~= rest.subrange(0, i - from));
        if s[i] == '/' {
            proof {
                lemma_first_slash_prefix(rest, i - from + 1);
            }
            return i;
        }
        i = i + 1;
    }
    assert(rest.subrange(0, i - from) =~= rest);
    i
}

proof fn lemma_first_slash_prefix(s: Seq<char>, n: int)
    requires
        0 <= n <= s.len(),
        first_slash(s.subrange(0, n)) < n,
    ensures
        first_slash(s) == first_slash(s.subrange(0, n)),
    decreases s.len() - n,
{
    if n < s.len() {
        assert(s.subrange(0, n + 1).drop_last() =~= s.subrange(0, n));
        lemma_first_slash_prefix(s, n + 1);
    } else {
        assert(s.subrange(0, n) =~= s);
    }
}

proof fn lemma_first_slash_bound(s: Seq<char>)
    ensures
        0 <= first_slash(s) <= s.len(),
        first_slash(s) < s.len() ==> s[first_slash(s)] == '/',
    decreases s.len(),
{
    if s.len() > 0 {
        lemma_first_slash_bound(s.drop_last());
    }
}

/// Group and version read back from an API version string.
pub fn split_api_version(api_version: &str) -> (r: (String, String))
    ensures
        (r.0@, r.1@) == split_api_version_spec(api_version@),
{
    let c = crate::text::chars_of(api_version);
    let i = slash_position(&c, 0);
    proof {
        assert(c@.subrange(0, c@.len() as int) =~= c@);
        lemma_first_slash_bound(c@);
    }
    if i < c.len() {
        let j = slash_position(&c, i + 1);
        proof {
            lemma_first_slash_bound(c@.subrange(i + 1, c@.len() as int));
        }
        let g = String::from_str(api_version.substring_char(0, i));
        let v = String::from_str(api_version.substring_char(i + 1, j));
        assert(v@ =~= c@.subrange(i + 1, c@.len() as int).subrange(0, j - (i + 1)));
        (g, v)
    } else {
        (String::new(), String::from_str(api_version))
    }
}


/// The endpoint of a descriptor, built without discovery.
pub fn manual_api_resource(info: &CustomResourceInfo) -> (r: ApiResource)
    ensures
        r@ == manual_resource(info@),
{
    let api_version = api_version_of(info);
    let (group, version) = split_api_version(api_version.as_str());
    ApiResource { group, version, api_version, kind: String::new(), plural: info.plural.clone() }
}

pub open spec fn texts_of(v: Seq<String>) -> Seq<Seq<char>> {
    Seq::new(v.len(), |i: int| v[i]@)
}

pub open spec fn target_views(v: Seq<ListTarget>) -> Seq<(ApiResourceModel, Option<Seq<char>>)> {
    Seq::new(v.len(), |i: int| v[i]@)
}

/// Plans the listings for one descriptor: phase one where the discovery
/// document has an entry with the descriptor's plural name and scope, else
/// phase two, with an endpoint built from the descriptor; one listing per
/// namespace for a namespaced type, one cluster-wide listing otherwise.
pub fn plan_resolution(
    info: &CustomResourceInfo,
    namespaces: &Vec<String>,
    discovery: &Vec<DiscoveredResource>,
) -> (r: ResolutionPlan)
    ensures
        (r.phase, target_views(r.targets@)) == plan_spec(
            info@,
            texts_of(namespaces@),
            discovery_view(discovery@),
        ),
{
    let ghost d = discovery_view(discovery@);
    let (phase, resource) = match find_discovered(discovery, &info.plural, info.namespaced) {
        Some(i) => (Phase::Discovery, discovery[i].resource.duplicate()),
        None => (Phase::Definition, manual_api_resource(info)),
    };
    let ghost sc = scopes(info.namespaced, texts_of(namespaces@));
    let mut targets: Vec<ListTarget> = Vec::new();
    if info.namespaced {
        let mut i: usize = 0;
        while i < namespaces.len()
            invariant
                i <= namespaces@.len(),
                info.namespaced,
                sc == scopes(info.namespaced, texts_of(namespaces@)),
                target_views(targets@) =~= targets_for(resource@, sc.subrange(0, i as int)),
            decreases namespaces@.len() - i,
        {
            let t = ListTarget { resource: resource.duplicate(), namespace: Some(namespaces[i].clone()) };
            let ghost before = targets@;
            targets.push(t);
            assert(sc[i as int] == Some(namespaces@[i as int]@));
            assert(target_views(targets@) =~= target_views(before).push((resource@, sc[i as int])));
            i = i + 1;
            assert(target_views(targets@) =~= targets_for(resource@, sc.subrange(0, i as int)));
        }
        assert(sc.subrange(0, i as int) =~= sc);
    } else {
        targets.push(ListTarget { resource, namespace: None });
        assert(target_views(targets@) =~= targets_for(resource@, sc));
    }
    ResolutionPlan { phase, targets }
}

/// What one listing call returned: the documents, or the cause of its failure.
pub open spec fn outcome_views(v: Seq<Result<Vec<Json>, String>>) -> Seq<Result<Seq<JsonModel>, Seq<char>>> {
    Seq::new(v.len(), |i: int| match v[i] {
        Ok(docs) => Ok(views(docs@)),
        Err(e) => Err(e@),
    })
}

/// The documents of all listings that succeeded, in order.
pub open spec fn collected(outs: Seq<Result<Seq<JsonModel>, Seq<char>>>) -> Seq<JsonModel>
    decreases outs.len(),
{
    if outs.len() == 0 {
        Seq::empty()
    } else {
        collected(outs.drop_last()) + match outs.last() {
            Ok(docs) => docs,
            Err(_) => Seq::empty(),
        }
    }
}

/// The listings that failed: their index and their cause, in order.
pub open spec fn failed(outs: Seq<Result<Seq<JsonModel>, Seq<char>>>) -> Seq<(int, Seq<char>)>
    decreases outs.len(),
{
    if outs.len() == 0 {
        Seq::empty()
    } else {
        let rest = failed(outs.drop_last());
        match outs.last() {
            Ok(_) => rest,
            Err(e) => rest.push((outs.len() - 1, e)),
        }
    }
}

/// What the listings for one descriptor gave: the instances found, and each
/// listing that failed with its cause. A failed listing takes nothing from
/// the others.
#[derive(Debug)]
pub struct Resolution {
    pub instances: Vec<Json>,
    pub failures: Vec<(usize, String)>,
}

pub open spec fn failure_views(v: Seq<(usize, String)>) -> Seq<(int, Seq<char>)> {
    Seq::new(v.len(), |i: int| (v[i].0 as int, v[i].1@))
}

/// Merges the outcomes of the listings of one plan, given in plan order.
pub fn merge_listings(outcomes: &Vec<Result<Vec<Json>, String>>) -> (r: Resolution)
    ensures
        views(r.instances@) == collected(outcome_views(outcomes@)),
        failure_views(r.failures@) == failed(outcome_views(outcomes@)),
{
    let ghost o = outcome_views(outcomes@);
    let mut instances: Vec<Json> = Vec::new();
    let mut failures: Vec<(usize, String)> = Vec::new();
    let mut i: usize = 0;
    while i < outcomes.len()
        invariant
            o == outcome_views(outcomes@),
            i <= outcomes@.len(),
            views(instances@) == collected(o.subrange(0, i as int)),
            failure_views(failures@) == failed(o.subrange(0, i as int)),
        decreases outcomes@.len() - i,
    {
        assert(o.subrange(0, i + 1).drop_last() =~= o.subrange(0, i as int));
        match &outcomes[i] {
            Ok(docs) => {
                let ghost before = instances@;
                let mut j: usize = 0;
                while j < docs.len()
                    invariant
                        j <= docs@.len(),
                        views(instances@) == views(before) + views(docs@).subrange(0, j as int),
                    decreases docs@.len() - j,
                {
                    let ghost prev = instances@;
                    instances.push(docs[j].copy());
                    assert(views(instances@) =~= views(prev).push(docs@[j as int]@));
                    j = j + 1;
                    assert(views(instances@) =~= views(before) + views(docs@).subrange(0, j as int));
                }
                assert(views(docs@).subrange(0, j as int) =~= views(docs@));
            },
            Err(e) => {
                let ghost before = failures@;
                failures.push((i, e.clone()));
                assert(failure_views(failures@) =~= failure_views(before).push((i as int, e@)));
                assert(views(instances@) =~= collected(o.subrange(0, i as int)) + Seq::empty());
            },
        }
        i = i + 1;
    }
    assert(o.subrange(0, i as int) =~= o);
    Resolution { instances, failures }
}

/// Files the instances of one descriptor under its key; a type with no
/// instance is left out.
pub fn record_instances(map: &mut ResourceMap, info: &CustomResourceInfo, instances: Vec<Json>)
    ensures
        instances@.len() == 0 ==> final(map)@ == old(map)@,
        instances@.len() > 0 ==> final(map)@ == old(map)@.insert(
            resource_key_spec(info@),
            views(instances@),
        ),
{
    if instances.len() > 0 {
        map.insert(resource_key(info), instances);
    }
}

/// The address of a listing on the API server.
pub open spec fn url_path(r: ApiResourceModel, ns: Option<Seq<char>>) -> Seq<char> {
    "/"@ + (if r.group.len() == 0 {
        "api"@
    } else {
        "apis"@
    }) + "/"@ + r.api_version + "/"@ + match ns {
        Some(n) => "namespaces/"@ + n + "/"@,
        None => Seq::empty(),
    } + r.plural
}

/// The instances that listing `targets` yields when the server answers each
/// address as `live` says.
pub open spec fn gathered(
    targets: Seq<(ApiResourceModel, Option<Seq<char>>)>,
    live: spec_fn(Seq<char>) -> Result<Seq<JsonModel>, Seq<char>>,
) -> Seq<JsonModel> {
    collected(Seq::new(targets.len(), |i: int| live(url_path(targets[i].0, targets[i].1))))
}

proof fn lemma_first_slash_min(s: Seq<char>, k: int)
    requires
        0 <= k < s.len(),
        s[k] == '/',
    ensures
        first_slash(s) <= k,
    decreases s.len(),
{
    if k < s.len() - 1 {
        lemma_first_slash_min(s.drop_last(), k);
    } else {
        lemma_first_slash_bound(s.drop_last());
    }
}

proof fn lemma_no_slash(s: Seq<char>)
    requires
        !has_infix(s, "/"@),
    ensures
        first_slash(s) == s.len(),
        forall|k: int| 0 <= k < s.len() ==> s[k] != '/',
{
    reveal_strlit("/");
    lemma_first_slash_bound(s);
    assert forall|k: int| 0 <= k < s.len() implies s[k] != '/' by {
        if s[k] == '/' {
            assert(s.subrange(k, k + 1) =~= "/"@);
            assert(occurs_at(s, "/"@, k));
        }
    }
}

/// The endpoint built from a descriptor has an empty group exactly where the
/// descriptor has, provided neither its group nor its version holds a `/`.
proof fn lemma_manual_group(info: DescriptorModel)
    requires
        !has_infix(info.group, "/"@),
        !has_infix(info.version, "/"@),
    ensures
        (manual_resource(info).group.len() == 0) == (info.group.len() == 0),
{
    reveal_strlit("/");
    let a = api_version_spec(info);
    lemma_no_slash(info.group);
    lemma_no_slash(info.version);
    lemma_first_slash_bound(a);
    if info.group.len() == 0 {
        assert(a == info.version);
    } else {
        let g = info.group.len() as int;
        assert(a[g] == '/');
        lemma_first_slash_min(a, g);
        if first_slash(a) == 0 {
            assert(a[0] == info.group[0]);
        }
    }
}

/// Given the same live objects behind every address, listing through a
/// discovery entry that matches the descriptor gives the same instances as
/// listing through the endpoint built from the descriptor.
pub proof fn lemma_phases_agree(
    info: DescriptorModel,
    namespaces: Seq<Seq<char>>,
    entry: ApiResourceModel,
    live: spec_fn(Seq<char>) -> Result<Seq<JsonModel>, Seq<char>>,
)
    requires
        entry.api_version == api_version_spec(info),
        entry.plural == info.plural,
        (entry.group.len() == 0) == (info.group.len() == 0),
        !has_infix(info.group, "/"@),
        !has_infix(info.version, "/"@),
    ensures
        gathered(targets_for(entry, scopes(info.namespaced, namespaces)), live) == gathered(
            targets_for(manual_resource(info), scopes(info.namespaced, namespaces)),
            live,
        ),
{
    lemma_manual_group(info);
    let sc = scopes(info.namespaced, namespaces);
    let t1 = targets_for(entry, sc);
    let t2 = targets_for(manual_resource(info), sc);
    assert(Seq::new(t1.len(), |i: int| live(url_path(t1[i].0, t1[i].1))) =~= Seq::new(
        t2.len(),
        |i: int| live(url_path(t2[i].0, t2[i].1)),
    ));
}


/// Where the live objects behind a discovery entry and behind the endpoint
/// built from the descriptor are the same in every scope listed, phase one
/// through that entry and phase two each gather the same instances, failures
/// included.
pub proof fn lemma_phases_agree_on_live(
    info: DescriptorModel,
    namespaces: Seq<Seq<char>>,
    entry: ApiResourceModel,
    live: spec_fn(Seq<char>) -> Result<Seq<JsonModel>, Seq<char>>,
)
    requires
        forall|i: int|
            0 <= i < scopes(info.namespaced, namespaces).len() ==> live(
                url_path(entry, #[trigger] scopes(info.namespaced, namespaces)[i]),
            ) == live(url_path(manual_resource(info), scopes(info.namespaced, namespaces)[i])),
    ensures
        gathered(targets_for(entry, scopes(info.namespaced, namespaces)), live) == gathered(
            targets_for(manual_resource(info), scopes(info.namespaced, namespaces)),
            live,
        ),
{
    let sc = scopes(info.namespaced, namespaces);
    let t1 = targets_for(entry, sc);
    let t2 = targets_for(manual_resource(info), sc);
    assert(Seq::new(t1.len(), |i: int| live(url_path(t1[i].0, t1[i].1))) =~= Seq::new(
        t2.len(),
        |i: int| live(url_path(t2[i].0, t2[i].1)),
    ));
}

/// A plan through discovery and a plan through the descriptor list the same
/// scopes, in the same order.
pub proof fn lemma_plans_share_scopes(
    info: DescriptorModel,
    namespaces: Seq<Seq<char>>,
    d: Seq<(ApiResourceModel, bool)>,
)
    ensures
        plan_spec(info, namespaces, d).1.len() == scopes(info.namespaced, namespaces).len(),
        forall|i: int|
            0 <= i < scopes(info.namespaced, namespaces).len() ==> (#[trigger] plan_spec(
                info,
                namespaces,
                d,
            ).1[i]).1 == scopes(info.namespaced, namespaces)[i],
{
}

} // verus!
