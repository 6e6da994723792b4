use vstd::prelude::*;

use crate::json::{
    member_views, name_of, namespace_of, resource_name, resource_namespace, views, Json, JsonModel,
};
use crate::sanitize::{sanitize_resource_for_apply, sanitized, SanitizeError};
use crate::text::{contains, has_infix, has_prefix, join, same_text, starts_with};

verus! {

/// How many resources of each built-in kind were saved for one namespace.
#[derive(Debug, Clone)]
pub struct NamespaceStats {
    pub namespace: String,
    pub pods: usize,
    pub services: usize,
    pub deployments: usize,
    pub configmaps: usize,
    pub secrets: usize,
    pub ingresses: usize,
    pub pvcs: usize,
    pub networkpolicies: usize,
    pub replicasets: usize,
    pub daemonsets: usize,
    pub statefulsets: usize,
    pub jobs: usize,
    pub cronjobs: usize,
    pub serviceaccounts: usize,
    pub roles: usize,
    pub rolebindings: usize,
    pub resourcequotas: usize,
    pub limitranges: usize,
    pub horizontalpodautoscalers: usize,
    pub poddisruptionbudgets: usize,
    pub endpoints: usize,
    pub endpointslices: usize,
}

impl NamespaceStats {
    /// The per-kind counts, in declaration order.
    pub open spec fn counts(&self) -> Seq<usize> {
        seq![
            self.pods, self.services, self.deployments, self.configmaps, self.secrets,
            self.ingresses, self.pvcs, self.networkpolicies, self.replicasets, self.daemonsets,
            self.statefulsets, self.jobs, self.cronjobs, self.serviceaccounts, self.roles,
            self.rolebindings, self.resourcequotas, self.limitranges,
            self.horizontalpodautoscalers, self.poddisruptionbudgets, self.endpoints,
            self.endpointslices,
        ]
    }

    /// The sum of all per-kind counts.
    pub open spec fn total_spec(&self) -> int {
        self.pods + self.services + self.deployments + self.configmaps + self.secrets
            + self.ingresses + self.pvcs + self.networkpolicies + self.replicasets
            + self.daemonsets + self.statefulsets + self.jobs + self.cronjobs
            + self.serviceaccounts + self.roles + self.rolebindings + self.resourcequotas
            + self.limitranges + self.horizontalpodautoscalers + self.poddisruptionbudgets
            + self.endpoints + self.endpointslices
    }

    /// How many per-kind counts are above zero.
    pub open spec fn non_empty_spec(&self) -> int {
        non_empty_count(self.counts())
    }

    /// All resources saved for this namespace.
    pub fn total_resources(&self) -> (r: usize)
        requires
            self.total_spec() <= usize::MAX,
        ensures
            r == self.total_spec(),
    {
        self.pods + self.services + self.deployments + self.configmaps + self.secrets
            + self.ingresses + self.pvcs + self.networkpolicies + self.replicasets
            + self.daemonsets + self.statefulsets + self.jobs + self.cronjobs
            + self.serviceaccounts + self.roles + self.rolebindings + self.resourcequotas
            + self.limitranges + self.horizontalpodautoscalers + self.poddisruptionbudgets
            + self.endpoints + self.endpointslices
    }

    /// How many kinds have at least one resource saved.
    pub fn count_non_empty_resource_types(&self) -> (r: usize)
        ensures
            r == self.non_empty_spec(),
            r <= 22,
    {
        let counts: Vec<usize> = vec![
            self.pods, self.services, self.deployments, self.configmaps, self.secrets,
            self.ingresses, self.pvcs, self.networkpolicies, self.replicasets, self.daemonsets,
            self.statefulsets, self.jobs, self.cronjobs, self.serviceaccounts, self.roles,
            self.rolebindings, self.resourcequotas, self.limitranges,
            self.horizontalpodautoscalers, self.poddisruptionbudgets, self.endpoints,
            self.endpointslices,
        ];
        assert(counts@ =~= self.counts());
        let mut n: usize = 0;
        let mut i: usize = 0;
        while i < counts.len()
            invariant
                counts@ == self.counts(),
                i <= counts@.len(),
                n == non_empty_count(counts@.subrange(0, i as int)),
                n <= i,
            decreases counts@.len() - i,
        {
            assert(counts@.subrange(0, i + 1).drop_last() =~= counts@.subrange(0, i as int));
            if counts[i] > 0 {
                n = n + 1;
            }
            i = i + 1;
        }
        assert(counts@.subrange(0, counts@.len() as int) =~= counts@);
        n
    }
}

/// How many of `s` are above zero.
pub open spec fn non_empty_count(s: Seq<usize>) -> int
    decreases s.len(),
{
    if s.len() == 0 {
        0
    } else {
        non_empty_count(s.drop_last()) + if s.last() > 0 {
            1int
        } else {
            0
        }
    }
}

/// What became of the resources handed to the writer in one run.
#[derive(Debug, Clone)]
pub struct SanitizationStats {
    pub total_processed: usize,
    pub total_sanitized: usize,
    pub total_skipped: usize,
    pub skipped_resources: Vec<String>,
}

/// The identifiers of skipped resources, as texts.
pub open spec fn texts(v: Seq<String>) -> Seq<Seq<char>> {
    Seq::new(v.len(), |i: int| v[i]@)
}

impl SanitizationStats {
    pub fn new() -> (r: SanitizationStats)
        ensures
            r.total_processed == 0,
            r.total_sanitized == 0,
            r.total_skipped == 0,
            r.skipped_resources@.len() == 0,
    {
        SanitizationStats {
            total_processed: 0,
            total_sanitized: 0,
            total_skipped: 0,
            skipped_resources: Vec::new(),
        }
    }

    /// Adds the counts and the skipped identifiers of `other`.
    pub fn add(&mut self, other: &SanitizationStats)
        requires
            old(self).total_processed + other.total_processed <= usize::MAX,
            old(self).total_sanitized + other.total_sanitized <= usize::MAX,
            old(self).total_skipped + other.total_skipped <= usize::MAX,
        ensures
            final(self).total_processed == old(self).total_processed + other.total_processed,
            final(self).total_sanitized == old(self).total_sanitized + other.total_sanitized,
            final(self).total_skipped == old(self).total_skipped + other.total_skipped,
            final(self).skipped_resources@ == old(self).skipped_resources@
                + other.skipped_resources@,
    {
        self.total_processed = self.total_processed + other.total_processed;
        self.total_sanitized = self.total_sanitized + other.total_sanitized;
        self.total_skipped = self.total_skipped + other.total_skipped;
        let ghost start = self.skipped_resources@;
        let mut i: usize = 0;
        while i < other.skipped_resources.len()
            invariant
                i <= other.skipped_resources@.len(),
                self.total_processed == old(self).total_processed + other.total_processed,
                self.total_sanitized == old(self).total_sanitized + other.total_sanitized,
                self.total_skipped == old(self).total_skipped + other.total_skipped,
                start == old(self).skipped_resources@,
                self.skipped_resources@ == start + other.skipped_resources@.subrange(0, i as int),
            decreases other.skipped_resources@.len() - i,
        {
            let id = other.skipped_resources[i].clone();
            self.skipped_resources.push(id);
            i = i + 1;
            assert(self.skipped_resources@ =~= start + other.skipped_resources@.subrange(0, i as int));
        }
        assert(other.skipped_resources@.subrange(0, i as int) =~= other.skipped_resources@);
    }

    /// Counts one resource that was sanitized.
    pub fn record_sanitized(&mut self)
        requires
            old(self).total_processed < usize::MAX,
            old(self).total_sanitized < usize::MAX,
        ensures
            final(self).total_processed == old(self).total_processed + 1,
            final(self).total_sanitized == old(self).total_sanitized + 1,
            final(self).total_skipped == old(self).total_skipped,
            final(self).skipped_resources@ == old(self).skipped_resources@,
    {
        self.total_processed = self.total_processed + 1;
        self.total_sanitized = self.total_sanitized + 1;
    }

    /// Counts one resource that was skipped, under its identifier.
    pub fn record_skipped(&mut self, resource_identifier: String)
        requires
            old(self).total_processed < usize::MAX,
            old(self).total_skipped < usize::MAX,
        ensures
            final(self).total_processed == old(self).total_processed + 1,
            final(self).total_sanitized == old(self).total_sanitized,
            final(self).total_skipped == old(self).total_skipped + 1,
            final(self).skipped_resources@ == old(self).skipped_resources@.push(
                resource_identifier,
            ),
    {
        self.total_processed = self.total_processed + 1;
        self.total_skipped = self.total_skipped + 1;
        self.skipped_resources.push(resource_identifier);
    }

    /// Counts one resource that was kept as it came, neither sanitized nor skipped.
    pub fn record_raw(&mut self)
        requires
            old(self).total_processed < usize::MAX,
        ensures
            final(self).total_processed == old(self).total_processed + 1,
            final(self).total_sanitized == old(self).total_sanitized,
            final(self).total_skipped == old(self).total_skipped,
            final(self).skipped_resources@ == old(self).skipped_resources@,
    {
        self.total_processed = self.total_processed + 1;
    }
}

/// A human-readable identifier: `type/name`, or `type/name (namespace)` where
/// the resource names its namespace; a resource without a name is `unknown`.
pub open spec fn identifier(d: JsonModel, resource_type: Seq<char>) -> Seq<char> {
    let name = match resource_name(d) {
        Some(n) => n,
        None => "unknown"@,
    };
    match resource_namespace(d) {
        Some(ns) => resource_type + "/"@ + name + " ("@ + ns + ")"@,
        None => resource_type + "/"@ + name,
    }
}

pub fn get_resource_identifier(resource: &Json, resource_type: &str) -> (r: String)
    ensures
        r@ == identifier(resource@, resource_type@),
{
    let head = join(resource_type, "/");
    let with_name = match name_of(resource) {
        Some(n) => join(head.as_str(), n.as_str()),
        None => join(head.as_str(), "unknown"),
    };
    match namespace_of(resource) {
        Some(ns) => {
            let a = join(with_name.as_str(), " (");
            let b = join(a.as_str(), ns.as_str());
            let r = join(b.as_str(), ")");
            assert(r@ =~= identifier(resource@, resource_type@));
            r
        },
        None => {
            assert(with_name@ =~= identifier(resource@, resource_type@));
            with_name
        },
    }
}


/// What became of one document handed to the sanitizer: its sanitized copy,
/// or the identifier it is reported under and the reason it was skipped.
#[derive(Debug)]
pub enum SanitizationOutcome {
    Sanitized(Json),
    Skipped(String, SanitizeError),
}

/// Sanitizes one document of type `resource_type` for writing.
pub fn sanitize_for_output(resource: &Json, resource_type: &str) -> (r: SanitizationOutcome)
    ensures
        r matches SanitizationOutcome::Sanitized(d) ==> sanitized(resource@) == Some(d@),
        r matches SanitizationOutcome::Skipped(id, e) ==> sanitized(resource@) is None && id@
            == identifier(resource@, resource_type@) && e == SanitizeError::NotAnObject,
        r is Skipped <==> sanitized(resource@) is None,
{
    match sanitize_resource_for_apply(resource) {
        Ok(clean) => SanitizationOutcome::Sanitized(clean),
        Err(e) => SanitizationOutcome::Skipped(get_resource_identifier(resource, resource_type), e),
    }
}

/// The documents to write, each under its name: those without a name are
/// left out; in sanitizing mode each is sanitized, and one that cannot be is
/// left out too.
pub open spec fn prepared(docs: Seq<JsonModel>, sanitize: bool) -> Seq<(Seq<char>, JsonModel)>
    decreases docs.len(),
{
    if docs.len() == 0 {
        Seq::empty()
    } else {
        let rest = prepared(docs.drop_last(), sanitize);
        let d = docs.last();
        match resource_name(d) {
            None => rest,
            Some(n) => if !sanitize {
                rest.push((n, d))
            } else {
                match sanitized(d) {
                    Some(c) => rest.push((n, c)),
                    None => rest,
                }
            },
        }
    }
}

/// How many of `docs` have a name.
pub open spec fn named_count(docs: Seq<JsonModel>) -> nat
    decreases docs.len(),
{
    if docs.len() == 0 {
        0
    } else {
        named_count(docs.drop_last()) + if resource_name(docs.last()) is Some {
            1nat
        } else {
            0
        }
    }
}

/// The identifiers of the named documents that could not be sanitized.
pub open spec fn skipped_ids(docs: Seq<JsonModel>, resource_type: Seq<char>, sanitize: bool) -> Seq<
    Seq<char>,
>
    decreases docs.len(),
{
    if docs.len() == 0 {
        Seq::empty()
    } else {
        let rest = skipped_ids(docs.drop_last(), resource_type, sanitize);
        let d = docs.last();
        if sanitize && resource_name(d) is Some && sanitized(d) is None {
            rest.push(identifier(d, resource_type))
        } else {
            rest
        }
    }
}

/// Prepares the documents of one resource type for writing: the documents to
/// write under their names, and what became of each.
pub fn prepare_resources(resources: &Vec<Json>, resource_type: &str, sanitize: bool) -> (r: (
    Vec<(String, Json)>,
    SanitizationStats,
))
    ensures
        member_views(r.0@) == prepared(views(resources@), sanitize),
        r.1.total_processed == named_count(views(resources@)),
        r.1.total_sanitized == (if sanitize {
            r.0@.len()
        } else {
            0
        }),
        r.1.total_skipped == r.1.skipped_resources@.len(),
        texts(r.1.skipped_resources@) == skipped_ids(views(resources@), resource_type@, sanitize),
{
    let ghost docs = views(resources@);
    let mut out: Vec<(String, Json)> = Vec::new();
    let mut stats = SanitizationStats::new();
    let mut i: usize = 0;
    while i < resources.len()
        invariant
            docs == views(resources@),
            i <= resources@.len(),
            member_views(out@) == prepared(docs.subrange(0, i as int), sanitize),
            stats.total_processed == named_count(docs.subrange(0, i as int)),
            stats.total_processed <= i,
            stats.total_sanitized == (if sanitize {
                out@.len()
            } else {
                0
            }),
            stats.total_sanitized <= i,
            stats.total_skipped == stats.skipped_resources@.len(),
            stats.total_skipped <= i,
            texts(stats.skipped_resources@) == skipped_ids(
                docs.subrange(0, i as int),
                resource_type@,
                sanitize,
            ),
        decreases resources@.len() - i,
    {
        let ghost pre = docs.subrange(0, i as int);
        assert(docs.subrange(0, i + 1).drop_last() =~= pre);
        assert(docs.subrange(0, i + 1).last() == resources@[i as int]@);
        let ghost before = out@;
        let ghost ids_before = stats.skipped_resources@;
        let resource = &resources[i];
        match name_of(resource) {
            Some(name) => {
                if sanitize {
                    match sanitize_for_output(resource, resource_type) {
                        SanitizationOutcome::Sanitized(clean) => {
                            stats.record_sanitized();
                            out.push((name.clone(), clean));
                            assert(member_views(out@) =~= member_views(before).push(
                                (name@, sanitized(resource@)->0),
                            ));
                        },
                        SanitizationOutcome::Skipped(id, _) => {
                            stats.record_skipped(id);
                            assert(texts(stats.skipped_resources@) =~= texts(ids_before).push(
                                identifier(resource@, resource_type@),
                            ));
                        },
                    }
                } else {
                    stats.record_raw();
                    out.push((name.clone(), resource.copy()));
                    assert(member_views(out@) =~= member_views(before).push((name@, resource@)));
                }
            },
            None => {},
        }
        i = i + 1;
    }
    assert(docs.subrange(0, resources@.len() as int) =~= docs);
    (out, stats)
}


/// Where the files of one resource type go: cluster-scoped types (namespace
/// `cluster-wide`) under `cluster-wide-resources/`, the others under
/// `namespaced-resources/<namespace>/`; custom types (a `.` in the type)
/// one level further down, under `custom-resources/`.
pub open spec fn resource_dir_spec(output_dir: Seq<char>, namespace: Seq<char>, resource_type: Seq<char>) -> Seq<char> {
    let custom = has_infix(resource_type, "."@);
    if namespace == "cluster-wide"@ {
        if custom {
            output_dir + "/cluster-wide-resources/custom-resources/"@ + resource_type
        } else {
            output_dir + "/cluster-wide-resources/"@ + resource_type
        }
    } else if custom {
        output_dir + "/namespaced-resources/"@ + namespace + "/custom-resources/"@ + resource_type
    } else {
        output_dir + "/namespaced-resources/"@ + namespace + "/"@ + resource_type
    }
}

pub fn resource_directory(output_dir: &str, namespace: &str, resource_type: &str) -> (r: String)
    ensures
        r@ == resource_dir_spec(output_dir@, namespace@, resource_type@),
{
    let custom = contains(resource_type, ".");
    let r = if same_text(namespace, "cluster-wide") {
        let base = join(output_dir, if custom {
            "/cluster-wide-resources/custom-resources/"
        } else {
            "/cluster-wide-resources/"
        });
        join(base.as_str(), resource_type)
    } else {
        let a = join(output_dir, "/namespaced-resources/");
        let b = join(a.as_str(), namespace);
        let c = join(b.as_str(), if custom {
            "/custom-resources/"
        } else {
            "/"
        });
        join(c.as_str(), resource_type)
    };
    assert(r@ =~= resource_dir_spec(output_dir@, namespace@, resource_type@));
    r
}

/// What a namespace is mainly used for, judged by its name.
pub open spec fn namespace_purpose(ns: Seq<char>) -> Seq<char> {
    if ns == "kube-system"@ {
        "workloads + system config"@
    } else if ns == "default"@ {
        "user workloads"@
    } else if ns == "kube-public"@ {
        "cluster info"@
    } else if ns == "kube-node-lease"@ {
        "node coordination"@
    } else if has_prefix(ns, "istio"@) {
        "service mesh"@
    } else if has_infix(ns, "monitoring"@) {
        "observability"@
    } else if has_infix(ns, "ingress"@) {
        "traffic routing"@
    } else {
        "application workloads"@
    }
}

pub fn determine_namespace_purpose(namespace: &str) -> (r: &'static str)
    ensures
        r@ == namespace_purpose(namespace@),
{
    if same_text(namespace, "kube-system") {
        "workloads + system config"
    } else if same_text(namespace, "default") {
        "user workloads"
    } else if same_text(namespace, "kube-public") {
        "cluster info"
    } else if same_text(namespace, "kube-node-lease") {
        "node coordination"
    } else if starts_with(namespace, "istio") {
        "service mesh"
    } else if contains(namespace, "monitoring") {
        "observability"
    } else if contains(namespace, "ingress") {
        "traffic routing"
    } else {
        "application workloads"
    }
}


/// The sum of per-kind count `k` (an index into `counts`) over all
/// namespaces, held to what a `usize` can count.
pub open spec fn column_total(s: Seq<NamespaceStats>, k: int) -> nat
    decreases s.len(),
{
    if s.len() == 0 {
        0
    } else {
        capped_sum(column_total(s.drop_last(), k) + s.last().counts()[k])
    }
}

/// `n`, held to what a `usize` can count.
pub open spec fn capped_sum(n: int) -> nat {
    if n > usize::MAX {
        usize::MAX as nat
    } else if n < 0 {
        0
    } else {
        n as nat
    }
}

/// Workload resources over all namespaces.
#[derive(Debug, Clone, Copy)]
pub struct WorkloadResources {
    pub total: usize,
    pub pods: usize,
    pub deployments: usize,
    pub jobs: usize,
    pub daemonsets: usize,
    pub statefulsets: usize,
    pub cronjobs: usize,
    pub replicasets: usize,
}

/// Service accounts and RBAC resources over all namespaces.
#[derive(Debug, Clone, Copy)]
pub struct SecurityResources {
    pub total: usize,
    pub service_accounts: usize,
    pub roles: usize,
    pub rolebindings: usize,
}

/// Configuration resources over all namespaces.
#[derive(Debug, Clone, Copy)]
pub struct ConfigurationResources {
    pub total: usize,
    pub configmaps: usize,
    pub secrets: usize,
}

/// Networking resources over all namespaces.
#[derive(Debug, Clone, Copy)]
pub struct NetworkingResources {
    pub total: usize,
    pub services: usize,
    pub endpoints: usize,
    pub ingresses: usize,
    pub networkpolicies: usize,
}

/// The sum of `columns` over all namespaces.
pub open spec fn group_total(s: Seq<NamespaceStats>, columns: Seq<int>) -> nat
    decreases columns.len(),
{
    if columns.len() == 0 {
        0
    } else {
        capped_sum(group_total(s, columns.drop_last()) as int + column_total(s, columns.last()) as int)
    }
}

/// The column sums over `namespace_stats`, grouped by what the resources are for.
pub open spec fn highlights_spec(s: Seq<NamespaceStats>) -> (
    WorkloadResources,
    SecurityResources,
    ConfigurationResources,
    NetworkingResources,
) {
    (
        WorkloadResources {
            total: group_total(s, seq![0int, 2, 11, 9, 10, 12, 8]) as usize,
            pods: column_total(s, 0) as usize,
            deployments: column_total(s, 2) as usize,
            jobs: column_total(s, 11) as usize,
            daemonsets: column_total(s, 9) as usize,
            statefulsets: column_total(s, 10) as usize,
            cronjobs: column_total(s, 12) as usize,
            replicasets: column_total(s, 8) as usize,
        },
        SecurityResources {
            total: group_total(s, seq![13int, 14, 15]) as usize,
            service_accounts: column_total(s, 13) as usize,
            roles: column_total(s, 14) as usize,
            rolebindings: column_total(s, 15) as usize,
        },
        ConfigurationResources {
            total: group_total(s, seq![3int, 4]) as usize,
            configmaps: column_total(s, 3) as usize,
            secrets: column_total(s, 4) as usize,
        },
        NetworkingResources {
            total: group_total(s, seq![1int, 20, 5, 7]) as usize,
            services: column_total(s, 1) as usize,
            endpoints: column_total(s, 20) as usize,
            ingresses: column_total(s, 5) as usize,
            networkpolicies: column_total(s, 7) as usize,
        },
    )
}

fn column(stats: &NamespaceStats, k: usize) -> (r: usize)
    requires
        k < 22,
    ensures
        r == stats.counts()[k as int],
{
    let counts: Vec<usize> = vec![
        stats.pods, stats.services, stats.deployments, stats.configmaps, stats.secrets,
        stats.ingresses, stats.pvcs, stats.networkpolicies, stats.replicasets, stats.daemonsets,
        stats.statefulsets, stats.jobs, stats.cronjobs, stats.serviceaccounts, stats.roles,
        stats.rolebindings, stats.resourcequotas, stats.limitranges,
        stats.horizontalpodautoscalers, stats.poddisruptionbudgets, stats.endpoints,
        stats.endpointslices,
    ];
    assert(counts@ =~= stats.counts());
    counts[k]
}

fn column_sum(namespace_stats: &Vec<NamespaceStats>, k: usize) -> (r: usize)
    requires
        k < 22,
    ensures
        r == column_total(namespace_stats@, k as int),
{
    let ghost s = namespace_stats@;
    let mut total: usize = 0;
    let mut i: usize = 0;
    while i < namespace_stats.len()
        invariant
            s == namespace_stats@,
            k < 22,
            i <= s.len(),
            total == column_total(s.subrange(0, i as int), k as int),
        decreases s.len() - i,
    {
        assert(s.subrange(0, i + 1).drop_last() =~= s.subrange(0, i as int));
        total = total.saturating_add(column(&namespace_stats[i], k));
        i = i + 1;
    }
    assert(s.subrange(0, i as int) =~= s);
    total
}

fn columns_sum(namespace_stats: &Vec<NamespaceStats>, columns: &Vec<usize>) -> (r: usize)
    requires
        forall|j: int| 0 <= j < columns@.len() ==> columns@[j] < 22,
    ensures
        r == group_total(namespace_stats@, columns@.map_values(|c: usize| c as int)),
{
    let ghost cs = columns@.map_values(|c: usize| c as int);
    let mut total: usize = 0;
    let mut i: usize = 0;
    while i < columns.len()
        invariant
            cs == columns@.map_values(|c: usize| c as int),
            forall|j: int| 0 <= j < columns@.len() ==> columns@[j] < 22,
            i <= columns@.len(),
            total == group_total(namespace_stats@, cs.subrange(0, i as int)),
        decreases columns@.len() - i,
    {
        assert(cs.subrange(0, i + 1).drop_last() =~= cs.subrange(0, i as int));
        total = total.saturating_add(column_sum(namespace_stats, columns[i]));
        i = i + 1;
    }
    assert(cs.subrange(0, i as int) =~= cs);
    total
}

/// Sums the per-kind counts over all namespaces, by what the resources are for.
pub fn calculate_resource_highlights(namespace_stats: &Vec<NamespaceStats>) -> (r: (
    WorkloadResources,
    SecurityResources,
    ConfigurationResources,
    NetworkingResources,
))
    ensures
        r == highlights_spec(namespace_stats@),
{
    let workload_columns: Vec<usize> = vec![0, 2, 11, 9, 10, 12, 8];
    let security_columns: Vec<usize> = vec![13, 14, 15];
    let configuration_columns: Vec<usize> = vec![3, 4];
    let networking_columns: Vec<usize> = vec![1, 20, 5, 7];
    assert(workload_columns@.map_values(|c: usize| c as int) =~= seq![0int, 2, 11, 9, 10, 12, 8]);
    assert(security_columns@.map_values(|c: usize| c as int) =~= seq![13int, 14, 15]);
    assert(configuration_columns@.map_values(|c: usize| c as int) =~= seq![3int, 4]);
    assert(networking_columns@.map_values(|c: usize| c as int) =~= seq![1int, 20, 5, 7]);
    (
        WorkloadResources {
            total: columns_sum(namespace_stats, &workload_columns),
            pods: column_sum(namespace_stats, 0),
            deployments: column_sum(namespace_stats, 2),
            jobs: column_sum(namespace_stats, 11),
            daemonsets: column_sum(namespace_stats, 9),
            statefulsets: column_sum(namespace_stats, 10),
            cronjobs: column_sum(namespace_stats, 12),
            replicasets: column_sum(namespace_stats, 8),
        },
        SecurityResources {
            total: columns_sum(namespace_stats, &security_columns),
            service_accounts: column_sum(namespace_stats, 13),
            roles: column_sum(namespace_stats, 14),
            rolebindings: column_sum(namespace_stats, 15),
        },
        ConfigurationResources {
            total: columns_sum(namespace_stats, &configuration_columns),
            configmaps: column_sum(namespace_stats, 3),
            secrets: column_sum(namespace_stats, 4),
        },
        NetworkingResources {
            total: columns_sum(namespace_stats, &networking_columns),
            services: column_sum(namespace_stats, 1),
            endpoints: column_sum(namespace_stats, 20),
            ingresses: column_sum(namespace_stats, 5),
            networkpolicies: column_sum(namespace_stats, 7),
        },
    )
}


/// The documents of `docs` that name `namespace` as theirs, in order.
pub open spec fn in_namespace(docs: Seq<JsonModel>, namespace: Seq<char>) -> Seq<JsonModel>
    decreases docs.len(),
{
    if docs.len() == 0 {
        Seq::empty()
    } else {
        let rest = in_namespace(docs.drop_last(), namespace);
        if resource_namespace(docs.last()) == Some(namespace) {
            rest.push(docs.last())
        } else {
            rest
        }
    }
}

/// Copies of the documents that name `namespace` as theirs.
pub fn documents_in_namespace(docs: &Vec<Json>, namespace: &str) -> (r: Vec<Json>)
    ensures
        views(r@) == in_namespace(views(docs@), namespace@),
{
    let ghost s = views(docs@);
    let mut out: Vec<Json> = Vec::new();
    let mut i: usize = 0;
    while i < docs.len()
        invariant
            s == views(docs@),
            i <= docs@.len(),
            views(out@) == in_namespace(s.subrange(0, i as int), namespace@),
        decreases docs@.len() - i,
    {
        assert(s.subrange(0, i + 1).drop_last() =~= s.subrange(0, i as int));
        let keep = match namespace_of(&docs[i]) {
            Some(ns) => same_text(ns.as_str(), namespace),
            None => false,
        };
        if keep {
            let ghost before = out@;
            out.push(docs[i].copy());
            assert(views(out@) =~= views(before).push(s[i as int]));
        }
        i = i + 1;
    }
    assert(s.subrange(0, i as int) =~= s);
    out
}

/// The position in `counts` of the count kept for a resource type, if one is.
pub open spec fn count_column(resource_type: Seq<char>) -> Option<int> {
    if resource_type == "pods"@ { Some(0) }
    else if resource_type == "services"@ { Some(1) }
    else if resource_type == "deployments"@ { Some(2) }
    else if resource_type == "configmaps"@ { Some(3) }
    else if resource_type == "secrets"@ { Some(4) }
    else if resource_type == "ingresses"@ { Some(5) }
    else if resource_type == "persistentvolumeclaims"@ { Some(6) }
    else if resource_type == "networkpolicies"@ { Some(7) }
    else if resource_type == "replicasets"@ { Some(8) }
    else if resource_type == "daemonsets"@ { Some(9) }
    else if resource_type == "statefulsets"@ { Some(10) }
    else if resource_type == "jobs"@ { Some(11) }
    else if resource_type == "cronjobs"@ { Some(12) }
    else if resource_type == "serviceaccounts"@ { Some(13) }
    else if resource_type == "roles"@ { Some(14) }
    else if resource_type == "rolebindings"@ { Some(15) }
    else if resource_type == "resourcequotas"@ { Some(16) }
    else if resource_type == "limitranges"@ { Some(17) }
    else if resource_type == "horizontalpodautoscalers"@ { Some(18) }
    else if resource_type == "poddisruptionbudgets"@ { Some(19) }
    else if resource_type == "endpoints"@ { Some(20) }
    else if resource_type == "endpointslices"@ { Some(21) }
    else { None }
}

impl NamespaceStats {
    /// Records `n` saved resources of `resource_type`; a type without a count
    /// of its own (a custom type, say) changes nothing.
    pub fn set_count(&mut self, resource_type: &str, n: usize)
        ensures
            final(self).namespace == old(self).namespace,
            final(self).counts() == (match count_column(resource_type@) {
                Some(k) => old(self).counts().update(k, n),
                None => old(self).counts(),
            }),
    {
        let t = resource_type;
        if same_text(t, "pods") { self.pods = n; }
        else if same_text(t, "services") { self.services = n; }
        else if same_text(t, "deployments") { self.deployments = n; }
        else if same_text(t, "configmaps") { self.configmaps = n; }
        else if same_text(t, "secrets") { self.secrets = n; }
        else if same_text(t, "ingresses") { self.ingresses = n; }
        else if same_text(t, "persistentvolumeclaims") { self.pvcs = n; }
        else if same_text(t, "networkpolicies") { self.networkpolicies = n; }
        else if same_text(t, "replicasets") { self.replicasets = n; }
        else if same_text(t, "daemonsets") { self.daemonsets = n; }
        else if same_text(t, "statefulsets") { self.statefulsets = n; }
        else if same_text(t, "jobs") { self.jobs = n; }
        else if same_text(t, "cronjobs") { self.cronjobs = n; }
        else if same_text(t, "serviceaccounts") { self.serviceaccounts = n; }
        else if same_text(t, "roles") { self.roles = n; }
        else if same_text(t, "rolebindings") { self.rolebindings = n; }
        else if same_text(t, "resourcequotas") { self.resourcequotas = n; }
        else if same_text(t, "limitranges") { self.limitranges = n; }
        else if same_text(t, "horizontalpodautoscalers") { self.horizontalpodautoscalers = n; }
        else if same_text(t, "poddisruptionbudgets") { self.poddisruptionbudgets = n; }
        else if same_text(t, "endpoints") { self.endpoints = n; }
        else if same_text(t, "endpointslices") { self.endpointslices = n; }
        proof {
            assert(final(self).counts() =~= (match count_column(resource_type@) {
                Some(k) => old(self).counts().update(k, n),
                None => old(self).counts(),
            }));
        }
    }
}

} // verus!
