//! Per-kind projections. Each projection builds a fresh object that retains
//! only the fields the downstream consumer needs; every other field is
//! absent from the result (and so from its JSON encoding).

use vstd::prelude::*;

use crate::model::{
    fields_view, FieldView, JsonField, KubeObject, MetaView, ObjView, ObjectMeta, ResourceKind,
};
use crate::util::str_eq;

verus! {

/// The retained field names of one spec or status section.
#[derive(Clone, Copy, PartialEq, Eq, Structural, Debug)]
pub enum FieldSet {
    PodStatus,
    NodeSpec,
    NodeStatus,
    WorkloadSpec,
    DaemonSetSpec,
    ReplicaSetSpec,
    ServiceSpec,
}

pub open spec fn keeps(set: FieldSet, name: Seq<char>) -> bool {
    match set {
        FieldSet::PodStatus => name == "hostIP"@ || name == "podIP"@ || name == "conditions"@,
        FieldSet::NodeSpec => name == "podCIDR"@,
        FieldSet::NodeStatus => name == "addresses"@ || name == "conditions"@ || name
            == "capacity"@,
        FieldSet::WorkloadSpec => name == "replicas"@ || name == "selector"@ || name
            == "template"@,
        FieldSet::DaemonSetSpec => name == "selector"@ || name == "template"@,
        FieldSet::ReplicaSetSpec => name == "replicas"@ || name == "selector"@,
        FieldSet::ServiceSpec => name == "selector"@ || name == "type"@ || name == "clusterIP"@
            || name == "ports"@,
    }
}

/// The subsequence of `fs` whose names the set keeps, in order.
pub open spec fn retain_fields(set: FieldSet, fs: Seq<FieldView>) -> Seq<FieldView>
    decreases fs.len(),
{
    if fs.len() == 0 {
        Seq::empty()
    } else {
        let r = retain_fields(set, fs.drop_last());
        if keeps(set, fs.last().name) {
            r.push(fs.last())
        } else {
            r
        }
    }
}

/// Every field of a retained section is one the set keeps, and it occurs in
/// the input.
pub proof fn lemma_retain_fields_only_kept(set: FieldSet, fs: Seq<FieldView>)
    ensures
        forall|i: int|
            0 <= i < retain_fields(set, fs).len() ==> keeps(
                set,
                #[trigger] retain_fields(set, fs)[i].name,
            ) && fs.contains(retain_fields(set, fs)[i]),
    decreases fs.len(),
{
    if fs.len() > 0 {
        lemma_retain_fields_only_kept(set, fs.drop_last());
        assert forall|x: FieldView| fs.drop_last().contains(x) implies fs.contains(x) by {
            let j = choose|j: int| 0 <= j < fs.drop_last().len() && fs.drop_last()[j] == x;
            assert(fs[j] == x);
        }
        assert(fs.contains(fs.last())) by {
            assert(fs[fs.len() - 1] == fs.last());
        }
        let r0 = retain_fields(set, fs.drop_last());
        let r = retain_fields(set, fs);
        if keeps(set, fs.last().name) {
            assert(r == r0.push(fs.last()));
            assert forall|i: int| 0 <= i < r.len() implies keeps(set, r[i].name) && fs.contains(
                r[i],
            ) by {
                if i < r0.len() {
                    assert(r[i] == r0[i]);
                    assert(keeps(set, retain_fields(set, fs.drop_last())[i].name));
                    assert(fs.drop_last().contains(r0[i]));
                } else {
                    assert(r[i] == fs.last());
                }
            }
        } else {
            assert(r == r0);
            assert forall|i: int| 0 <= i < r.len() implies keeps(set, r[i].name) && fs.contains(
                r[i],
            ) by {
                assert(keeps(set, retain_fields(set, fs.drop_last())[i].name));
                assert(fs.drop_last().contains(r0[i]));
            }
        }
    }
}

fn field_kept(set: FieldSet, name: &String) -> (r: bool)
    ensures
        r == keeps(set, name@),
{
    let n = name.as_str();
    match set {
        FieldSet::PodStatus => str_eq(n, "hostIP") || str_eq(n, "podIP") || str_eq(
            n,
            "conditions",
        ),
        FieldSet::NodeSpec => str_eq(n, "podCIDR"),
        FieldSet::NodeStatus => str_eq(n, "addresses") || str_eq(n, "conditions") || str_eq(
            n,
            "capacity",
        ),
        FieldSet::WorkloadSpec => str_eq(n, "replicas") || str_eq(n, "selector") || str_eq(
            n,
            "template",
        ),
        FieldSet::DaemonSetSpec => str_eq(n, "selector") || str_eq(n, "template"),
        FieldSet::ReplicaSetSpec => str_eq(n, "replicas") || str_eq(n, "selector"),
        FieldSet::ServiceSpec => str_eq(n, "selector") || str_eq(n, "type") || str_eq(
            n,
            "clusterIP",
        ) || str_eq(n, "ports"),
    }
}

fn clone_field(f: &JsonField) -> (r: JsonField)
    ensures
        r@ == f@,
{
    JsonField { name: f.name.clone(), value: f.value.clone() }
}

/// Keeps, in order, the fields of `fs` whose names the set keeps.
fn retain_section(set: FieldSet, fs: &Vec<JsonField>) -> (r: Vec<JsonField>)
    ensures
        fields_view(r@) == retain_fields(set, fields_view(fs@)),
{
    let mut out: Vec<JsonField> = Vec::new();
    let n: usize = fs.len();
    assert(fields_view(fs@).take(0) =~= Seq::<FieldView>::empty());
    assert(fields_view(out@) =~= retain_fields(set, fields_view(fs@).take(0)));
    for i in 0..n
        invariant
            n == fs@.len(),
            fields_view(out@) == retain_fields(set, fields_view(fs@).take(i as int)),
    {
        let ghost fv = fields_view(fs@);
        proof {
            assert(fv[i as int] == fs@[i as int]@);
            assert(fv.take(i + 1).drop_last() =~= fv.take(i as int));
            assert(fv.take(i + 1).last() == fv[i as int]);
        }
        if field_kept(set, &fs[i].name) {
            let ghost prev = out@;
            let f = clone_field(&fs[i]);
            out.push(f);
            assert(fields_view(out@) =~= fields_view(prev).push(fv[i as int]));
            assert(fields_view(out@) =~= retain_fields(set, fv.take(i + 1)));
        } else {
            assert(fields_view(out@) =~= retain_fields(set, fv.take(i + 1)));
        }
    }
    assert(fields_view(fs@).take(n as int) =~= fields_view(fs@));
    out
}

// ---------------------------------------------------------------------------
// Per-kind projections, spec level
// ---------------------------------------------------------------------------

pub open spec fn retain_section_view(set: FieldSet, v: Option<Seq<FieldView>>) -> Option<
    Seq<FieldView>,
> {
    match v {
        Some(fs) => Some(retain_fields(set, fs)),
        None => None,
    }
}

pub open spec fn empty_meta() -> MetaView {
    MetaView {
        uid: None,
        name: None,
        namespace: None,
        labels: None,
        annotations: None,
        owner_references: None,
        creation_timestamp: None,
        resource_version: None,
        managed_fields: None,
    }
}

pub open spec fn spec_trim_pod(o: ObjView) -> ObjView {
    ObjView {
        metadata: MetaView {
            uid: o.metadata.uid,
            name: o.metadata.name,
            namespace: o.metadata.namespace,
            owner_references: o.metadata.owner_references,
            creation_timestamp: o.metadata.creation_timestamp,
            labels: o.metadata.labels,
            ..empty_meta()
        },
        spec: None,
        status: retain_section_view(FieldSet::PodStatus, o.status),
    }
}

pub open spec fn spec_trim_node(o: ObjView) -> ObjView {
    ObjView {
        metadata: MetaView {
            uid: o.metadata.uid,
            name: o.metadata.name,
            labels: o.metadata.labels,
            ..empty_meta()
        },
        spec: retain_section_view(FieldSet::NodeSpec, o.spec),
        status: retain_section_view(FieldSet::NodeStatus, o.status),
    }
}

pub open spec fn spec_trim_namespace(o: ObjView) -> ObjView {
    ObjView {
        metadata: MetaView { uid: o.metadata.uid, name: o.metadata.name, ..empty_meta() },
        spec: None,
        status: None,
    }
}

pub open spec fn spec_trim_service(o: ObjView) -> ObjView {
    ObjView {
        metadata: MetaView {
            uid: o.metadata.uid,
            name: o.metadata.name,
            namespace: o.metadata.namespace,
            annotations: o.metadata.annotations,
            ..empty_meta()
        },
        spec: retain_section_view(FieldSet::ServiceSpec, o.spec),
        status: None,
    }
}

pub open spec fn spec_trim_workload(o: ObjView, set: FieldSet) -> ObjView {
    ObjView {
        metadata: MetaView {
            uid: o.metadata.uid,
            name: o.metadata.name,
            namespace: o.metadata.namespace,
            labels: o.metadata.labels,
            ..empty_meta()
        },
        spec: retain_section_view(set, o.spec),
        status: None,
    }
}

pub open spec fn spec_trim_replica_set(o: ObjView) -> ObjView {
    ObjView {
        metadata: MetaView {
            uid: o.metadata.uid,
            name: o.metadata.name,
            namespace: o.metadata.namespace,
            owner_references: o.metadata.owner_references,
            labels: o.metadata.labels,
            ..empty_meta()
        },
        spec: retain_section_view(FieldSet::ReplicaSetSpec, o.spec),
        status: None,
    }
}

pub open spec fn spec_trim_replication_controller(o: ObjView) -> ObjView {
    ObjView {
        metadata: MetaView {
            uid: o.metadata.uid,
            name: o.metadata.name,
            namespace: o.metadata.namespace,
            ..empty_meta()
        },
        spec: retain_section_view(FieldSet::WorkloadSpec, o.spec),
        status: None,
    }
}

/// Ingress and Route: metadata reduced to uid, name and namespace; the spec
/// is carried over unchanged; the status is cleared.
pub open spec fn spec_trim_ingress(o: ObjView) -> ObjView {
    ObjView {
        metadata: MetaView {
            uid: o.metadata.uid,
            name: o.metadata.name,
            namespace: o.metadata.namespace,
            ..empty_meta()
        },
        spec: o.spec,
        status: None,
    }
}

/// What projection leaves of an object of the given kind.
pub open spec fn spec_trim(kind: ResourceKind, o: ObjView) -> ObjView {
    match kind {
        ResourceKind::Node => spec_trim_node(o),
        ResourceKind::Namespace => spec_trim_namespace(o),
        ResourceKind::Service => spec_trim_service(o),
        ResourceKind::Deployment => spec_trim_workload(o, FieldSet::WorkloadSpec),
        ResourceKind::Pod => spec_trim_pod(o),
        ResourceKind::StatefulSet => spec_trim_workload(o, FieldSet::WorkloadSpec),
        ResourceKind::DaemonSet => spec_trim_workload(o, FieldSet::DaemonSetSpec),
        ResourceKind::ReplicationController => spec_trim_replication_controller(o),
        ResourceKind::ReplicaSet => spec_trim_replica_set(o),
        ResourceKind::V1Ingress => spec_trim_ingress(o),
        ResourceKind::V1beta1Ingress => spec_trim_ingress(o),
        ResourceKind::ExtV1beta1Ingress => spec_trim_ingress(o),
        ResourceKind::Route => spec_trim_ingress(o),
    }
}

// ---------------------------------------------------------------------------
// Per-kind projections, executable
// ---------------------------------------------------------------------------

fn retain_opt_section(set: FieldSet, v: Option<Vec<JsonField>>) -> (r: Option<Vec<JsonField>>)
    ensures
        crate::model::section_view(r) == retain_section_view(
            set,
            crate::model::section_view(v),
        ),
{
    match v {
        Some(fs) => {
            let out = retain_section(set, &fs);
            Some(out)
        },
        None => None,
    }
}

pub fn trim_pod(o: KubeObject) -> (r: KubeObject)
    ensures
        r@ == spec_trim_pod(o@),
{
    let ghost ov = o@;
    let KubeObject { metadata, spec: _, status } = o;
    let r = KubeObject {
        metadata: ObjectMeta {
            uid: metadata.uid,
            name: metadata.name,
            namespace: metadata.namespace,
            owner_references: metadata.owner_references,
            creation_timestamp: metadata.creation_timestamp,
            labels: metadata.labels,
            annotations: None,
            resource_version: None,
            managed_fields: None,
        },
        spec: None,
        status: retain_opt_section(FieldSet::PodStatus, status),
    };
    assert(r@ =~~= spec_trim_pod(ov));
    r
}

pub fn trim_node(o: KubeObject) -> (r: KubeObject)
    ensures
        r@ == spec_trim_node(o@),
{
    let ghost ov = o@;
    let KubeObject { metadata, spec, status } = o;
    let r = KubeObject {
        metadata: ObjectMeta {
            uid: metadata.uid,
            name: metadata.name,
            labels: metadata.labels,
            namespace: None,
            annotations: None,
            owner_references: None,
            creation_timestamp: None,
            resource_version: None,
            managed_fields: None,
        },
        spec: retain_opt_section(FieldSet::NodeSpec, spec),
        status: retain_opt_section(FieldSet::NodeStatus, status),
    };
    assert(r@ =~~= spec_trim_node(ov));
    r
}

pub fn trim_namespace(o: KubeObject) -> (r: KubeObject)
    ensures
        r@ == spec_trim_namespace(o@),
{
    let ghost ov = o@;
    let KubeObject { metadata, spec: _, status: _ } = o;
    let r = KubeObject {
        metadata: ObjectMeta {
            uid: metadata.uid,
            name: metadata.name,
            namespace: None,
            labels: None,
            annotations: None,
            owner_references: None,
            creation_timestamp: None,
            resource_version: None,
            managed_fields: None,
        },
        spec: None,
        status: None,
    };
    assert(r@ =~~= spec_trim_namespace(ov));
    r
}

pub fn trim_service(o: KubeObject) -> (r: KubeObject)
    ensures
        r@ == spec_trim_service(o@),
{
    let ghost ov = o@;
    let KubeObject { metadata, spec, status: _ } = o;
    let r = KubeObject {
        metadata: ObjectMeta {
            uid: metadata.uid,
            name: metadata.name,
            namespace: metadata.namespace,
            annotations: metadata.annotations,
            labels: None,
            owner_references: None,
            creation_timestamp: None,
            resource_version: None,
            managed_fields: None,
        },
        spec: retain_opt_section(FieldSet::ServiceSpec, spec),
        status: None,
    };
    assert(r@ =~~= spec_trim_service(ov));
    r
}

/// Shared shape of Deployment, StatefulSet and DaemonSet projections; the
/// field set decides whether `replicas` is retained.
pub fn trim_workload(o: KubeObject, set: FieldSet) -> (r: KubeObject)
    ensures
        r@ == spec_trim_workload(o@, set),
{
    let ghost ov = o@;
    let KubeObject { metadata, spec, status: _ } = o;
    let r = KubeObject {
        metadata: ObjectMeta {
            uid: metadata.uid,
            name: metadata.name,
            namespace: metadata.namespace,
            labels: metadata.labels,
            annotations: None,
            owner_references: None,
            creation_timestamp: None,
            resource_version: None,
            managed_fields: None,
        },
        spec: retain_opt_section(set, spec),
        status: None,
    };
    assert(r@ =~~= spec_trim_workload(ov, set));
    r
}

pub fn trim_replica_set(o: KubeObject) -> (r: KubeObject)
    ensures
        r@ == spec_trim_replica_set(o@),
{
    let ghost ov = o@;
    let KubeObject { metadata, spec, status: _ } = o;
    let r = KubeObject {
        metadata: ObjectMeta {
            uid: metadata.uid,
            name: metadata.name,
            namespace: metadata.namespace,
            owner_references: metadata.owner_references,
            labels: metadata.labels,
            annotations: None,
            creation_timestamp: None,
            resource_version: None,
            managed_fields: None,
        },
        spec: retain_opt_section(FieldSet::ReplicaSetSpec, spec),
        status: None,
    };
    assert(r@ =~~= spec_trim_replica_set(ov));
    r
}

pub fn trim_replication_controller(o: KubeObject) -> (r: KubeObject)
    ensures
        r@ == spec_trim_replication_controller(o@),
{
    let ghost ov = o@;
    let KubeObject { metadata, spec, status: _ } = o;
    let r = KubeObject {
        metadata: ObjectMeta {
            uid: metadata.uid,
            name: metadata.name,
            namespace: metadata.namespace,
            labels: None,
            annotations: None,
            owner_references: None,
            creation_timestamp: None,
            resource_version: None,
            managed_fields: None,
        },
        spec: retain_opt_section(FieldSet::WorkloadSpec, spec),
        status: None,
    };
    assert(r@ =~~= spec_trim_replication_controller(ov));
    r
}

pub fn trim_ingress(o: KubeObject) -> (r: KubeObject)
    ensures
        r@ == spec_trim_ingress(o@),
{
    let ghost ov = o@;
    let KubeObject { metadata, spec, status: _ } = o;
    let r = KubeObject {
        metadata: ObjectMeta {
            uid: metadata.uid,
            name: metadata.name,
            namespace: metadata.namespace,
            labels: None,
            annotations: None,
            owner_references: None,
            creation_timestamp: None,
            resource_version: None,
            managed_fields: None,
        },
        spec,
        status: None,
    };
    assert(r@ =~~= spec_trim_ingress(ov));
    r
}

/// Projects an object of the given kind.
pub fn trim_object(kind: ResourceKind, o: KubeObject) -> (r: KubeObject)
    ensures
        r@ == spec_trim(kind, o@),
{
    match kind {
        ResourceKind::Node => trim_node(o),
        ResourceKind::Namespace => trim_namespace(o),
        ResourceKind::Service => trim_service(o),
        ResourceKind::Deployment => trim_workload(o, FieldSet::WorkloadSpec),
        ResourceKind::Pod => trim_pod(o),
        ResourceKind::StatefulSet => trim_workload(o, FieldSet::WorkloadSpec),
        ResourceKind::DaemonSet => trim_workload(o, FieldSet::DaemonSetSpec),
        ResourceKind::ReplicationController => trim_replication_controller(o),
        ResourceKind::ReplicaSet => trim_replica_set(o),
        ResourceKind::V1Ingress => trim_ingress(o),
        ResourceKind::V1beta1Ingress => trim_ingress(o),
        ResourceKind::ExtV1beta1Ingress => trim_ingress(o),
        ResourceKind::Route => trim_ingress(o),
    }
}

/// An object tagged with its resource kind.
pub struct TypedObject {
    pub kind: ResourceKind,
    pub obj: KubeObject,
}

impl View for TypedObject {
    type V = ObjView;

    open spec fn view(&self) -> ObjView {
        self.obj@
    }
}

/// A value that can be projected to the subset of itself that the
/// downstream consumer needs.
pub trait Trimmable: Sized + View<V = ObjView> {
    /// What the projection leaves of this value.
    spec fn trimmed(&self) -> ObjView;

    fn trim(self) -> (r: Self)
        ensures
            r@ == self.trimmed(),
    ;
}

impl Trimmable for TypedObject {
    open spec fn trimmed(&self) -> ObjView {
        spec_trim(self.kind, self.obj@)
    }

    fn trim(self) -> (r: Self) {
        let TypedObject { kind, obj } = self;
        TypedObject { kind, obj: trim_object(kind, obj) }
    }
}

} // verus!
