//! Constructing watchers from resource keys: the closed key set, the
//! cluster-scoped kinds whose namespace argument is ignored, and unknown
//! keys yielding no watcher.

use vstd::prelude::*;
use vstd::string::StringExecFns;

use crate::model::{opt_view, ResourceKind};
use crate::util::str_eq;
use crate::watcher::{zero_counter, ResourceWatcher};

verus! {

/// The resource kind a key of the closed set names; unknown keys name
/// none.
pub open spec fn resource_kind_of(r: Seq<char>) -> Option<ResourceKind> {
    if r == "nodes"@ {
        Some(ResourceKind::Node)
    } else if r == "namespaces"@ {
        Some(ResourceKind::Namespace)
    } else if r == "services"@ {
        Some(ResourceKind::Service)
    } else if r == "deployments"@ {
        Some(ResourceKind::Deployment)
    } else if r == "pods"@ {
        Some(ResourceKind::Pod)
    } else if r == "statefulsets"@ {
        Some(ResourceKind::StatefulSet)
    } else if r == "daemonsets"@ {
        Some(ResourceKind::DaemonSet)
    } else if r == "replicationcontrollers"@ {
        Some(ResourceKind::ReplicationController)
    } else if r == "replicasets"@ {
        Some(ResourceKind::ReplicaSet)
    } else if r == "v1ingresses"@ {
        Some(ResourceKind::V1Ingress)
    } else if r == "v1beta1ingresses"@ {
        Some(ResourceKind::V1beta1Ingress)
    } else if r == "extv1beta1ingresses"@ {
        Some(ResourceKind::ExtV1beta1Ingress)
    } else if r == "routes"@ {
        Some(ResourceKind::Route)
    } else {
        None
    }
}

/// Kinds that exist outside any namespace; a namespace argument is ignored
/// for them.
pub open spec fn cluster_scoped(kind: ResourceKind) -> bool {
    kind == ResourceKind::Node || kind == ResourceKind::Namespace
}

/// Builds the watcher for a resource key, or nothing for a key outside the
/// closed set. Cluster-scoped kinds get no namespace whatever was passed.
pub fn new_watcher(resource: &str, kind_label: &str, namespace: Option<&str>) -> (r: Option<
    ResourceWatcher,
>)
    ensures
        match r {
            Some(w) => resource_kind_of(resource@) == Some(w.kind) && w.kind_label@ == kind_label@
                && (cluster_scoped(w.kind) ==> w.namespace is None) && (!cluster_scoped(w.kind)
                ==> opt_view(w.namespace) == match namespace {
                Some(n) => Some(n@),
                None => None::<Seq<char>>,
            }) && w.wf() && w.store.contents() == Map::<Seq<char>, Seq<u8>>::empty()
                && w.store.spec_version() == 0 && !w.store.spec_ready() && w.store.spec_error()
                is None && w.counter == zero_counter(),
            None => resource_kind_of(resource@) is None,
        },
{
    let kind: ResourceKind = if str_eq(resource, "nodes") {
        ResourceKind::Node
    } else if str_eq(resource, "namespaces") {
        ResourceKind::Namespace
    } else if str_eq(resource, "services") {
        ResourceKind::Service
    } else if str_eq(resource, "deployments") {
        ResourceKind::Deployment
    } else if str_eq(resource, "pods") {
        ResourceKind::Pod
    } else if str_eq(resource, "statefulsets") {
        ResourceKind::StatefulSet
    } else if str_eq(resource, "daemonsets") {
        ResourceKind::DaemonSet
    } else if str_eq(resource, "replicationcontrollers") {
        ResourceKind::ReplicationController
    } else if str_eq(resource, "replicasets") {
        ResourceKind::ReplicaSet
    } else if str_eq(resource, "v1ingresses") {
        ResourceKind::V1Ingress
    } else if str_eq(resource, "v1beta1ingresses") {
        ResourceKind::V1beta1Ingress
    } else if str_eq(resource, "extv1beta1ingresses") {
        ResourceKind::ExtV1beta1Ingress
    } else if str_eq(resource, "routes") {
        ResourceKind::Route
    } else {
        return None;
    };
    let ns: Option<String> = match (kind, namespace) {
        (ResourceKind::Node, _) => None,
        (ResourceKind::Namespace, _) => None,
        (_, Some(n)) => Some(String::from_str(n)),
        (_, None) => None,
    };
    Some(ResourceWatcher::new(kind, String::from_str(kind_label), ns))
}

} // verus!
