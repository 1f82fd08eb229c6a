use kube_inventory::codec::{zlib_compress, zlib_decompress};
use kube_inventory::factory::new_watcher;
use kube_inventory::model::{encode_object, JsonField, KubeObject, ObjectMeta, ResourceKind};
use kube_inventory::trim::{trim_object, Trimmable, TypedObject};
use kube_inventory::watcher::{CounterType, CounterValue, ResourceWatcher, WatcherEvent};

fn meta(uid: &str, name: &str) -> ObjectMeta {
    ObjectMeta {
        uid: Some(uid.to_string()),
        name: Some(name.to_string()),
        namespace: Some("default".to_string()),
        labels: None,
        annotations: None,
        owner_references: None,
        creation_timestamp: None,
        resource_version: Some("42".to_string()),
        managed_fields: None,
    }
}

fn pod(uid: &str, name: &str) -> KubeObject {
    KubeObject {
        metadata: meta(uid, name),
        spec: Some(vec![JsonField {
            name: "nodeName".to_string(),
            value: "\"n1\"".to_string(),
        }]),
        status: Some(vec![
            JsonField { name: "hostIP".to_string(), value: "\"1.2.3.4\"".to_string() },
            JsonField { name: "phase".to_string(), value: "\"Running\"".to_string() },
        ]),
    }
}

fn pods_watcher() -> ResourceWatcher {
    new_watcher("pods", "pod", Some("default")).expect("pods is a known resource key")
}

#[test]
fn cold_start_and_three_applies() {
    let mut w = pods_watcher();
    assert!(!w.ready());
    assert_eq!(w.version(), 0);
    w.initial_list(Ok(vec![]));
    assert!(w.ready());
    assert_eq!(w.version(), 0);
    assert_eq!(w.entries().len(), 0);
    w.handle_event(WatcherEvent::Applied(pod("u1", "a")));
    assert_eq!(w.version(), 1);
    w.handle_event(WatcherEvent::Applied(pod("u2", "b")));
    assert_eq!(w.version(), 2);
    w.handle_event(WatcherEvent::Applied(pod("u3", "c")));
    assert_eq!(w.version(), 3);
    assert_eq!(w.entries().len(), 3);
}

#[test]
fn delete_then_re_add() {
    let mut w = pods_watcher();
    w.initial_list(Ok(vec![]));
    w.handle_event(WatcherEvent::Applied(pod("u1", "a")));
    w.handle_event(WatcherEvent::Applied(pod("u2", "b")));
    w.handle_event(WatcherEvent::Applied(pod("u3", "c")));
    w.handle_event(WatcherEvent::Deleted(pod("u2", "b")));
    assert_eq!(w.version(), 4);
    assert_eq!(w.entries().len(), 2);
    w.handle_event(WatcherEvent::Applied(pod("u2", "b2")));
    assert_eq!(w.version(), 5);
    assert_eq!(w.entries().len(), 3);
}

#[test]
fn delete_of_absent_key_does_not_bump() {
    let mut w = pods_watcher();
    w.handle_event(WatcherEvent::Applied(pod("u1", "a")));
    assert_eq!(w.version(), 1);
    w.handle_event(WatcherEvent::Deleted(pod("nope", "x")));
    assert_eq!(w.version(), 1);
    assert_eq!(w.entries().len(), 1);
}

#[test]
fn applied_without_uid_is_skipped() {
    let mut w = pods_watcher();
    let mut p = pod("u1", "a");
    p.metadata.uid = None;
    w.handle_event(WatcherEvent::Applied(p));
    assert_eq!(w.version(), 0);
    assert_eq!(w.entries().len(), 0);
}

#[test]
fn restart_batch_takes_last_element_only() {
    let mut w = pods_watcher();
    w.handle_event(WatcherEvent::Restarted(vec![
        pod("objA", "v1"),
        pod("objA", "v2"),
        pod("objA", "v3"),
    ]));
    assert_eq!(w.version(), 1);
    let entries = w.entries();
    assert_eq!(entries.len(), 1);
    let decompressed = zlib_decompress(&entries[0]).expect("stored blob is a zlib stream");
    let expected = encode_object(&trim_object(ResourceKind::Pod, pod("objA", "v3")));
    assert_eq!(decompressed, expected);
    let counters = w.counter.get_counters();
    assert_eq!(counters[5].0, "watch_restarted");
    assert_eq!(counters[5].2, CounterValue::Unsigned(1));
}

#[test]
fn full_relist_with_same_uids_is_a_noop() {
    let mut w = pods_watcher();
    w.initial_list(Ok(vec![pod("u1", "a"), pod("u2", "b"), pod("u3", "c")]));
    assert_eq!(w.version(), 1);
    let before: Vec<Vec<u8>> = w.entries();
    // Same uid set, but u2's content differs inside the projected subset.
    w.apply_list_result(Ok(vec![
        pod("u1", "a"),
        pod("u2", "CHANGED"),
        pod("u3", "c"),
    ]));
    assert_eq!(w.version(), 1);
    let after: Vec<Vec<u8>> = w.entries();
    let mut b = before.clone();
    let mut a = after.clone();
    b.sort();
    a.sort();
    assert_eq!(a, b);
}

#[test]
fn empty_list_preserves_store() {
    let mut w = pods_watcher();
    w.initial_list(Ok(vec![pod("u1", "a")]));
    assert_eq!(w.version(), 1);
    w.apply_list_result(Ok(vec![]));
    assert_eq!(w.version(), 1);
    assert_eq!(w.entries().len(), 1);
}

#[test]
fn relist_with_different_uids_rebuilds() {
    let mut w = pods_watcher();
    w.initial_list(Ok(vec![pod("u1", "a"), pod("u2", "b")]));
    assert_eq!(w.version(), 1);
    w.apply_list_result(Ok(vec![pod("u1", "a"), pod("u9", "z")]));
    assert_eq!(w.version(), 2);
    assert_eq!(w.entries().len(), 2);
}

#[test]
fn relist_skips_objects_without_uid() {
    let mut w = pods_watcher();
    let mut no_uid = pod("ignored", "x");
    no_uid.metadata.uid = None;
    w.apply_list_result(Ok(vec![pod("u1", "a"), no_uid]));
    assert_eq!(w.entries().len(), 1);
    assert_eq!(w.version(), 1);
}

#[test]
fn ready_only_after_first_list_even_on_error() {
    let mut w = pods_watcher();
    assert!(!w.ready());
    w.initial_list(Err("boom".to_string()));
    assert!(w.ready());
    assert_eq!(w.error(), Some("boom".to_string()));
    assert_eq!(w.error(), None);
}

#[test]
fn list_error_is_recorded_and_counted() {
    let mut w = pods_watcher();
    w.initial_list(Ok(vec![pod("u1", "a")]));
    w.apply_list_result(Err("api down".to_string()));
    assert_eq!(w.version(), 1);
    assert_eq!(w.entries().len(), 1);
    assert_eq!(w.error(), Some("api down".to_string()));
    let counters = w.counter.get_counters();
    assert_eq!(counters[2].0, "list_error");
    assert_eq!(counters[2].2, CounterValue::Unsigned(1));
}

#[test]
fn stored_blob_is_compressed_projection() {
    let mut w = pods_watcher();
    w.handle_event(WatcherEvent::Applied(pod("u1", "a")));
    let entries = w.entries();
    assert_eq!(entries.len(), 1);
    let expected_json = encode_object(&trim_object(ResourceKind::Pod, pod("u1", "a")));
    // The blob is not the raw JSON: it went through the compressor.
    assert_ne!(entries[0], expected_json);
    assert_eq!(zlib_decompress(&entries[0]), Some(expected_json));
}

#[test]
fn every_entry_is_an_independent_zlib_stream() {
    let mut w = pods_watcher();
    w.initial_list(Ok(vec![pod("u1", "a"), pod("u2", "b"), pod("u3", "c")]));
    for blob in w.entries() {
        assert!(zlib_decompress(&blob).is_some());
    }
}

#[test]
fn zlib_round_trip() {
    let data = b"some snapshot payload, repeated: payload payload payload".to_vec();
    let compressed = zlib_compress(&data);
    assert_ne!(compressed, data);
    assert_eq!(zlib_decompress(&compressed), Some(data));
}

#[test]
fn factory_resource_keys() {
    assert!(new_watcher("pods", "pod", None).is_some());
    assert!(new_watcher("services", "svc", Some("ns1")).is_some());
    assert!(new_watcher("routes", "route", None).is_some());
    assert!(new_watcher("gadgets", "gadget", None).is_none());
    assert!(new_watcher("", "x", None).is_none());
    let nodes = new_watcher("nodes", "node", Some("ns1")).unwrap();
    assert_eq!(nodes.namespace, None);
    assert_eq!(nodes.kind(), "node");
    let svc = new_watcher("services", "svc", Some("ns1")).unwrap();
    assert_eq!(svc.namespace, Some("ns1".to_string()));
}

#[test]
fn counter_averages_reset_on_read() {
    let mut w = pods_watcher();
    w.full_sync(Ok(vec![pod("u1", "a"), pod("u2", "b")]), 1000);
    w.full_sync(Ok(vec![pod("u1", "a"), pod("u2", "b")]), 3000);
    let counters = w.counter.get_counters();
    assert_eq!(counters[0].0, "list_avg_length");
    assert_eq!(counters[0].1, CounterType::Gauged);
    assert_eq!(counters[0].2, CounterValue::Unsigned(2));
    assert_eq!(counters[1].0, "list_avg_cost_time");
    assert_eq!(counters[1].1, CounterType::Counted);
    assert_eq!(counters[1].2, CounterValue::Unsigned(2000));
    // Reset on read: a second read reports zeroes.
    let counters = w.counter.get_counters();
    assert_eq!(counters[0].2, CounterValue::Unsigned(0));
    assert_eq!(counters[1].2, CounterValue::Unsigned(0));
}

#[test]
fn should_relist_at_list_interval() {
    assert!(!kube_inventory::should_relist(599));
    assert!(kube_inventory::should_relist(600));
    assert!(kube_inventory::should_relist(601));
}

#[test]
fn projection_keeps_only_retained_fields() {
    let trimmed = trim_object(ResourceKind::Pod, pod("u1", "a"));
    assert_eq!(trimmed.metadata.uid, Some("u1".to_string()));
    assert_eq!(trimmed.metadata.name, Some("a".to_string()));
    assert_eq!(trimmed.metadata.namespace, Some("default".to_string()));
    assert_eq!(trimmed.metadata.resource_version, None);
    assert!(trimmed.spec.is_none());
    let status = trimmed.status.unwrap();
    assert_eq!(status.len(), 1);
    assert_eq!(status[0].name, "hostIP");
}

#[test]
fn projection_encoding_is_exact() {
    let obj = KubeObject {
        metadata: ObjectMeta {
            uid: Some("u\"1".to_string()),
            name: Some("n".to_string()),
            namespace: None,
            labels: Some("{\"app\":\"x\"}".to_string()),
            annotations: None,
            owner_references: None,
            creation_timestamp: None,
            resource_version: None,
            managed_fields: None,
        },
        spec: Some(vec![JsonField { name: "replicas".to_string(), value: "3".to_string() }]),
        status: None,
    };
    let trimmed = trim_object(ResourceKind::Deployment, obj);
    let json = encode_object(&trimmed);
    let expected =
        "{\"metadata\":{\"labels\":{\"app\":\"x\"},\"name\":\"n\",\"uid\":\"u\\\"1\"},\"spec\":{\"replicas\":3}}";
    assert_eq!(String::from_utf8(json).unwrap(), expected);
}

#[test]
fn per_kind_metadata_retention() {
    let node = trim_object(ResourceKind::Node, pod("n1", "node-a"));
    assert_eq!(node.metadata.namespace, None);
    assert_eq!(node.metadata.uid, Some("n1".to_string()));

    let mut with_annotations = pod("s1", "svc-a");
    with_annotations.metadata.annotations = Some("{\"a\":\"b\"}".to_string());
    let svc = trim_object(ResourceKind::Service, with_annotations);
    assert_eq!(svc.metadata.annotations, Some("{\"a\":\"b\"}".to_string()));
    assert!(svc.status.is_none());

    let ns = trim_object(ResourceKind::Namespace, pod("ns1", "default"));
    assert_eq!(ns.metadata.namespace, None);
    assert!(ns.spec.is_none());
    assert!(ns.status.is_none());

    // Ingress and Route carry their spec through unchanged and clear status.
    let ing = trim_object(ResourceKind::V1Ingress, pod("i1", "ing"));
    assert!(ing.spec.is_some());
    assert_eq!(ing.spec.as_ref().unwrap()[0].name, "nodeName");
    assert!(ing.status.is_none());
}

#[test]
fn typed_object_projection() {
    let typed = TypedObject { kind: ResourceKind::Pod, obj: pod("u1", "a") };
    let trimmed = typed.trim();
    assert!(trimmed.obj.spec.is_none());
    assert_eq!(trimmed.obj.metadata.uid, Some("u1".to_string()));
}

#[test]
fn daemon_set_drops_replicas_but_deployment_keeps_them() {
    let mk = || KubeObject {
        metadata: meta("u", "n"),
        spec: Some(vec![
            JsonField { name: "replicas".to_string(), value: "3".to_string() },
            JsonField { name: "paused".to_string(), value: "true".to_string() },
            JsonField { name: "template".to_string(), value: "{}".to_string() },
        ]),
        status: None,
    };
    let dep = trim_object(ResourceKind::Deployment, mk());
    let names: Vec<String> =
        dep.spec.unwrap().into_iter().map(|f| f.name).collect();
    assert_eq!(names, vec!["replicas".to_string(), "template".to_string()]);
    let ds = trim_object(ResourceKind::DaemonSet, mk());
    let names: Vec<String> =
        ds.spec.unwrap().into_iter().map(|f| f.name).collect();
    assert_eq!(names, vec!["template".to_string()]);
}

#[test]
fn encoding_of_empty_and_escaped_metadata() {
    let empty = KubeObject {
        metadata: ObjectMeta {
            uid: None,
            name: None,
            namespace: None,
            labels: None,
            annotations: None,
            owner_references: None,
            creation_timestamp: None,
            resource_version: None,
            managed_fields: None,
        },
        spec: None,
        status: None,
    };
    assert_eq!(String::from_utf8(encode_object(&empty)).unwrap(), "{\"metadata\":{}}");

    let mut with_controls = empty;
    with_controls.metadata.uid = Some("a\nb\\c".to_string());
    assert_eq!(
        String::from_utf8(encode_object(&with_controls)).unwrap(),
        "{\"metadata\":{\"uid\":\"a\\u000ab\\\\c\"}}"
    );
}
