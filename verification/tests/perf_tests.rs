use kube_inventory::perf::{
    get_l7_protocol, AppProtoHead, DNSPerfData, FlowPerf, FlowPerfCounter, L4Protocol,
    L7Protocol, L7RrtCache, MetaPacket, DNS_PORT,
};
use kube_inventory::watcher::CounterValue;

fn packet() -> MetaPacket {
    MetaPacket { src_port: 41000, dst_port: DNS_PORT }
}

#[test]
fn l7_protocol_from_ports() {
    assert_eq!(get_l7_protocol(53, 40000, true), L7Protocol::Dns);
    assert_eq!(get_l7_protocol(40000, 3306, true), L7Protocol::Mysql);
    assert_eq!(get_l7_protocol(6379, 40000, true), L7Protocol::Redis);
    assert_eq!(get_l7_protocol(40000, 20880, true), L7Protocol::Dubbo);
    assert_eq!(get_l7_protocol(9092, 40000, true), L7Protocol::Kafka);
    assert_eq!(get_l7_protocol(40000, 40001, true), L7Protocol::Http);
    assert_eq!(get_l7_protocol(53, 40000, false), L7Protocol::Unknown);
    // DNS takes priority over the later port checks.
    assert_eq!(get_l7_protocol(53, 3306, true), L7Protocol::Dns);
}

#[test]
fn flow_perf_requires_a_known_transport() {
    let counter = FlowPerfCounter::default();
    assert!(FlowPerf::new(L7RrtCache::new(8), L4Protocol::Unknown, L7Protocol::Dns, counter)
        .is_none());
    assert!(FlowPerf::new(L7RrtCache::new(8), L4Protocol::Tcp, L7Protocol::Dns, counter)
        .is_some());
    assert!(FlowPerf::new(L7RrtCache::new(8), L4Protocol::Udp, L7Protocol::Dns, counter)
        .is_some());
}

#[test]
fn parse_then_read_and_reset() {
    let counter = FlowPerfCounter::default();
    let mut perf =
        FlowPerf::new(L7RrtCache::new(8), L4Protocol::Tcp, L7Protocol::Dns, counter).unwrap();
    // Nothing read before any packet.
    assert!(perf.copy_and_reset_perf_data(false, 0, true, true).is_none());
    perf.parse(&packet(), true, 1, true, true).unwrap();
    perf.parse(&packet(), false, 1, true, true).unwrap();
    let stats = perf.copy_and_reset_perf_data(false, 0, true, true).unwrap();
    assert_eq!(stats.l4_protocol, L4Protocol::Tcp);
    assert_eq!(stats.packet_count, 2);
    assert_eq!(stats.l7_protocol, L7Protocol::Unknown);
    // The read reset the measurement.
    assert!(perf.copy_and_reset_perf_data(false, 0, true, true).is_none());
    // With L4 accounting disabled, nothing is ever reported.
    perf.parse(&packet(), true, 1, true, true).unwrap();
    assert!(perf.copy_and_reset_perf_data(false, 0, false, true).is_none());
}

#[test]
fn parse_with_l4_disabled_counts_nothing() {
    let counter = FlowPerfCounter::default();
    let mut perf =
        FlowPerf::new(L7RrtCache::new(8), L4Protocol::Udp, L7Protocol::Dns, counter).unwrap();
    perf.parse(&packet(), true, 1, false, true).unwrap();
    assert!(perf.copy_and_reset_perf_data(false, 0, true, true).is_none());
}

#[test]
fn dns_perf_is_a_stub() {
    let mut dns = DNSPerfData::new(L7RrtCache::new(4));
    assert!(dns.parse(&packet(), 7).is_ok());
    assert!(!dns.data_updated());
    assert_eq!(dns.app_proto_head(), None::<(AppProtoHead, u16)>);
    let stats = dns.copy_and_reset_data(0);
    assert_eq!(stats.packet_count, 0);
    assert_eq!(stats.l7_protocol, L7Protocol::Unknown);
}

#[test]
fn app_proto_head_is_gated_and_empty() {
    let counter = FlowPerfCounter::default();
    let mut perf =
        FlowPerf::new(L7RrtCache::new(8), L4Protocol::Tcp, L7Protocol::Dns, counter).unwrap();
    assert!(perf.app_proto_head(false).is_none());
    assert!(perf.app_proto_head(true).is_none());
}

#[test]
fn rrt_cache_keeps_last_request_time() {
    let mut cache = L7RrtCache::new(2);
    cache.add_req_time(1, 100);
    cache.add_req_time(1, 150);
    assert_eq!(cache.get_req_time(1), Some(150));
    assert_eq!(cache.get_req_time(2), None);
    // Capacity two: inserting two more evicts the oldest entries.
    cache.add_req_time(2, 200);
    cache.add_req_time(3, 300);
    assert_eq!(cache.get_req_time(2), Some(200));
    assert_eq!(cache.get_req_time(3), Some(300));
}

#[test]
fn flow_counter_reads_and_resets() {
    let mut c = FlowPerfCounter::default();
    c.ignored_packet_count = 4;
    c.invalid_packet_count = 5;
    c.mismatched_response = 6;
    let counters = c.get_counters();
    assert_eq!(counters.len(), 3);
    assert_eq!(counters[0].0, "ignore_packet_count");
    assert_eq!(counters[0].2, CounterValue::Unsigned(4));
    assert_eq!(counters[1].0, "invalid_packet_count");
    assert_eq!(counters[1].2, CounterValue::Unsigned(5));
    assert_eq!(counters[2].0, "l7_mismatch_response");
    assert_eq!(counters[2].2, CounterValue::Unsigned(6));
    assert!(!c.closed());
    let counters = c.get_counters();
    assert_eq!(counters[0].2, CounterValue::Unsigned(0));
}
