//! Per-flow performance accounting: an L4 measurement per transport
//! protocol, an L7 measurement per application protocol, and the port
//! table that picks the application protocol.

use vstd::prelude::*;

use crate::watcher::{CounterType, CounterValue};
use vstd::string::StringExecFns;

verus! {

pub const DNS_PORT: u16 = 53;
pub const MYSQL_PORT: u16 = 3306;
pub const REDIS_PORT: u16 = 6379;
pub const DUBBO_PORT: u16 = 20880;
pub const KAFKA_PORT: u16 = 9092;

#[derive(Clone, Copy, PartialEq, Eq, Structural, Debug)]
pub enum L4Protocol {
    Tcp,
    Udp,
    Unknown,
}

#[derive(Clone, Copy, PartialEq, Eq, Structural, Debug)]
pub enum L7Protocol {
    Unknown,
    Http,
    Dns,
    Mysql,
    Redis,
    Dubbo,
    Kafka,
}

/// The packet fields the perf tables read.
#[derive(Clone, Copy, PartialEq, Eq, Structural, Debug)]
pub struct MetaPacket {
    pub src_port: u16,
    pub dst_port: u16,
}

#[derive(Clone, Copy, PartialEq, Eq, Structural, Debug)]
pub struct L7PerfStats {
    pub request_count: u32,
    pub response_count: u32,
}

#[derive(Clone, Copy, PartialEq, Eq, Structural, Debug)]
pub struct FlowPerfStats {
    pub l4_protocol: L4Protocol,
    pub packet_count: u64,
    pub l7: L7PerfStats,
    pub l7_protocol: L7Protocol,
}

pub open spec fn default_stats() -> FlowPerfStats {
    FlowPerfStats {
        l4_protocol: L4Protocol::Unknown,
        packet_count: 0,
        l7: L7PerfStats { request_count: 0, response_count: 0 },
        l7_protocol: L7Protocol::Unknown,
    }
}

impl Default for FlowPerfStats {
    fn default() -> (r: Self)
        ensures
            r == default_stats(),
    {
        FlowPerfStats {
            l4_protocol: L4Protocol::Unknown,
            packet_count: 0,
            l7: L7PerfStats { request_count: 0, response_count: 0 },
            l7_protocol: L7Protocol::Unknown,
        }
    }
}

/// The header summary an L7 parser reports for a recognized message.
#[derive(Clone, Copy, PartialEq, Eq, Structural, Debug)]
pub struct AppProtoHead {
    pub proto: L7Protocol,
    pub rrt: u64,
}

#[derive(Clone, Copy, PartialEq, Eq, Structural, Debug)]
pub enum FlowPerfError {
    Unsupported,
}

// ---------------------------------------------------------------------------
// Counters
// ---------------------------------------------------------------------------

/// Flow-perf telemetry; every read resets the aggregates.
#[derive(Clone, Copy, PartialEq, Eq, Structural, Debug)]
pub struct FlowPerfCounter {
    pub closed: bool,
    pub ignored_packet_count: u64,
    pub invalid_packet_count: u64,
    pub mismatched_response: u64,
}

pub open spec fn zero_flow_counter() -> FlowPerfCounter {
    FlowPerfCounter {
        closed: false,
        ignored_packet_count: 0,
        invalid_packet_count: 0,
        mismatched_response: 0,
    }
}

impl Default for FlowPerfCounter {
    fn default() -> (r: Self)
        ensures
            r == zero_flow_counter(),
    {
        FlowPerfCounter {
            closed: false,
            ignored_packet_count: 0,
            invalid_packet_count: 0,
            mismatched_response: 0,
        }
    }
}

impl FlowPerfCounter {
    /// Reads and resets the three packet counters.
    pub fn get_counters(&mut self) -> (r: Vec<(String, CounterType, CounterValue)>)
        ensures
            final(self).ignored_packet_count == 0,
            final(self).invalid_packet_count == 0,
            final(self).mismatched_response == 0,
            final(self).closed == old(self).closed,
            r@.len() == 3,
            r@[0].0@ == "ignore_packet_count"@,
            r@[0].1 == CounterType::Counted,
            r@[0].2 == CounterValue::Unsigned(old(self).ignored_packet_count),
            r@[1].0@ == "invalid_packet_count"@,
            r@[1].1 == CounterType::Counted,
            r@[1].2 == CounterValue::Unsigned(old(self).invalid_packet_count),
            r@[2].0@ == "l7_mismatch_response"@,
            r@[2].1 == CounterType::Counted,
            r@[2].2 == CounterValue::Unsigned(old(self).mismatched_response),
    {
        let mut r: Vec<(String, CounterType, CounterValue)> = Vec::new();
        r.push(
            (
                String::from_str("ignore_packet_count"),
                CounterType::Counted,
                CounterValue::Unsigned(self.ignored_packet_count),
            ),
        );
        r.push(
            (
                String::from_str("invalid_packet_count"),
                CounterType::Counted,
                CounterValue::Unsigned(self.invalid_packet_count),
            ),
        );
        r.push(
            (
                String::from_str("l7_mismatch_response"),
                CounterType::Counted,
                CounterValue::Unsigned(self.mismatched_response),
            ),
        );
        self.ignored_packet_count = 0;
        self.invalid_packet_count = 0;
        self.mismatched_response = 0;
        r
    }

    /// Whether this counter's flow has been closed.
    pub fn closed(&self) -> (r: bool)
        ensures
            r == self.closed,
    {
        self.closed
    }
}

// ---------------------------------------------------------------------------
// RRT cache
// ---------------------------------------------------------------------------

/// A bounded map from flow id to the timestamp of the last request seen,
/// used to compute round-trip times.
pub struct L7RrtCache {
    pub cap: usize,
    pub entries: Vec<(u64, u64)>,
}

impl L7RrtCache {
    pub fn new(cap: usize) -> (r: Self)
        ensures
            r.cap == cap,
            r.entries@.len() == 0,
    {
        L7RrtCache { cap, entries: Vec::new() }
    }

    /// Records a request timestamp for a flow; at capacity the oldest
    /// entry is evicted first.
    pub fn add_req_time(&mut self, flow_id: u64, time: u64)
        ensures
            final(self).cap == old(self).cap,
            final(self).entries@.len() <= old(self).entries@.len() + 1,
            final(self).entries@.len() > 0,
            final(self).entries@.last() == (flow_id, time),
    {
        if self.entries.len() >= self.cap && self.entries.len() > 0 {
            self.entries.remove(0);
        }
        self.entries.push((flow_id, time));
    }

    /// The last recorded request timestamp for a flow.
    pub fn get_req_time(&self, flow_id: u64) -> (r: Option<u64>)
        ensures
            r matches Some(t) ==> exists|i: int|
                0 <= i < self.entries@.len() && #[trigger] self.entries@[i] == (flow_id, t),
            r is None ==> forall|i: int|
                0 <= i < self.entries@.len() ==> (#[trigger] self.entries@[i]).0 != flow_id,
    {
        let n: usize = self.entries.len();
        let mut i: usize = n;
        while i > 0
            invariant
                n == self.entries@.len(),
                i <= n,
                forall|j: int| i <= j < n ==> (#[trigger] self.entries@[j]).0 != flow_id,
            decreases i,
        {
            i = i - 1;
            if self.entries[i].0 == flow_id {
                proof {
                    assert(self.entries@[i as int] == (flow_id, self.entries@[i as int].1));
                }
                return Some(self.entries[i].1);
            }
        }
        None
    }
}

// ---------------------------------------------------------------------------
// L4 measurements
// ---------------------------------------------------------------------------

/// TCP flow measurement; counts parsed packets.
pub struct TcpPerf {
    pub counter: FlowPerfCounter,
    pub updated: bool,
    pub packet_count: u64,
}

impl TcpPerf {
    pub fn new(counter: FlowPerfCounter) -> (r: Self)
        ensures
            r.counter == counter,
            !r.updated,
            r.packet_count == 0,
    {
        TcpPerf { counter, updated: false, packet_count: 0 }
    }

    pub fn parse(&mut self, packet: &MetaPacket, direction: bool) -> (r: Result<
        (),
        FlowPerfError,
    >)
        ensures
            r is Ok,
            final(self).updated,
            final(self).packet_count == if old(self).packet_count < u64::MAX {
                old(self).packet_count + 1
            } else {
                old(self).packet_count as int
            },
            final(self).counter == old(self).counter,
    {
        if self.packet_count < u64::MAX {
            self.packet_count = self.packet_count + 1;
        }
        self.updated = true;
        Ok(())
    }

    pub fn data_updated(&self) -> (r: bool)
        ensures
            r == self.updated,
    {
        self.updated
    }

    pub fn copy_and_reset_data(&mut self, flow_reversed: bool) -> (r: FlowPerfStats)
        ensures
            r == (FlowPerfStats {
                l4_protocol: L4Protocol::Tcp,
                packet_count: old(self).packet_count,
                ..default_stats()
            }),
            !final(self).updated,
            final(self).packet_count == 0,
            final(self).counter == old(self).counter,
    {
        let stats = FlowPerfStats {
            l4_protocol: L4Protocol::Tcp,
            packet_count: self.packet_count,
            l7: L7PerfStats { request_count: 0, response_count: 0 },
            l7_protocol: L7Protocol::Unknown,
        };
        self.updated = false;
        self.packet_count = 0;
        stats
    }
}

/// UDP flow measurement; counts parsed packets.
pub struct UdpPerf {
    pub updated: bool,
    pub packet_count: u64,
}

impl UdpPerf {
    pub fn new() -> (r: Self)
        ensures
            !r.updated,
            r.packet_count == 0,
    {
        UdpPerf { updated: false, packet_count: 0 }
    }

    pub fn parse(&mut self, packet: &MetaPacket, direction: bool) -> (r: Result<
        (),
        FlowPerfError,
    >)
        ensures
            r is Ok,
            final(self).updated,
            final(self).packet_count == if old(self).packet_count < u64::MAX {
                old(self).packet_count + 1
            } else {
                old(self).packet_count as int
            },
    {
        if self.packet_count < u64::MAX {
            self.packet_count = self.packet_count + 1;
        }
        self.updated = true;
        Ok(())
    }

    pub fn data_updated(&self) -> (r: bool)
        ensures
            r == self.updated,
    {
        self.updated
    }

    pub fn copy_and_reset_data(&mut self, flow_reversed: bool) -> (r: FlowPerfStats)
        ensures
            r == (FlowPerfStats {
                l4_protocol: L4Protocol::Udp,
                packet_count: old(self).packet_count,
                ..default_stats()
            }),
            !final(self).updated,
            final(self).packet_count == 0,
    {
        let stats = FlowPerfStats {
            l4_protocol: L4Protocol::Udp,
            packet_count: self.packet_count,
            l7: L7PerfStats { request_count: 0, response_count: 0 },
            l7_protocol: L7Protocol::Unknown,
        };
        self.updated = false;
        self.packet_count = 0;
        stats
    }
}

// ---------------------------------------------------------------------------
// L7 measurement: DNS
// ---------------------------------------------------------------------------

/// DNS flow measurement; holds the RRT cache it was constructed with.
pub struct DNSPerfData {
    pub rrt_cache: L7RrtCache,
}

impl DNSPerfData {
    pub fn new(rrt_cache: L7RrtCache) -> (r: Self)
        ensures
            r.rrt_cache.cap == rrt_cache.cap,
            r.rrt_cache.entries@ == rrt_cache.entries@,
    {
        Self { rrt_cache }
    }

    pub fn parse(&mut self, packet: &MetaPacket, flow_id: u64) -> (r: Result<(), FlowPerfError>)
        ensures
            r is Ok,
            *final(self) == *old(self),
    {
        Ok(())
    }

    pub fn data_updated(&self) -> (r: bool)
        ensures
            !r,
    {
        false
    }

    pub fn copy_and_reset_data(&mut self, l7_timeout_count: u32) -> (r: FlowPerfStats)
        ensures
            r == default_stats(),
            *final(self) == *old(self),
    {
        FlowPerfStats::default()
    }

    pub fn app_proto_head(&mut self) -> (r: Option<(AppProtoHead, u16)>)
        ensures
            r is None,
            *final(self) == *old(self),
    {
        None
    }
}

// ---------------------------------------------------------------------------
// Dispatch tables and traits
// ---------------------------------------------------------------------------

pub trait L4FlowPerf {
    fn parse(&mut self, packet: &MetaPacket, direction: bool) -> Result<(), FlowPerfError>;

    fn data_updated(&self) -> bool;

    fn copy_and_reset_data(&mut self, flow_reversed: bool) -> FlowPerfStats;
}

pub trait L7FlowPerf {
    fn parse(&mut self, packet: &MetaPacket, flow_id: u64) -> Result<(), FlowPerfError>;

    fn data_updated(&self) -> bool;

    fn copy_and_reset_data(&mut self, l7_timeout_count: u32) -> FlowPerfStats;

    fn app_proto_head(&mut self) -> Option<(AppProtoHead, u16)>;
}

pub enum L4FlowPerfTable {
    Tcp(TcpPerf),
    Udp(UdpPerf),
}

pub enum L7FlowPerfTable {
    Dns(DNSPerfData),
}

pub open spec fn l4_updated(t: L4FlowPerfTable) -> bool {
    match t {
        L4FlowPerfTable::Tcp(p) => p.updated,
        L4FlowPerfTable::Udp(p) => p.updated,
    }
}

pub open spec fn l4_packet_count(t: L4FlowPerfTable) -> u64 {
    match t {
        L4FlowPerfTable::Tcp(p) => p.packet_count,
        L4FlowPerfTable::Udp(p) => p.packet_count,
    }
}

/// One parse step of an L4 table: the packet is counted and the table
/// marked updated; nothing else moves.
pub open spec fn l4_parse_step(pre: L4FlowPerfTable, post: L4FlowPerfTable) -> bool {
    &&& l4_updated(post)
    &&& l4_packet_count(post) == if l4_packet_count(pre) < u64::MAX {
        l4_packet_count(pre) + 1
    } else {
        l4_packet_count(pre) as int
    }
    &&& (pre is Tcp <==> post is Tcp)
    &&& match (pre, post) {
        (L4FlowPerfTable::Tcp(a), L4FlowPerfTable::Tcp(b)) => a.counter == b.counter,
        _ => true,
    }
}

/// The stats an L4 table emits when read out.
pub open spec fn l4_stats(t: L4FlowPerfTable) -> FlowPerfStats {
    match t {
        L4FlowPerfTable::Tcp(p) => FlowPerfStats {
            l4_protocol: L4Protocol::Tcp,
            packet_count: p.packet_count,
            ..default_stats()
        },
        L4FlowPerfTable::Udp(p) => FlowPerfStats {
            l4_protocol: L4Protocol::Udp,
            packet_count: p.packet_count,
            ..default_stats()
        },
    }
}

impl L4FlowPerfTable {
    pub fn parse_packet(&mut self, packet: &MetaPacket, direction: bool) -> (r: Result<
        (),
        FlowPerfError,
    >)
        ensures
            r is Ok,
            l4_parse_step(*old(self), *final(self)),
    {
        match self {
            L4FlowPerfTable::Tcp(p) => p.parse(packet, direction),
            L4FlowPerfTable::Udp(p) => p.parse(packet, direction),
        }
    }

    pub fn is_updated(&self) -> (r: bool)
        ensures
            r == l4_updated(*self),
    {
        match self {
            L4FlowPerfTable::Tcp(p) => p.data_updated(),
            L4FlowPerfTable::Udp(p) => p.data_updated(),
        }
    }

    pub fn read_and_reset(&mut self, flow_reversed: bool) -> (r: FlowPerfStats)
        ensures
            r == l4_stats(*old(self)),
            !l4_updated(*final(self)),
            l4_packet_count(*final(self)) == 0,
    {
        match self {
            L4FlowPerfTable::Tcp(p) => p.copy_and_reset_data(flow_reversed),
            L4FlowPerfTable::Udp(p) => p.copy_and_reset_data(flow_reversed),
        }
    }
}

impl L4FlowPerf for L4FlowPerfTable {
    fn parse(&mut self, packet: &MetaPacket, direction: bool) -> Result<(), FlowPerfError> {
        self.parse_packet(packet, direction)
    }

    fn data_updated(&self) -> bool {
        self.is_updated()
    }

    fn copy_and_reset_data(&mut self, flow_reversed: bool) -> FlowPerfStats {
        self.read_and_reset(flow_reversed)
    }
}

impl L7FlowPerfTable {
    pub fn parse_packet(&mut self, packet: &MetaPacket, flow_id: u64) -> (r: Result<
        (),
        FlowPerfError,
    >)
        ensures
            r is Ok,
            *final(self) == *old(self),
    {
        match self {
            L7FlowPerfTable::Dns(p) => p.parse(packet, flow_id),
        }
    }

    pub fn is_updated(&self) -> (r: bool)
        ensures
            !r,
    {
        match self {
            L7FlowPerfTable::Dns(p) => p.data_updated(),
        }
    }

    pub fn read_and_reset(&mut self, l7_timeout_count: u32) -> (r: FlowPerfStats)
        ensures
            r == default_stats(),
            *final(self) == *old(self),
    {
        match self {
            L7FlowPerfTable::Dns(p) => p.copy_and_reset_data(l7_timeout_count),
        }
    }

    pub fn head(&mut self) -> (r: Option<(AppProtoHead, u16)>)
        ensures
            r is None,
            *final(self) == *old(self),
    {
        match self {
            L7FlowPerfTable::Dns(p) => p.app_proto_head(),
        }
    }
}

impl L7FlowPerf for L7FlowPerfTable {
    fn parse(&mut self, packet: &MetaPacket, flow_id: u64) -> Result<(), FlowPerfError> {
        self.parse_packet(packet, flow_id)
    }

    fn data_updated(&self) -> bool {
        self.is_updated()
    }

    fn copy_and_reset_data(&mut self, l7_timeout_count: u32) -> FlowPerfStats {
        self.read_and_reset(l7_timeout_count)
    }

    fn app_proto_head(&mut self) -> Option<(AppProtoHead, u16)> {
        self.head()
    }
}

// ---------------------------------------------------------------------------
// FlowPerf
// ---------------------------------------------------------------------------

pub struct FlowPerf {
    pub l4: L4FlowPerfTable,
    pub l7: L7FlowPerfTable,
}

impl FlowPerf {
    /// Builds the measurement pair for a flow: TCP and UDP transports
    /// are supported, anything else yields no measurement whatever the
    /// application protocol. Only DNS is implemented at L7, so for a
    /// known transport the caller must have picked it.
    pub fn new(
        rrt_cache: L7RrtCache,
        l4_proto: L4Protocol,
        l7_proto: L7Protocol,
        counter: FlowPerfCounter,
    ) -> (r: Option<Self>)
        requires
            l4_proto == L4Protocol::Tcp || l4_proto == L4Protocol::Udp ==> l7_proto
                == L7Protocol::Dns,
        ensures
            match r {
                Some(p) => (l4_proto == L4Protocol::Tcp ==> p.l4 is Tcp) && (l4_proto
                    == L4Protocol::Udp ==> p.l4 is Udp) && !l4_updated(p.l4) && l4_packet_count(
                    p.l4,
                ) == 0 && p.l7 is Dns,
                None => l4_proto == L4Protocol::Unknown,
            },
    {
        let l4 = match l4_proto {
            L4Protocol::Tcp => L4FlowPerfTable::Tcp(TcpPerf::new(counter)),
            L4Protocol::Udp => L4FlowPerfTable::Udp(UdpPerf::new()),
            L4Protocol::Unknown => {
                return None;
            },
        };
        let l7 = L7FlowPerfTable::Dns(DNSPerfData::new(rrt_cache));
        Some(Self { l4, l7 })
    }

    /// Feeds one packet to the enabled layers; the L4 measurement counts
    /// it, the DNS measurement accepts it without effect.
    pub fn parse(
        &mut self,
        packet: &MetaPacket,
        is_first_packet_direction: bool,
        flow_id: u64,
        l4_performance_enabled: bool,
        l7_performance_enabled: bool,
    ) -> (r: Result<(), FlowPerfError>)
        ensures
            r is Ok,
            l4_performance_enabled ==> l4_parse_step(old(self).l4, final(self).l4),
            !l4_performance_enabled ==> final(self).l4 == old(self).l4,
            final(self).l7 == old(self).l7,
    {
        if l4_performance_enabled {
            let res = self.l4.parse_packet(packet, is_first_packet_direction);
            match res {
                Ok(u) => u,
                Err(e) => {
                    return Err(e);
                },
            };
        }
        if l7_performance_enabled {
            let res = self.l7.parse_packet(packet, flow_id);
            match res {
                Ok(u) => u,
                Err(e) => {
                    return Err(e);
                },
            };
        }
        Ok(())
    }

    /// Reads out and resets the flow's stats: nothing without L4
    /// accounting enabled, nothing when no packet was seen, otherwise the
    /// L4 stats (the DNS measurement never reports data, so the L7
    /// overlay never fires).
    pub fn copy_and_reset_perf_data(
        &mut self,
        flow_reversed: bool,
        l7_timeout_count: u32,
        l4_performance_enabled: bool,
        l7_performance_enabled: bool,
    ) -> (r: Option<FlowPerfStats>)
        ensures
            !l4_performance_enabled ==> r is None && *final(self) == *old(self),
            l4_performance_enabled && !l4_updated(old(self).l4) ==> r is None && *final(self)
                == *old(self),
            l4_performance_enabled && l4_updated(old(self).l4) ==> r == Some(l4_stats(old(self).l4))
                && !l4_updated(final(self).l4) && final(self).l7 == old(self).l7,
    {
        if !l4_performance_enabled {
            return None;
        }
        let mut stats: Option<FlowPerfStats> = None;
        if self.l4.is_updated() {
            stats = Some(self.l4.read_and_reset(flow_reversed));
        }
        if l7_performance_enabled && self.l7.is_updated() {
            match stats.as_mut() {
                Some(s) => {
                    let FlowPerfStats { l7, l7_protocol, .. } = self.l7.read_and_reset(
                        l7_timeout_count,
                    );
                    s.l7 = l7;
                    s.l7_protocol = l7_protocol;
                },
                None => {},
            }
        }
        stats
    }

    /// The recognized L7 header, if any; the DNS measurement reports
    /// none.
    pub fn app_proto_head(&mut self, l7_performance_enabled: bool) -> (r: Option<
        (AppProtoHead, u16),
    >)
        ensures
            r is None,
            *final(self) == *old(self),
    {
        if !l7_performance_enabled {
            return None;
        }
        self.l7.head()
    }
}

/// Picks the application protocol for a flow from its ports: the
/// well-known DNS, MySQL, Redis, Dubbo and Kafka ports in that order,
/// HTTP for everything else, and nothing with L7 accounting disabled.
pub fn get_l7_protocol(src_port: u16, dst_port: u16, l7_performance_enabled: bool) -> (r:
    L7Protocol)
    ensures
        !l7_performance_enabled ==> r == L7Protocol::Unknown,
        l7_performance_enabled ==> r == (if src_port == DNS_PORT || dst_port == DNS_PORT {
            L7Protocol::Dns
        } else if src_port == MYSQL_PORT || dst_port == MYSQL_PORT {
            L7Protocol::Mysql
        } else if src_port == REDIS_PORT || dst_port == REDIS_PORT {
            L7Protocol::Redis
        } else if src_port == DUBBO_PORT || dst_port == DUBBO_PORT {
            L7Protocol::Dubbo
        } else if src_port == KAFKA_PORT || dst_port == KAFKA_PORT {
            L7Protocol::Kafka
        } else {
            L7Protocol::Http
        }),
{
    if !l7_performance_enabled {
        return L7Protocol::Unknown;
    }
    if src_port == DNS_PORT || dst_port == DNS_PORT {
        return L7Protocol::Dns;
    }
    if src_port == MYSQL_PORT || dst_port == MYSQL_PORT {
        return L7Protocol::Mysql;
    }
    if src_port == REDIS_PORT || dst_port == REDIS_PORT {
        return L7Protocol::Redis;
    }
    if src_port == DUBBO_PORT || dst_port == DUBBO_PORT {
        return L7Protocol::Dubbo;
    }
    if src_port == KAFKA_PORT || dst_port == KAFKA_PORT {
        return L7Protocol::Kafka;
    }
    L7Protocol::Http
}

} // verus!
