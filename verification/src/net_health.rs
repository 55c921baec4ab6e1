//! The network layer under the sender: the kernel's send queue for the data socket, the egress
//! interface's drop counters, and address, route and link churn on the box.
//!
//! Every other line can read clean while this layer stalls: the sender hands each datagram to the
//! kernel on time and the client still starves. Sockets, files and the interface list stay with
//! the caller.

use crate::text;
use crate::text::Sep;
use vstd::prelude::*;
use vstd::slice::slice_subrange;
use vstd::string::StringExecFns;

verus! {

/// Kernel route messages.
pub const RTM_NEWLINK: u16 = 16;

pub const RTM_DELLINK: u16 = 17;

pub const RTM_NEWADDR: u16 = 20;

pub const RTM_DELADDR: u16 = 21;

pub const RTM_NEWROUTE: u16 = 24;

pub const RTM_DELROUTE: u16 = 25;

/// Link flags.
pub const IFF_UP: u32 = 0x1;

pub const IFF_RUNNING: u32 = 0x40;

pub const IFF_LOWER_UP: u32 = 0x1_0000;

/// Address attributes.
pub const IFA_ADDRESS: u16 = 1;

pub const IFA_LOCAL: u16 = 2;

/// Route attributes.
pub const RTA_DST: u16 = 1;

pub const RTA_OIF: u16 = 4;

pub const RTA_GATEWAY: u16 = 5;

/// The main routing table.
pub const RT_TABLE_MAIN: u8 = 254;

/// Lines a minute may hold before the rest is only counted.
pub const BUDGET: u32 = 20;

/// The time a budget lasts.
pub const MINUTE_NS: u64 = 60_000_000_000;

/// The counters a window is the difference of.
#[derive(Clone, Copy, Debug, PartialEq, Eq, Structural)]
pub struct WireCounters {
    pub tx_dropped: u64,
    pub tx_errors: u64,
    pub carrier_changes: u64,
    pub udp_sndbuf_errors: u64,
}

/// One sender window of wire counters.
#[derive(Clone, Copy, Debug, PartialEq, Eq, Structural)]
pub struct WireWindow {
    /// Peak of what the kernel still held for the data socket, sampled once per frame.
    pub outq_max_kb: u32,
    pub tx_dropped: u64,
    pub tx_errors: u64,
    pub carrier_changes: u64,
    /// Host-wide; the one counter the interface statistics miss.
    pub udp_sndbuf_errors: u64,
}

impl Default for WireWindow {
    /// A window of a layer that was not sampled.
    fn default() -> (w: Self)
        ensures
            w == (WireWindow {
                outq_max_kb: 0,
                tx_dropped: 0,
                tx_errors: 0,
                carrier_changes: 0,
                udp_sndbuf_errors: 0,
            }),
    {
        WireWindow {
            outq_max_kb: 0,
            tx_dropped: 0,
            tx_errors: 0,
            carrier_changes: 0,
            udp_sndbuf_errors: 0,
        }
    }
}

/// How far a counter moved; one that went back did not move.
pub open spec fn moved(now: u64, last: u64) -> u64 {
    if now >= last {
        (now - last) as u64
    } else {
        0
    }
}

fn delta(now: u64, last: u64) -> (d: u64)
    ensures
        d == moved(now, last),
{
    if now >= last {
        now - last
    } else {
        0
    }
}

/// The running window of a data socket.
#[derive(Clone, Copy, Debug, PartialEq, Eq, Structural)]
pub struct WireProbe {
    pub last: WireCounters,
    pub outq_max: u32,
}

impl WireProbe {
    pub fn new(counters: WireCounters) -> (p: Self)
        ensures
            p == (WireProbe { last: counters, outq_max: 0 }),
    {
        WireProbe { last: counters, outq_max: 0 }
    }

    /// Once per frame: the bytes the kernel has not yet put on the wire, when it says so.
    pub fn sample(&mut self, queued: Option<i32>)
        ensures
            final(self).last == old(self).last,
            final(self).outq_max == match queued {
                Some(n) if n > 0 && n > old(self).outq_max => n as u32,
                _ => old(self).outq_max,
            },
    {
        match queued {
            Some(n) => {
                if n > 0 && n as u32 > self.outq_max {
                    self.outq_max = n as u32;
                }
            },
            None => {},
        }
    }

    /// Closes the window: what moved since the last one, and the peak queue, which starts over.
    pub fn window(&mut self, now: WireCounters) -> (w: WireWindow)
        ensures
            *final(self) == (WireProbe { last: now, outq_max: 0 }),
            w == (WireWindow {
                outq_max_kb: old(self).outq_max / 1024,
                tx_dropped: moved(now.tx_dropped, old(self).last.tx_dropped),
                tx_errors: moved(now.tx_errors, old(self).last.tx_errors),
                carrier_changes: moved(now.carrier_changes, old(self).last.carrier_changes),
                udp_sndbuf_errors: moved(now.udp_sndbuf_errors, old(self).last.udp_sndbuf_errors),
            }),
    {
        let w: WireWindow = WireWindow {
            outq_max_kb: self.outq_max / 1024,
            tx_dropped: delta(now.tx_dropped, self.last.tx_dropped),
            tx_errors: delta(now.tx_errors, self.last.tx_errors),
            carrier_changes: delta(now.carrier_changes, self.last.carrier_changes),
            udp_sndbuf_errors: delta(now.udp_sndbuf_errors, self.last.udp_sndbuf_errors),
        };
        self.last = now;
        self.outq_max = 0;
        w
    }
}

/// The number a file holds; zero when it cannot be read or holds none.
pub open spec fn count_of(contents: Option<Seq<char>>) -> u64 {
    match contents {
        Some(s) => match text::parsed(text::trimmed(s, Sep::Space), u64::MAX as nat) {
            Some(n) => n as u64,
            None => 0,
        },
        None => 0,
    }
}

/// Reads a counter file.
pub fn sys_u64(contents: Option<&str>) -> (n: u64)
    ensures
        n == count_of(text::opt_view(contents)),
{
    match contents {
        Some(s) => match text::parse_u64(text::trim(s, Sep::Space)) {
            Some(n) => n,
            None => 0,
        },
        None => 0,
    }
}

/// The rows of the UDP table: those that begin with its name.
pub open spec fn udp_rows(lines: Seq<Seq<char>>) -> Seq<Seq<char>> {
    lines.filter(|l: Seq<char>| text::begins(l, "Udp:"@))
}

/// The first place of a word at or after `k`; the length when there is none.
pub open spec fn word_at(words: Seq<Seq<char>>, word: Seq<char>, k: int) -> int
    decreases words.len() - k,
{
    if k >= words.len() {
        words.len() as int
    } else if words[k] == word {
        k
    } else {
        word_at(words, word, k + 1)
    }
}

/// The send buffer errors of the UDP table: a names row, then a values row. Zero when the table
/// or the column is missing or holds no number.
pub open spec fn sndbuf_errors_of(snmp: Option<Seq<char>>) -> u64 {
    match snmp {
        None => 0,
        Some(s) => {
            let rows = udp_rows(text::lines_of(s));
            if rows.len() < 2 {
                0
            } else {
                let names = text::words(rows[0]);
                let vals = text::words(rows[1]);
                let i = word_at(names, "SndbufErrors"@, 0);
                if i < names.len() && i < vals.len() {
                    match text::parsed(vals[i], u64::MAX as nat) {
                        Some(n) => n as u64,
                        None => 0,
                    }
                } else {
                    0
                }
            }
        },
    }
}

fn find_word(words: &Vec<&str>, word: &str) -> (i: usize)
    ensures
        i == word_at(text::views(words@), word@, 0),
        i <= words@.len(),
{
    let ghost w = text::views(words@);
    let mut i: usize = 0;
    while i < words.len()
        invariant
            i <= words@.len(),
            w == text::views(words@),
            word_at(w, word@, 0) == word_at(w, word@, i as int),
        decreases words@.len() - i,
    {
        assert(w[i as int] == words@[i as int]@);
        if text::same(words[i], word) {
            return i;
        }
        i = i + 1;
    }
    i
}

fn rows_of<'a>(lines: &Vec<&'a str>) -> (out: Vec<&'a str>)
    ensures
        text::views(out@) == udp_rows(text::views(lines@)),
{
    let ghost l = text::views(lines@);
    let ghost udp = |l: Seq<char>| text::begins(l, "Udp:"@);
    let mut out: Vec<&'a str> = Vec::new();
    let mut i: usize = 0;
    proof {
        reveal(Seq::filter);
        assert(l.take(0) =~= Seq::<Seq<char>>::empty());
        assert(text::views(out@) =~= l.take(0).filter(udp));
    }
    while i < lines.len()
        invariant
            i <= lines@.len(),
            l == text::views(lines@),
            udp == (|l: Seq<char>| text::begins(l, "Udp:"@)),
            text::views(out@) == l.take(i as int).filter(udp),
        decreases lines@.len() - i,
    {
        let row: &'a str = lines[i];
        let ghost before = out@;
        proof {
            reveal(Seq::filter);
            assert(l.take(i + 1).drop_last() =~= l.take(i as int));
            assert(l.take(i + 1).last() == row@);
        }
        if text::starts_with(row, "Udp:") {
            out.push(row);
            assert(text::views(out@) =~= text::views(before).push(row@));
        }
        i = i + 1;
    }
    assert(l.take(i as int) =~= l);
    out
}

/// Reads the send buffer errors from the kernel's protocol table.
pub fn udp_sndbuf_errors(snmp: Option<&str>) -> (n: u64)
    ensures
        n == sndbuf_errors_of(text::opt_view(snmp)),
{
    match snmp {
        None => 0,
        Some(s) => {
            let lines: Vec<&str> = text::lines(s);
            let rows: Vec<&str> = rows_of(&lines);
            let ghost r = text::views(rows@);
            assert(r.len() == rows@.len());
            if rows.len() < 2 {
                return 0;
            }
            assert(r[0] == rows@[0]@ && r[1] == rows@[1]@);
            let names: Vec<&str> = text::split_words(rows[0]);
            let vals: Vec<&str> = text::split_words(rows[1]);
            let i: usize = find_word(&names, "SndbufErrors");
            assert(text::views(vals@).len() == vals@.len());
            if i < names.len() && i < vals.len() {
                assert(text::views(vals@)[i as int] == vals@[i as int]@);
                match text::parse_u64(vals[i]) {
                    Some(n) => n,
                    None => 0,
                }
            } else {
                0
            }
        },
    }
}

/// An IPv4 address by its octets.
#[derive(Clone, Copy, Debug, PartialEq, Eq, Structural)]
pub struct Ipv4 {
    pub a: u8,
    pub b: u8,
    pub c: u8,
    pub d: u8,
}

impl Ipv4 {
    /// The address in dotted decimal.
    pub open spec fn dotted(self) -> Seq<char> {
        text::decimal(self.a as nat) + "."@ + text::decimal(self.b as nat) + "."@ + text::decimal(
            self.c as nat,
        ) + "."@ + text::decimal(self.d as nat)
    }

    pub fn text(&self) -> (s: String)
        ensures
            s@ == self.dotted(),
    {
        text::decimal_u64(self.a as u64).concat(".").concat(
            text::decimal_u64(self.b as u64).as_str(),
        ).concat(".").concat(text::decimal_u64(self.c as u64).as_str()).concat(".").concat(
            text::decimal_u64(self.d as u64).as_str(),
        )
    }

    /// The octets of an address kept as a number, the first one highest.
    pub open spec fn of(ip: u32) -> Ipv4 {
        Ipv4 {
            a: (ip / 0x100_0000) as u8,
            b: (ip / 0x1_0000 % 0x100) as u8,
            c: (ip / 0x100 % 0x100) as u8,
            d: (ip % 0x100) as u8,
        }
    }

    pub fn from_u32(ip: u32) -> (r: Ipv4)
        ensures
            r == Ipv4::of(ip),
    {
        Ipv4 {
            a: (ip / 0x100_0000) as u8,
            b: (ip / 0x1_0000 % 0x100) as u8,
            c: (ip / 0x100 % 0x100) as u8,
            d: (ip % 0x100) as u8,
        }
    }
}

/// An IPv4 address of an interface.
#[derive(Clone, Copy, Debug, PartialEq, Eq, Structural)]
pub struct V4 {
    pub ip: u32,
    pub netmask: u32,
    pub prefixlen: u8,
}

/// An address of an interface; an IPv6 one as its number.
#[derive(Clone, Copy, Debug, PartialEq, Eq, Structural)]
pub enum IfAddr {
    V4(V4),
    V6(u128),
}

/// The address of a socket.
#[derive(Clone, Copy, Debug, PartialEq, Eq, Structural)]
pub enum HostIp {
    V4(u32),
    V6(u128),
}

impl IfAddr {
    pub open spec fn host(self) -> HostIp {
        match self {
            IfAddr::V4(v) => HostIp::V4(v.ip),
            IfAddr::V6(n) => HostIp::V6(n),
        }
    }

    /// The address without its network.
    pub fn ip(&self) -> (ip: HostIp)
        ensures
            ip == self.host(),
    {
        match *self {
            IfAddr::V4(v) => HostIp::V4(v.ip),
            IfAddr::V6(n) => HostIp::V6(n),
        }
    }
}

/// One address of the interface list.
pub struct IfEntry {
    pub name: String,
    pub addr: IfAddr,
    pub loopback: bool,
}

/// A name and its IPv4 address.
#[verifier::ext_equal]
pub struct NamedV4View {
    pub name: Seq<char>,
    pub v4: V4,
}

/// A name and its IPv4 address.
pub struct NamedV4 {
    pub name: String,
    pub v4: V4,
}

impl View for NamedV4 {
    type V = NamedV4View;

    open spec fn view(&self) -> NamedV4View {
        NamedV4View { name: self.name@, v4: self.v4 }
    }
}

pub open spec fn named(v: Seq<NamedV4>) -> Seq<NamedV4View> {
    v.map_values(|x: NamedV4| x@)
}

/// The first interface that holds an address.
pub open spec fn holder(list: Seq<IfEntry>, ip: HostIp, k: int) -> Option<Seq<char>>
    decreases list.len() - k,
{
    if k >= list.len() || k < 0 {
        None
    } else if list[k].addr.host() == ip {
        Some(list[k].name@)
    } else {
        holder(list, ip, k + 1)
    }
}

/// The interface that holds the socket's local address.
pub fn iface_for(list: &Vec<IfEntry>, ip: HostIp) -> (name: Option<String>)
    ensures
        text::opt_string(name) == holder(list@, ip, 0),
{
    let mut i: usize = 0;
    while i < list.len()
        invariant
            i <= list@.len(),
            holder(list@, ip, 0) == holder(list@, ip, i as int),
        decreases list@.len() - i,
    {
        if list[i].addr.ip() == ip {
            return Some(list[i].name.clone());
        }
        i = i + 1;
    }
    None
}

/// `m` put behind every name that does not stand after its own.
pub open spec fn placed(s: Seq<NamedV4View>, m: NamedV4View) -> Seq<NamedV4View>
    decreases s.len(),
{
    if s.len() == 0 || !text::precedes(m.name, s.last().name) {
        s.push(m)
    } else {
        placed(s.drop_last(), m).push(s.last())
    }
}

/// The IPv4 addresses off the loopback, by name; those of one name in the order listed.
pub open spec fn by_name(list: Seq<IfEntry>) -> Seq<NamedV4View>
    decreases list.len(),
{
    if list.len() == 0 {
        Seq::empty()
    } else {
        let rest = by_name(list.drop_last());
        match list.last().addr {
            IfAddr::V4(v) if !list.last().loopback => placed(
                rest,
                NamedV4View { name: list.last().name@, v4: v },
            ),
            _ => rest,
        }
    }
}

/// Two different addresses of one interface in one subnet.
pub open spec fn twins(x: NamedV4View, y: NamedV4View) -> bool {
    &&& y.name == x.name
    &&& y.v4.ip != x.v4.ip
    &&& y.v4.netmask == x.v4.netmask
    &&& (y.v4.ip & y.v4.netmask) == (x.v4.ip & x.v4.netmask)
}

/// The first address at or after `k` that shares the subnet of `x`.
pub open spec fn twin_of(s: Seq<NamedV4View>, x: NamedV4View, k: int) -> Option<NamedV4View>
    decreases s.len() - k,
{
    if k >= s.len() || k < 0 {
        None
    } else if twins(x, s[k]) {
        Some(s[k])
    } else {
        twin_of(s, x, k + 1)
    }
}

/// A warning: an interface, one of its addresses and the other in the same subnet.
#[verifier::ext_equal]
pub struct TwinView {
    pub iface: Seq<char>,
    pub a: Ipv4,
    pub b: Ipv4,
}

pub struct Twin {
    pub iface: String,
    pub a: Ipv4,
    pub b: Ipv4,
}

impl View for Twin {
    type V = TwinView;

    open spec fn view(&self) -> TwinView {
        TwinView { iface: self.iface@, a: self.a, b: self.b }
    }
}

pub open spec fn twin_views(v: Seq<Twin>) -> Seq<TwinView> {
    v.map_values(|x: Twin| x@)
}

/// The warnings of the first `n` addresses, in order.
pub open spec fn warnings(s: Seq<NamedV4View>, n: int) -> Seq<TwinView>
    decreases n,
{
    if n <= 0 {
        Seq::empty()
    } else {
        match twin_of(s, s[n - 1], 0) {
            Some(t) => warnings(s, n - 1).push(
                TwinView {
                    iface: s[n - 1].name,
                    a: Ipv4::of(s[n - 1].v4.ip),
                    b: Ipv4::of(t.v4.ip),
                },
            ),
            None => warnings(s, n - 1),
        }
    }
}

/// An address as the startup line shows it.
pub open spec fn shown(x: NamedV4View) -> Seq<char> {
    x.name + ":"@ + Ipv4::of(x.v4.ip).dotted() + "/"@ + text::decimal(x.v4.prefixlen as nat)
}

/// What is said of the box's addresses at the start.
pub struct AddressReport {
    pub line: String,
    pub twins: Vec<Twin>,
}

fn insert_named(out: &mut Vec<NamedV4>, m: NamedV4)
    ensures
        named(final(out)@) == placed(named(old(out)@), m@),
{
    let ghost before = named(out@);
    let mut at: usize = out.len();
    while at > 0 && text::text_before(m.name.as_str(), out[at - 1].name.as_str())
        invariant
            at <= out@.len(),
            before == named(out@),
            forall|k: int|
                at <= k < before.len() ==> text::precedes(m.name@, (#[trigger] before[k]).name),
        decreases at,
    {
        assert(before[at - 1] == out@[at - 1]@);
        at = at - 1;
    }
    proof {
        if at > 0 {
            assert(before[at - 1] == out@[at - 1]@);
        }
        lemma_placed(before, m@, at as int);
    }
    out.insert(at, m);
    assert(named(out@) =~= before.insert(at as int, m@));
}

proof fn lemma_placed(s: Seq<NamedV4View>, m: NamedV4View, at: int)
    requires
        0 <= at <= s.len(),
        forall|k: int| at <= k < s.len() ==> text::precedes(m.name, (#[trigger] s[k]).name),
        at > 0 ==> !text::precedes(m.name, s[at - 1].name),
    ensures
        placed(s, m) == s.insert(at, m),
    decreases s.len(),
{
    if at == s.len() {
        assert(s.insert(at, m) =~= s.push(m));
    } else {
        let d = s.drop_last();
        assert(s[s.len() - 1] == s.last());
        assert forall|k: int| at <= k < d.len() implies text::precedes(
            m.name,
            (#[trigger] d[k]).name,
        ) by {
            assert(d[k] == s[k]);
        }
        lemma_placed(d, m, at);
        assert(d.insert(at, m).push(s.last()) =~= s.insert(at, m));
    }
}

fn find_twin(list: &Vec<NamedV4>, x: &NamedV4) -> (r: Option<u32>)
    ensures
        r == match twin_of(named(list@), x@, 0) {
            Some(t) => Some(t.v4.ip),
            None => None,
        },
{
    let ghost s = named(list@);
    let mut k: usize = 0;
    while k < list.len()
        invariant
            k <= list@.len(),
            s == named(list@),
            twin_of(s, x@, 0) == twin_of(s, x@, k as int),
        decreases list@.len() - k,
    {
        let y: &NamedV4 = &list[k];
        assert(s[k as int] == y@);
        if text::same(y.name.as_str(), x.name.as_str()) && y.v4.ip != x.v4.ip && y.v4.netmask
            == x.v4.netmask && (y.v4.ip & y.v4.netmask) == (x.v4.ip & x.v4.netmask) {
            return Some(y.v4.ip);
        }
        k = k + 1;
    }
    None
}

/// Every IPv4 the box holds, by interface, on one line, and a warning for each address that
/// shares its subnet with another of the same interface: two DHCP clients on that interface is
/// the usual cause, and each renewal then commits addresses and routes anew under a live stream.
pub fn log_addresses(list: &Vec<IfEntry>) -> (r: AddressReport)
    ensures
        r.line@ == text::joined(by_name(list@).map_values(|x: NamedV4View| shown(x)), " "@),
        twin_views(r.twins@) == warnings(by_name(list@), by_name(list@).len() as int),
{
    let mut held: Vec<NamedV4> = Vec::new();
    let mut i: usize = 0;
    assert(list@.take(0) =~= Seq::<IfEntry>::empty());
    assert(named(held@) =~= Seq::<NamedV4View>::empty());
    while i < list.len()
        invariant
            i <= list@.len(),
            named(held@) == by_name(list@.take(i as int)),
        decreases list@.len() - i,
    {
        let e: &IfEntry = &list[i];
        proof {
            assert(list@.take(i + 1).drop_last() =~= list@.take(i as int));
            assert(list@.take(i + 1).last() == *e);
        }
        match e.addr {
            IfAddr::V4(v) => {
                if !e.loopback {
                    insert_named(&mut held, NamedV4 { name: e.name.clone(), v4: v });
                }
            },
            IfAddr::V6(_) => {},
        }
        i = i + 1;
    }
    assert(list@.take(i as int) =~= list@);
    let ghost s = by_name(list@);
    let ghost show = |x: NamedV4View| shown(x);
    let mut rendered: Vec<String> = Vec::new();
    let mut twins: Vec<Twin> = Vec::new();
    let mut k: usize = 0;
    assert(text::contents(rendered@) =~= s.take(0).map_values(show));
    assert(twin_views(twins@) =~= Seq::<TwinView>::empty());
    while k < held.len()
        invariant
            k <= held@.len(),
            s == named(held@),
            show == (|x: NamedV4View| shown(x)),
            text::contents(rendered@) == s.take(k as int).map_values(show),
            twin_views(twins@) == warnings(s, k as int),
        decreases held@.len() - k,
    {
        let x: &NamedV4 = &held[k];
        let ghost lines = rendered@;
        let ghost told = twins@;
        assert(s[k as int] == x@);
        let ip: Ipv4 = Ipv4::from_u32(x.v4.ip);
        let line: String = x.name.clone().concat(":").concat(ip.text().as_str()).concat("/").concat(
            text::decimal_u64(x.v4.prefixlen as u64).as_str(),
        );
        rendered.push(line);
        assert(text::contents(rendered@) =~= text::contents(lines).push(shown(x@)));
        assert(text::contents(rendered@) =~= s.take(k + 1).map_values(show));
        match find_twin(&held, x) {
            Some(other) => {
                let twin: Twin = Twin { iface: x.name.clone(), a: ip, b: Ipv4::from_u32(other) };
                twins.push(twin);
                assert(twin_views(twins@) =~= twin_views(told).push(twin@));
            },
            None => {},
        }
        k = k + 1;
    }
    assert(s.take(k as int) =~= s);
    AddressReport { line: text::join(&rendered, " "), twins }
}

/// A number of two bytes in the machine's order.
pub open spec fn u16_at(b: Seq<u8>, i: int, little: bool) -> u16 {
    if little {
        (b[i] + b[i + 1] * 0x100) as u16
    } else {
        (b[i] * 0x100 + b[i + 1]) as u16
    }
}

/// A number of four bytes in the machine's order.
pub open spec fn u32_at(b: Seq<u8>, i: int, little: bool) -> u32 {
    if little {
        (b[i] + b[i + 1] * 0x100 + b[i + 2] * 0x1_0000 + b[i + 3] * 0x100_0000) as u32
    } else {
        (b[i] * 0x100_0000 + b[i + 1] * 0x1_0000 + b[i + 2] * 0x100 + b[i + 3]) as u32
    }
}

fn read_u16(b: &[u8], i: usize, little: bool) -> (r: u16)
    requires
        i + 2 <= b@.len(),
    ensures
        r == u16_at(b@, i as int, little),
{
    if little {
        b[i] as u16 + b[i + 1] as u16 * 0x100
    } else {
        b[i] as u16 * 0x100 + b[i + 1] as u16
    }
}

fn read_u32(b: &[u8], i: usize, little: bool) -> (r: u32)
    requires
        i + 4 <= b@.len(),
    ensures
        r == u32_at(b@, i as int, little),
{
    if little {
        b[i] as u32 + b[i + 1] as u32 * 0x100 + b[i + 2] as u32 * 0x1_0000 + b[i + 3] as u32
            * 0x100_0000
    } else {
        b[i] as u32 * 0x100_0000 + b[i + 1] as u32 * 0x1_0000 + b[i + 2] as u32 * 0x100 + b[i
            + 3] as u32
    }
}

/// Where the next record starts: records begin at multiples of four.
pub open spec fn nl_align(n: int) -> int {
    (n + 3) / 4 * 4
}

/// Where the record after one of `len` bytes starts, or the end.
pub open spec fn next_record(len: int, total: int) -> int {
    if nl_align(len) < total {
        nl_align(len)
    } else {
        total
    }
}

fn skip_record(len: usize, total: usize) -> (r: usize)
    requires
        len <= total,
    ensures
        r == next_record(len as int, total as int),
{
    let over: usize = len % 4;
    let pad: usize = if over == 0 {
        0
    } else {
        4 - over
    };
    if total - len < pad {
        total
    } else {
        len + pad
    }
}

/// A record's attribute.
#[verifier::ext_equal]
pub struct AttrView {
    pub ty: u16,
    pub value: Seq<u8>,
}

pub struct Attr<'a> {
    pub ty: u16,
    pub value: &'a [u8],
}

impl<'a> View for Attr<'a> {
    type V = AttrView;

    open spec fn view(&self) -> AttrView {
        AttrView { ty: self.ty, value: self.value@ }
    }
}

pub open spec fn attr_views(v: Seq<Attr>) -> Seq<AttrView> {
    v.map_values(|x: Attr| x@)
}

/// A record's head fits and its length is believable.
pub open spec fn attr_fits(b: Seq<u8>, little: bool) -> bool {
    b.len() >= 4 && 4 <= u16_at(b, 0, little) <= b.len()
}

/// The attributes of a record, up to the first that does not fit.
pub open spec fn attrs_of(b: Seq<u8>, little: bool) -> Seq<AttrView>
    decreases b.len(),
{
    if !attr_fits(b, little) {
        Seq::empty()
    } else {
        let len = u16_at(b, 0, little) as int;
        seq![AttrView { ty: u16_at(b, 2, little), value: b.subrange(4, len) }] + attrs_of(
            b.skip(next_record(len, b.len() as int)),
            little,
        )
    }
}

/// Type and payload of each attribute.
pub fn attrs<'a>(b: &'a [u8], little: bool) -> (out: Vec<Attr<'a>>)
    ensures
        attr_views(out@) == attrs_of(b@, little),
{
    let mut out: Vec<Attr<'a>> = Vec::new();
    let mut rest: &'a [u8] = b;
    let ghost all = attrs_of(b@, little);
    assert(attr_views(out@) + attrs_of(rest@, little) =~= all);
    while rest.len() >= 4
        invariant
            all == attrs_of(b@, little),
            attr_views(out@) + attrs_of(rest@, little) == all,
        decreases rest@.len(),
    {
        let len: usize = read_u16(rest, 0, little) as usize;
        if len < 4 || len > rest.len() {
            assert(attr_views(out@) + Seq::<AttrView>::empty() =~= attr_views(out@));
            return out;
        }
        let at: usize = skip_record(len, rest.len());
        let value: &'a [u8] = slice_subrange(rest, 4, len);
        let attr: Attr<'a> = Attr { ty: read_u16(rest, 2, little), value };
        let ghost before = out@;
        let ghost whole = rest@;
        out.push(attr);
        rest = slice_subrange(rest, at, rest.len());
        proof {
            assert(rest@ =~= whole.skip(at as int));
            assert(attr_views(out@) =~= attr_views(before).push(attr@));
            assert(attr_views(out@) + attrs_of(rest@, little) =~= attr_views(before) + (seq![attr@]
                + attrs_of(rest@, little)));
        }
    }
    assert(attr_views(out@) + Seq::<AttrView>::empty() =~= attr_views(out@));
    out
}

/// The octets of four bytes.
pub open spec fn ipv4_at(v: Seq<u8>) -> Ipv4 {
    Ipv4 { a: v[0], b: v[1], c: v[2], d: v[3] }
}

/// A change the kernel told of.
#[derive(Clone, Copy, Debug, PartialEq, Eq)]
pub enum NetEvent {
    Link { gone: bool, index: i32, up: bool, running: bool, carrier: bool },
    Address { gone: bool, index: i32, addr: Option<Ipv4>, prefix: u8 },
    /// A route of the main table; the local table echoes every address.
    Route { gone: bool, dst: Option<Ipv4>, dst_len: u8, via: Option<Ipv4>, oif: Option<i32> },
}

/// The first address among attributes, from `k`.
pub open spec fn first_addr(a: Seq<AttrView>, k: int) -> Option<Ipv4>
    decreases a.len() - k,
{
    if k >= a.len() || k < 0 {
        None
    } else if (a[k].ty == IFA_LOCAL || a[k].ty == IFA_ADDRESS) && a[k].value.len() == 4 {
        Some(ipv4_at(a[k].value))
    } else {
        first_addr(a, k + 1)
    }
}

/// The last payload of four bytes and a type among the first `n` attributes.
pub open spec fn last_word(a: Seq<AttrView>, ty: u16, n: int) -> Option<Seq<u8>>
    decreases n,
{
    if n <= 0 {
        None
    } else if a[n - 1].ty == ty && a[n - 1].value.len() == 4 {
        Some(a[n - 1].value)
    } else {
        last_word(a, ty, n - 1)
    }
}

pub open spec fn opt_ipv4(v: Option<Seq<u8>>) -> Option<Ipv4> {
    match v {
        Some(x) => Some(ipv4_at(x)),
        None => None,
    }
}

/// The change a message tells of, if it is one that is listed.
pub open spec fn event_of(ty: u16, body: Seq<u8>, little: bool) -> Option<NetEvent> {
    if ty == RTM_NEWLINK || ty == RTM_DELLINK {
        if body.len() >= 16 {
            let flags = u32_at(body, 8, little);
            Some(
                NetEvent::Link {
                    gone: ty == RTM_DELLINK,
                    index: u32_at(body, 4, little) as i32,
                    up: flags & IFF_UP != 0,
                    running: flags & IFF_RUNNING != 0,
                    carrier: flags & IFF_LOWER_UP != 0,
                },
            )
        } else {
            None
        }
    } else if ty == RTM_NEWADDR || ty == RTM_DELADDR {
        if body.len() >= 8 {
            Some(
                NetEvent::Address {
                    gone: ty == RTM_DELADDR,
                    index: u32_at(body, 4, little) as i32,
                    addr: first_addr(attrs_of(body.skip(8), little), 0),
                    prefix: body[1],
                },
            )
        } else {
            None
        }
    } else if ty == RTM_NEWROUTE || ty == RTM_DELROUTE {
        if body.len() >= 12 && body[4] == RT_TABLE_MAIN {
            let a = attrs_of(body.skip(12), little);
            let n = a.len() as int;
            Some(
                NetEvent::Route {
                    gone: ty == RTM_DELROUTE,
                    dst: opt_ipv4(last_word(a, RTA_DST, n)),
                    dst_len: body[1],
                    via: opt_ipv4(last_word(a, RTA_GATEWAY, n)),
                    oif: match last_word(a, RTA_OIF, n) {
                        Some(v) => Some(u32_at(v, 0, little) as i32),
                        None => None,
                    },
                },
            )
        } else {
            None
        }
    } else {
        None
    }
}

/// A message's head fits and its length is believable.
pub open spec fn message_fits(b: Seq<u8>, little: bool) -> bool {
    b.len() >= 16 && 16 <= u32_at(b, 0, little) <= b.len()
}

pub open spec fn listed(e: Option<NetEvent>) -> Seq<NetEvent> {
    match e {
        Some(x) => seq![x],
        None => Seq::empty(),
    }
}

/// The changes of a batch: one for each message that is listed, up to the first that does not
/// fit.
pub open spec fn events_of(b: Seq<u8>, little: bool) -> Seq<NetEvent>
    decreases b.len(),
{
    if !message_fits(b, little) {
        Seq::empty()
    } else {
        let len = u32_at(b, 0, little) as int;
        listed(event_of(u16_at(b, 4, little), b.subrange(16, len), little)) + events_of(
            b.skip(next_record(len, b.len() as int)),
            little,
        )
    }
}

fn find_addr(a: &Vec<Attr>) -> (r: Option<Ipv4>)
    ensures
        r == first_addr(attr_views(a@), 0),
{
    let ghost v = attr_views(a@);
    let mut k: usize = 0;
    while k < a.len()
        invariant
            k <= a@.len(),
            v == attr_views(a@),
            first_addr(v, 0) == first_addr(v, k as int),
        decreases a@.len() - k,
    {
        assert(v[k as int] == a@[k as int]@);
        let x: &[u8] = a[k].value;
        if (a[k].ty == IFA_LOCAL || a[k].ty == IFA_ADDRESS) && x.len() == 4 {
            return Some(Ipv4 { a: x[0], b: x[1], c: x[2], d: x[3] });
        }
        k = k + 1;
    }
    None
}

fn find_word_attr<'a>(a: &Vec<Attr<'a>>, ty: u16) -> (r: Option<&'a [u8]>)
    ensures
        match r {
            Some(x) => last_word(attr_views(a@), ty, a@.len() as int) == Some(x@) && x@.len() == 4,
            None => last_word(attr_views(a@), ty, a@.len() as int) is None,
        },
{
    let ghost v = attr_views(a@);
    let mut n: usize = a.len();
    while n > 0
        invariant
            n <= a@.len(),
            v == attr_views(a@),
            last_word(v, ty, a@.len() as int) == last_word(v, ty, n as int),
        decreases n,
    {
        assert(v[n - 1] == a@[n - 1]@);
        let x: &'a [u8] = a[n - 1].value;
        if a[n - 1].ty == ty && x.len() == 4 {
            return Some(x);
        }
        n = n - 1;
    }
    None
}

fn opt_addr(v: Option<&[u8]>) -> (r: Option<Ipv4>)
    requires
        v matches Some(x) ==> x@.len() == 4,
    ensures
        r == match v {
            Some(x) => Some(ipv4_at(x@)),
            None => None,
        },
{
    match v {
        Some(x) => Some(Ipv4 { a: x[0], b: x[1], c: x[2], d: x[3] }),
        None => None,
    }
}

fn event(ty: u16, body: &[u8], little: bool) -> (e: Option<NetEvent>)
    ensures
        e == event_of(ty, body@, little),
{
    if ty == RTM_NEWLINK || ty == RTM_DELLINK {
        if body.len() < 16 {
            return None;
        }
        let flags: u32 = read_u32(body, 8, little);
        Some(
            NetEvent::Link {
                gone: ty == RTM_DELLINK,
                index: read_u32(body, 4, little) as i32,
                up: flags & IFF_UP != 0,
                running: flags & IFF_RUNNING != 0,
                carrier: flags & IFF_LOWER_UP != 0,
            },
        )
    } else if ty == RTM_NEWADDR || ty == RTM_DELADDR {
        if body.len() < 8 {
            return None;
        }
        let rest: &[u8] = slice_subrange(body, 8, body.len());
        assert(rest@ =~= body@.skip(8));
        let a: Vec<Attr> = attrs(rest, little);
        Some(
            NetEvent::Address {
                gone: ty == RTM_DELADDR,
                index: read_u32(body, 4, little) as i32,
                addr: find_addr(&a),
                prefix: body[1],
            },
        )
    } else if ty == RTM_NEWROUTE || ty == RTM_DELROUTE {
        if body.len() < 12 || body[4] != RT_TABLE_MAIN {
            return None;
        }
        let rest: &[u8] = slice_subrange(body, 12, body.len());
        assert(rest@ =~= body@.skip(12));
        let a: Vec<Attr> = attrs(rest, little);
        assert(attr_views(a@).len() == a@.len());
        let oif: Option<i32> = match find_word_attr(&a, RTA_OIF) {
            Some(v) => Some(read_u32(v, 0, little) as i32),
            None => None,
        };
        Some(
            NetEvent::Route {
                gone: ty == RTM_DELROUTE,
                dst: opt_addr(find_word_attr(&a, RTA_DST)),
                dst_len: body[1],
                via: opt_addr(find_word_attr(&a, RTA_GATEWAY)),
                oif,
            },
        )
    } else {
        None
    }
}

/// Reads a batch of kernel messages; `little` says how the machine orders the bytes of a number.
pub fn netlink_events(b: &[u8], little: bool) -> (out: Vec<NetEvent>)
    ensures
        out@ == events_of(b@, little),
{
    let mut out: Vec<NetEvent> = Vec::new();
    let mut rest: &[u8] = b;
    let ghost all = events_of(b@, little);
    assert(out@ + events_of(rest@, little) =~= all);
    while rest.len() >= 16
        invariant
            all == events_of(b@, little),
            out@ + events_of(rest@, little) == all,
        decreases rest@.len(),
    {
        let said: u32 = read_u32(rest, 0, little);
        if said < 16 || said as u64 > rest.len() as u64 {
            assert(out@ + Seq::<NetEvent>::empty() =~= out@);
            return out;
        }
        let len: usize = said as usize;
        let at: usize = skip_record(len, rest.len());
        let body: &[u8] = slice_subrange(rest, 16, len);
        let ghost before = out@;
        let ghost whole = rest@;
        let e: Option<NetEvent> = event(read_u16(rest, 4, little), body, little);
        match e {
            Some(x) => {
                out.push(x);
            },
            None => {},
        }
        rest = slice_subrange(rest, at, rest.len());
        proof {
            assert(rest@ =~= whole.skip(at as int));
            assert(out@ =~= before + listed(e));
            assert(out@ + events_of(rest@, little) =~= before + (listed(e) + events_of(
                rest@,
                little,
            )));
        }
    }
    assert(out@ + Seq::<NetEvent>::empty() =~= out@);
    out
}

pub open spec fn flag_word(b: bool) -> Seq<char> {
    if b {
        "true"@
    } else {
        "false"@
    }
}

fn flag_text(b: bool) -> (s: &'static str)
    ensures
        s@ == flag_word(b),
{
    if b {
        "true"
    } else {
        "false"
    }
}

/// The name of an interface; its number when the name is not known.
pub open spec fn iface_name(index: i32, known: Option<Seq<char>>) -> Seq<char> {
    match known {
        Some(n) => n,
        None => "#"@ + text::decimal_int(index as int),
    }
}

/// Names an interface.
pub fn ifname(index: i32, known: Option<&str>) -> (s: String)
    ensures
        s@ == iface_name(index, text::opt_view(known)),
{
    match known {
        Some(n) => n.to_owned(),
        None => "#".to_owned().concat(text::decimal_i32(index).as_str()),
    }
}

impl NetEvent {
    /// The interface a change is about.
    pub open spec fn iface(self) -> Option<i32> {
        match self {
            NetEvent::Link { index, .. } => Some(index),
            NetEvent::Address { index, .. } => Some(index),
            NetEvent::Route { oif, .. } => oif,
        }
    }

    pub fn index(&self) -> (i: Option<i32>)
        ensures
            i == self.iface(),
    {
        match *self {
            NetEvent::Link { index, .. } => Some(index),
            NetEvent::Address { index, .. } => Some(index),
            NetEvent::Route { oif, .. } => oif,
        }
    }

    /// The line of a change, for the name its interface goes by.
    pub open spec fn told(self, known: Option<Seq<char>>) -> Seq<char> {
        match self {
            NetEvent::Link { gone, index, up, running, carrier } => (if gone {
                "link gone"@
            } else {
                "link"@
            }) + " iface="@ + iface_name(index, known) + " up="@ + flag_word(up) + " running="@
                + flag_word(running) + " carrier="@ + flag_word(carrier),
            NetEvent::Address { gone, index, addr, prefix } => (if gone {
                "address gone"@
            } else {
                "address"@
            }) + " iface="@ + iface_name(index, known) + " addr="@ + (match addr {
                Some(a) => a.dotted(),
                None => "?"@,
            }) + "/"@ + text::decimal(prefix as nat),
            NetEvent::Route { gone, dst, dst_len, via, oif } => (if gone {
                "route gone"@
            } else {
                "route"@
            }) + " dst="@ + (match dst {
                Some(d) => d.dotted() + "/"@ + text::decimal(dst_len as nat),
                None => "default"@,
            }) + (match via {
                Some(g) => " via="@ + g.dotted(),
                None => ""@,
            }) + (match oif {
                Some(i) => " iface="@ + iface_name(i, known),
                None => ""@,
            }),
        }
    }

    /// Writes the line of a change.
    pub fn line(&self, known: Option<&str>) -> (s: String)
        ensures
            s@ == self.told(text::opt_view(known)),
    {
        match *self {
            NetEvent::Link { gone, index, up, running, carrier } => {
                let what: &str = if gone {
                    "link gone"
                } else {
                    "link"
                };
                what.to_owned().concat(" iface=").concat(ifname(index, known).as_str()).concat(
                    " up=",
                ).concat(flag_text(up)).concat(" running=").concat(flag_text(running)).concat(
                    " carrier=",
                ).concat(flag_text(carrier))
            },
            NetEvent::Address { gone, index, addr, prefix } => {
                let what: &str = if gone {
                    "address gone"
                } else {
                    "address"
                };
                let shown: String = match addr {
                    Some(a) => a.text(),
                    None => "?".to_owned(),
                };
                what.to_owned().concat(" iface=").concat(ifname(index, known).as_str()).concat(
                    " addr=",
                ).concat(shown.as_str()).concat("/").concat(
                    text::decimal_u64(prefix as u64).as_str(),
                )
            },
            NetEvent::Route { gone, dst, dst_len, via, oif } => {
                let what: &str = if gone {
                    "route gone"
                } else {
                    "route"
                };
                let to: String = match dst {
                    Some(d) => d.text().concat("/").concat(
                        text::decimal_u64(dst_len as u64).as_str(),
                    ),
                    None => "default".to_owned(),
                };
                let through: String = match via {
                    Some(g) => " via=".to_owned().concat(g.text().as_str()),
                    None => "".to_owned(),
                };
                let dev: String = match oif {
                    Some(i) => " iface=".to_owned().concat(ifname(i, known).as_str()),
                    None => "".to_owned(),
                };
                what.to_owned().concat(" dst=").concat(to.as_str()).concat(
                    through.as_str(),
                ).concat(dev.as_str())
            },
        }
    }
}

/// What a line says of a link.
#[verifier::ext_equal]
pub enum LinkNote {
    /// Not of a link.
    Other,
    Gone(Seq<char>),
    Flags(Seq<char>, Seq<char>),
}

/// What follows a prefix, or all of it.
pub open spec fn after(s: Seq<char>, p: Seq<char>) -> Seq<char> {
    if text::begins(s, p) {
        s.skip(p.len() as int)
    } else {
        s
    }
}

/// Reads a line: the interface is the word behind `iface=`, the flags all that follows.
pub open spec fn link_note(line: Seq<char>) -> LinkNote {
    if !text::begins(line, "link "@) {
        LinkNote::Other
    } else {
        let rest = line.skip("link "@.len() as int);
        let gone = text::begins(rest, "gone "@);
        let body = after(rest, "gone "@);
        if !text::begins(body, "iface="@) {
            LinkNote::Other
        } else {
            let said = body.skip("iface="@.len() as int);
            let i = text::next_cut(said, Sep::Is(' '), 0);
            if i >= said.len() {
                LinkNote::Other
            } else if gone {
                LinkNote::Gone(said.take(i))
            } else {
                LinkNote::Flags(said.take(i), said.skip(i + 1))
            }
        }
    }
}

/// A link and the flags it last announced.
pub struct LinkFlags {
    pub iface: String,
    pub flags: String,
}

/// Folds a link that announces flags it already had: a periodic scan makes the kernel tell of an
/// idle link again and again, and only a move is churn.
pub struct LinkDedupe {
    pub links: Vec<LinkFlags>,
}

impl LinkDedupe {
    /// No link is held twice.
    pub open spec fn wf(self) -> bool {
        forall|i: int, j: int|
            0 <= i < j < self.links@.len() ==> (#[trigger] self.links@[i]).iface@ != (
            #[trigger] self.links@[j]).iface@
    }

    pub open spec fn has(self, iface: Seq<char>) -> bool {
        exists|i: int| 0 <= i < self.links@.len() && (#[trigger] self.links@[i]).iface@ == iface
    }

    /// The place of a link.
    pub open spec fn place(self, iface: Seq<char>) -> int {
        choose|i: int| 0 <= i < self.links@.len() && (#[trigger] self.links@[i]).iface@ == iface
    }

    /// The flags a link last announced.
    pub open spec fn flags_of(self, iface: Seq<char>) -> Option<Seq<char>> {
        if self.has(iface) {
            Some(self.links@[self.place(iface)].flags@)
        } else {
            None
        }
    }

    /// A line is worth telling: it is not of a link, or the link last said something else.
    pub open spec fn is_new(self, line: Seq<char>) -> bool {
        match link_note(line) {
            LinkNote::Flags(iface, flags) => self.flags_of(iface) != Some(flags),
            _ => true,
        }
    }

    /// What is known once a line was heard: a link's flags are kept, a link that went is
    /// forgotten, and no other link is touched.
    pub open spec fn heard(self, line: Seq<char>, after: Self) -> bool {
        forall|n: Seq<char>| #[trigger]
            after.flags_of(n) == match link_note(line) {
                LinkNote::Flags(iface, flags) if n == iface => Some(flags),
                LinkNote::Gone(iface) if n == iface => None,
                _ => self.flags_of(n),
            }
    }

    pub fn new() -> (d: Self)
        ensures
            d.wf(),
            forall|n: Seq<char>| #[trigger] d.flags_of(n) is None,
    {
        LinkDedupe { links: Vec::new() }
    }

    proof fn lemma_at(self, i: int)
        requires
            self.wf(),
            0 <= i < self.links@.len(),
        ensures
            self.has(self.links@[i].iface@),
            self.flags_of(self.links@[i].iface@) == Some(self.links@[i].flags@),
    {
        let n = self.links@[i].iface@;
        assert(self.has(n));
        let p = self.place(n);
        assert(0 <= p < self.links@.len() && self.links@[p].iface@ == n);
        assert(p == i);
    }

    fn find(&self, iface: &str) -> (r: Option<usize>)
        requires
            self.wf(),
        ensures
            match r {
                Some(i) => i < self.links@.len() && self.links@[i as int].iface@ == iface@,
                None => !self.has(iface@),
            },
    {
        let mut i: usize = 0;
        while i < self.links.len()
            invariant
                i <= self.links@.len(),
                forall|k: int| 0 <= k < i ==> (#[trigger] self.links@[k]).iface@ != iface@,
            decreases self.links@.len() - i,
        {
            if text::same(self.links[i].iface.as_str(), iface) {
                return Some(i);
            }
            i = i + 1;
        }
        None
    }

    /// Whether a line is worth telling. A link that goes is forgotten, so its return speaks
    /// again; an address or a route always passes, because adding one again is a live commit and
    /// not an announcement.
    pub fn is_news(&mut self, line: &str) -> (news: bool)
        requires
            old(self).wf(),
        ensures
            final(self).wf(),
            news == old(self).is_new(line@),
            old(self).heard(line@, *final(self)),
    {
        let rest: &str = match text::strip_prefix(line, "link ") {
            Some(r) => r,
            None => {
                return true;
            },
        };
        let (gone, body): (bool, &str) = match text::strip_prefix(rest, "gone ") {
            Some(r) => (true, r),
            None => (false, rest),
        };
        let said: &str = match text::strip_prefix(body, "iface=") {
            Some(r) => r,
            None => {
                return true;
            },
        };
        let (iface, flags): (&str, &str) = match text::split_once(said, ' ') {
            Some(p) => p,
            None => {
                return true;
            },
        };
        let ghost before = *self;
        let at: Option<usize> = self.find(iface);
        if gone {
            match at {
                Some(i) => {
                    let ghost dropped = self.links@[i as int];
                    self.links.remove(i);
                    proof {
                        assert(self.links@ =~= before.links@.remove(i as int));
                        assert(self.wf());
                        assert forall|n: Seq<char>| #[trigger]
                            self.flags_of(n) == (if n == iface@ {
                                None
                            } else {
                                before.flags_of(n)
                            }) by {
                            before.lemma_removed(*self, i as int, n);
                        }
                    }
                },
                None => {},
            }
            return true;
        }
        match at {
            Some(i) => {
                let same: bool = text::same(self.links[i].flags.as_str(), flags);
                proof {
                    before.lemma_at(i as int);
                }
                let entry: LinkFlags = LinkFlags {
                    iface: iface.to_owned(),
                    flags: flags.to_owned(),
                };
                self.links.set(i, entry);
                proof {
                    assert(self.links@ =~= before.links@.update(i as int, entry));
                    assert(self.wf());
                    assert forall|n: Seq<char>| #[trigger]
                        self.flags_of(n) == (if n == iface@ {
                            Some(flags@)
                        } else {
                            before.flags_of(n)
                        }) by {
                        before.lemma_set(*self, i as int, n);
                    }
                }
                !same
            },
            None => {
                let entry: LinkFlags = LinkFlags {
                    iface: iface.to_owned(),
                    flags: flags.to_owned(),
                };
                self.links.push(entry);
                proof {
                    assert(self.links@ =~= before.links@.push(entry));
                    assert(self.wf());
                    assert forall|n: Seq<char>| #[trigger]
                        self.flags_of(n) == (if n == iface@ {
                            Some(flags@)
                        } else {
                            before.flags_of(n)
                        }) by {
                        before.lemma_pushed(*self, n);
                    }
                }
                true
            },
        }
    }

    proof fn lemma_removed(self, after: Self, i: int, n: Seq<char>)
        requires
            self.wf(),
            after.wf(),
            0 <= i < self.links@.len(),
            after.links@ == self.links@.remove(i),
        ensures
            after.flags_of(n) == if n == self.links@[i].iface@ {
                None
            } else {
                self.flags_of(n)
            },
    {
        if after.has(n) {
            let p = after.place(n);
            let q = if p < i {
                p
            } else {
                p + 1
            };
            assert(after.links@[p] == self.links@[q]);
            self.lemma_at(q);
        } else if self.has(n) && n != self.links@[i].iface@ {
            let q = self.place(n);
            let p = if q < i {
                q
            } else {
                q - 1
            };
            assert(after.links@[p] == self.links@[q]);
        }
    }

    proof fn lemma_set(self, after: Self, i: int, n: Seq<char>)
        requires
            self.wf(),
            after.wf(),
            0 <= i < self.links@.len(),
            after.links@ == self.links@.update(i, after.links@[i]),
            after.links@[i].iface@ == self.links@[i].iface@,
        ensures
            after.flags_of(n) == if n == self.links@[i].iface@ {
                Some(after.links@[i].flags@)
            } else {
                self.flags_of(n)
            },
    {
        if n == self.links@[i].iface@ {
            after.lemma_at(i);
        } else if after.has(n) {
            let p = after.place(n);
            assert(after.links@[p] == self.links@[p]);
            self.lemma_at(p);
        } else if self.has(n) {
            let q = self.place(n);
            assert(after.links@[q] == self.links@[q]);
        }
    }

    proof fn lemma_pushed(self, after: Self, n: Seq<char>)
        requires
            self.wf(),
            after.wf(),
            after.links@.len() == self.links@.len() + 1,
            after.links@ == self.links@.push(after.links@.last()),
        ensures
            after.flags_of(n) == if n == after.links@.last().iface@ {
                Some(after.links@.last().flags@)
            } else {
                self.flags_of(n)
            },
    {
        let last = self.links@.len() as int;
        assert(after.links@[last] == after.links@.last());
        if n == after.links@.last().iface@ {
            after.lemma_at(last);
        } else if after.has(n) {
            let p = after.place(n);
            assert(after.links@[p] == self.links@[p]);
            self.lemma_at(p);
        } else if self.has(n) {
            let q = self.place(n);
            assert(after.links@[q] == self.links@[q]);
        }
    }
}

/// What becomes of a line.
#[derive(Clone, Copy, Debug, PartialEq, Eq, Structural)]
pub enum LineFate {
    /// Written.
    Told,
    /// A link repeating its flags; only counted.
    Repeat,
    /// Past the minute's budget; only counted.
    Suppressed,
}

/// What a minute left out.
#[derive(Clone, Copy, Debug, PartialEq, Eq, Structural)]
pub struct LeftOut {
    pub suppressed: u64,
    pub repeats: u64,
}

/// The watch over network changes: past its budget, as for a link repeating its flags, a minute
/// closes with one count instead of a flood.
pub struct RouteWatch {
    pub minute_ns: u64,
    pub spent: u32,
    pub left_out: LeftOut,
    pub links: LinkDedupe,
}

impl RouteWatch {
    pub open spec fn wf(self) -> bool {
        self.links.wf() && self.spent <= BUDGET
    }

    pub fn new(now_ns: u64) -> (w: Self)
        ensures
            w.wf(),
            w.minute_ns == now_ns,
            w.spent == 0,
            w.left_out == (LeftOut { suppressed: 0, repeats: 0 }),
            forall|n: Seq<char>| #[trigger] w.links.flags_of(n) is None,
    {
        RouteWatch {
            minute_ns: now_ns,
            spent: 0,
            left_out: LeftOut { suppressed: 0, repeats: 0 },
            links: LinkDedupe::new(),
        }
    }

    /// The minute is over.
    pub open spec fn minute_over(self, now_ns: u64) -> bool {
        now_ns >= self.minute_ns && now_ns - self.minute_ns >= MINUTE_NS
    }

    /// On each batch: closes a minute that is over, and says what it left out, if anything.
    pub fn tick(&mut self, now_ns: u64) -> (r: Option<LeftOut>)
        requires
            old(self).wf(),
        ensures
            final(self).wf(),
            final(self).links == old(self).links,
            r == if old(self).minute_over(now_ns) && (old(self).left_out.suppressed > 0 || old(
                self,
            ).left_out.repeats > 0) {
                Some(old(self).left_out)
            } else {
                None
            },
            if old(self).minute_over(now_ns) {
                &&& final(self).minute_ns == now_ns
                &&& final(self).spent == 0
                &&& final(self).left_out == (LeftOut { suppressed: 0, repeats: 0 })
            } else {
                *final(self) == *old(self)
            },
    {
        if now_ns < self.minute_ns || now_ns - self.minute_ns < MINUTE_NS {
            return None;
        }
        let was: LeftOut = self.left_out;
        self.minute_ns = now_ns;
        self.spent = 0;
        self.left_out = LeftOut { suppressed: 0, repeats: 0 };
        if was.suppressed > 0 || was.repeats > 0 {
            Some(was)
        } else {
            None
        }
    }

    /// What becomes of a line, by what the links last said and what the minute has spent.
    pub open spec fn fate(self, line: Seq<char>) -> LineFate {
        if !self.links.is_new(line) {
            LineFate::Repeat
        } else if self.spent < BUDGET {
            LineFate::Told
        } else {
            LineFate::Suppressed
        }
    }

    /// On each line.
    pub fn on_line(&mut self, line: &str) -> (f: LineFate)
        requires
            old(self).wf(),
            old(self).left_out.suppressed < u64::MAX,
            old(self).left_out.repeats < u64::MAX,
        ensures
            final(self).wf(),
            f == old(self).fate(line@),
            final(self).minute_ns == old(self).minute_ns,
            final(self).spent == old(self).spent + (if f == LineFate::Told {
                1int
            } else {
                0
            }),
            final(self).left_out.suppressed == old(self).left_out.suppressed + (if f
                == LineFate::Suppressed {
                1int
            } else {
                0
            }),
            final(self).left_out.repeats == old(self).left_out.repeats + (if f == LineFate::Repeat {
                1int
            } else {
                0
            }),
            old(self).links.heard(line@, final(self).links),
    {
        if !self.links.is_news(line) {
            self.left_out.repeats = self.left_out.repeats + 1;
            LineFate::Repeat
        } else if self.spent < BUDGET {
            self.spent = self.spent + 1;
            LineFate::Told
        } else {
            self.left_out.suppressed = self.left_out.suppressed + 1;
            LineFate::Suppressed
        }
    }
}

/// A link that repeats its flags is told once: right after a line, the same line is not news.
pub proof fn a_repeat_is_not_news(before: LinkDedupe, line: Seq<char>, after: LinkDedupe)
    requires
        link_note(line) is Flags,
        before.heard(line, after),
    ensures
        !after.is_new(line),
{
    let iface = link_note(line)->Flags_0;
    assert(after.flags_of(iface) == Some(link_note(line)->Flags_1));
}

/// A link that went away speaks again: after its leave, any flags of it are news.
pub proof fn a_return_is_news(
    before: LinkDedupe,
    gone: Seq<char>,
    after: LinkDedupe,
    back: Seq<char>,
)
    requires
        link_note(gone) is Gone,
        before.heard(gone, after),
        link_note(back) is Flags,
        link_note(back)->Flags_0 == link_note(gone)->Gone_0,
    ensures
        after.is_new(back),
{
    assert(after.flags_of(link_note(gone)->Gone_0) is None);
}

/// A line of one link changes nothing of what is known of another.
pub proof fn links_are_apart(
    before: LinkDedupe,
    line: Seq<char>,
    after: LinkDedupe,
    other: Seq<char>,
)
    requires
        before.heard(line, after),
        link_note(line) matches LinkNote::Flags(iface, _) ==> iface != other,
        link_note(line) matches LinkNote::Gone(iface) ==> iface != other,
    ensures
        after.flags_of(other) == before.flags_of(other),
{
}

/// The line of a link, read back, names the link and carries its flags: the reader of the lines
/// and their writer agree. Interface names hold no blank.
pub proof fn a_link_line_reads_back(e: NetEvent, name: Seq<char>)
    requires
        e is Link,
        forall|i: int| 0 <= i < name.len() ==> name[i] != ' ',
    ensures
        e->Link_gone ==> link_note(e.told(Some(name))) == LinkNote::Gone(name),
        !e->Link_gone ==> link_note(e.told(Some(name))) == LinkNote::Flags(
            name,
            "up="@ + flag_word(e->up) + " running="@ + flag_word(e->running) + " carrier="@
                + flag_word(e->carrier),
        ),
{
    let flags = "up="@ + flag_word(e->up) + " running="@ + flag_word(e->running) + " carrier="@
        + flag_word(e->carrier);
    let what = if e->Link_gone {
        "link gone"@
    } else {
        "link"@
    };
    reveal_strlit(" up=");
    reveal_strlit("up=");
    assert(" up="@ =~= seq![' '] + "up="@);
    lemma_regroup(
        what + " iface="@ + name,
        "up="@,
        flag_word(e->up),
        " running="@,
        flag_word(e->running),
        " carrier="@,
        flag_word(e->carrier),
    );
    lemma_note(e->Link_gone, name, flags);
}

proof fn lemma_regroup(
    head: Seq<char>,
    a: Seq<char>,
    b: Seq<char>,
    c: Seq<char>,
    d: Seq<char>,
    e: Seq<char>,
    f: Seq<char>,
)
    ensures
        head + (seq![' '] + a) + b + c + d + e + f == head + (seq![' '] + (a + b + c + d + e + f)),
{
    assert(head + (seq![' '] + a) + b + c + d + e + f =~= head + (seq![' '] + (a + b + c + d + e
        + f)));
}

proof fn lemma_note(gone: bool, name: Seq<char>, flags: Seq<char>)
    requires
        forall|i: int| 0 <= i < name.len() ==> name[i] != ' ',
    ensures
        gone ==> link_note("link gone"@ + " iface="@ + name + (seq![' '] + flags))
            == LinkNote::Gone(name),
        !gone ==> link_note("link"@ + " iface="@ + name + (seq![' '] + flags)) == LinkNote::Flags(
            name,
            flags,
        ),
{
    reveal_strlit("link gone");
    reveal_strlit("link");
    reveal_strlit("link ");
    reveal_strlit("gone ");
    reveal_strlit("iface=");
    reveal_strlit(" iface=");
    let said = name + seq![' '] + flags;
    lemma_first_blank(name, flags);
    assert(said.take(name.len() as int) =~= name);
    assert(said.skip((name.len() + 1) as int) =~= flags);
    let tail = "iface="@ + said;
    assert(tail.take("iface="@.len() as int) =~= "iface="@);
    assert(tail.skip("iface="@.len() as int) =~= said);
    if gone {
        let line = "link gone"@ + " iface="@ + name + (seq![' '] + flags);
        assert("link gone"@ =~= "link "@ + seq!['g', 'o', 'n', 'e']);
        assert(" iface="@ =~= seq![' '] + "iface="@);
        assert("gone "@ =~= seq!['g', 'o', 'n', 'e'] + seq![' ']);
        assert(line =~= "link "@ + ("gone "@ + tail));
        let rest = line.skip("link "@.len() as int);
        assert(line.take("link "@.len() as int) =~= "link "@);
        assert(rest =~= "gone "@ + tail);
        assert(rest.take("gone "@.len() as int) =~= "gone "@);
        assert(rest.skip("gone "@.len() as int) =~= tail);
    } else {
        let line = "link"@ + " iface="@ + name + (seq![' '] + flags);
        assert("link "@ =~= "link"@ + seq![' ']);
        assert(" iface="@ =~= seq![' '] + "iface="@);
        assert(line =~= "link "@ + tail);
        let rest = line.skip("link "@.len() as int);
        assert(line.take("link "@.len() as int) =~= "link "@);
        assert(rest =~= tail);
        assert(rest[0] == 'i');
        if text::begins(rest, "gone "@) {
            assert(rest.take("gone "@.len() as int)[0] == rest[0]);
        }
    }
}

proof fn lemma_first_blank(name: Seq<char>, flags: Seq<char>)
    requires
        forall|i: int| 0 <= i < name.len() ==> name[i] != ' ',
    ensures
        text::next_cut(name + seq![' '] + flags, Sep::Is(' '), 0) == name.len(),
{
    let said = name + seq![' '] + flags;
    text::lemma_next_cut(said, Sep::Is(' '), 0);
    let c = text::next_cut(said, Sep::Is(' '), 0);
    assert(said[name.len() as int] == ' ');
    if c < name.len() {
        assert(said[c] == name[c]);
    }
    if c > name.len() {
        assert(!text::cuts(Sep::Is(' '), said[name.len() as int]));
    }
}

/// What a window tells is what the counters moved by: added to the counters of its start it gives
/// those of its end, and a counter that went back tells nothing. Its peak is what was sampled
/// since the window before, in whole kibibytes, and the next one starts from nothing.
pub proof fn windows_add_up(p: &mut WireProbe, now: WireCounters, w: WireWindow)
    requires
        call_ensures(WireProbe::window, (p, now), w),
    ensures
        now.tx_dropped >= old(p).last.tx_dropped ==> old(p).last.tx_dropped + w.tx_dropped
            == now.tx_dropped,
        now.tx_errors >= old(p).last.tx_errors ==> old(p).last.tx_errors + w.tx_errors
            == now.tx_errors,
        now.carrier_changes >= old(p).last.carrier_changes ==> old(p).last.carrier_changes
            + w.carrier_changes == now.carrier_changes,
        now.udp_sndbuf_errors >= old(p).last.udp_sndbuf_errors ==> old(p).last.udp_sndbuf_errors
            + w.udp_sndbuf_errors == now.udp_sndbuf_errors,
        now.tx_dropped < old(p).last.tx_dropped ==> w.tx_dropped == 0,
        now.tx_errors < old(p).last.tx_errors ==> w.tx_errors == 0,
        now.carrier_changes < old(p).last.carrier_changes ==> w.carrier_changes == 0,
        now.udp_sndbuf_errors < old(p).last.udp_sndbuf_errors ==> w.udp_sndbuf_errors == 0,
        w.outq_max_kb * 1024 <= old(p).outq_max < (w.outq_max_kb + 1) * 1024,
        final(p).last == now,
        final(p).outq_max == 0,
{
}

/// The peak is never below a sample nor below what it was, and is one of the two.
pub proof fn the_peak_is_the_highest_sample(p: &mut WireProbe, queued: Option<i32>)
    requires
        call_ensures(WireProbe::sample, (p, queued), ()),
    ensures
        final(p).outq_max >= old(p).outq_max,
        queued matches Some(n) ==> final(p).outq_max >= n,
        final(p).outq_max == old(p).outq_max || (queued matches Some(n) && final(p).outq_max == n),
        final(p).last == old(p).last,
{
}

/// A probe that was just made has seen nothing.
pub proof fn a_new_probe_has_seen_nothing(
    c: WireCounters,
    made: WireProbe,
    p: &mut WireProbe,
    w: WireWindow,
    d: WireWindow,
)
    requires
        call_ensures(WireProbe::new, (c,), made),
        *old(p) == made,
        call_ensures(WireProbe::window, (p, c), w),
        call_ensures(WireWindow::default, (), d),
    ensures
        w.tx_dropped == 0 && w.tx_errors == 0 && w.carrier_changes == 0 && w.udp_sndbuf_errors == 0,
        w.outq_max_kb == 0,
        d == w,
{
}

/// A counter file gives back the number that was written to it, whatever blanks stand around it;
/// one that is missing counts nothing.
pub proof fn a_counter_is_read_as_written(
    n: u64,
    written: String,
    contents: &str,
    r: u64,
    none: u64,
)
    requires
        call_ensures(text::decimal_u64, (n,), written),
        contents@ == written@ + seq!['\n'],
        call_ensures(sys_u64, (Some(contents),), r),
        call_ensures(sys_u64, (None::<&str>,), none),
    ensures
        r == n,
        none == 0,
{
    text::a_written_number_reads_back(n as nat, u64::MAX as nat);
    text::a_number_is_left_by_a_trim(n as nat);
}

/// The errors are those of the column `SndbufErrors` in the second row of the UDP table.
pub proof fn the_errors_stand_under_their_name(
    snmp: &str,
    r: u64,
    names: Seq<char>,
    values: Seq<char>,
    i: int,
    n: u64,
    word: String,
)
    requires
        call_ensures(udp_sndbuf_errors, (Some(snmp),), r),
        text::lines_of(snmp@) == seq![names, values],
        text::begins(names, "Udp:"@),
        text::begins(values, "Udp:"@),
        0 <= i < text::words(names).len(),
        i < text::words(values).len(),
        text::words(names)[i] == "SndbufErrors"@,
        forall|k: int| 0 <= k < i ==> #[trigger] text::words(names)[k] != "SndbufErrors"@,
        call_ensures(text::decimal_u64, (n,), word),
        text::words(values)[i] == word@,
    ensures
        r == n,
{
    let lines = text::lines_of(snmp@);
    let udp = |l: Seq<char>| text::begins(l, "Udp:"@);
    reveal_with_fuel(Seq::filter, 3);
    assert(lines.drop_last() =~= seq![names]);
    assert(lines.drop_last().drop_last() =~= Seq::<Seq<char>>::empty());
    assert(udp_rows(lines) =~= seq![names, values]);
    lemma_word_at(text::words(names), "SndbufErrors"@, 0, i);
    text::a_written_number_reads_back(n as nat, u64::MAX as nat);
}

proof fn lemma_word_at(words: Seq<Seq<char>>, word: Seq<char>, k: int, i: int)
    requires
        0 <= k <= i < words.len(),
        words[i] == word,
        forall|j: int| k <= j < i ==> #[trigger] words[j] != word,
    ensures
        word_at(words, word, k) == i,
    decreases i - k,
{
    if k < i {
        lemma_word_at(words, word, k + 1, i);
    }
}

/// The octets of an address, put back together, are the address; they are written apart by dots,
/// highest first.
pub proof fn octets_make_the_address(
    ip: u32,
    r: Ipv4,
    s: String,
    a: String,
    b: String,
    c: String,
    d: String,
)
    requires
        call_ensures(Ipv4::from_u32, (ip,), r),
        call_ensures(Ipv4::text, (&r,), s),
        call_ensures(text::decimal_u64, (r.a as u64,), a),
        call_ensures(text::decimal_u64, (r.b as u64,), b),
        call_ensures(text::decimal_u64, (r.c as u64,), c),
        call_ensures(text::decimal_u64, (r.d as u64,), d),
    ensures
        r.a * 0x100_0000 + r.b * 0x1_0000 + r.c * 0x100 + r.d == ip,
        s@ == a@ + seq!['.'] + b@ + seq!['.'] + c@ + seq!['.'] + d@,
{
    reveal_strlit(".");
    assert("."@ =~= seq!['.']);
}

/// The interface of a socket is one that holds its address, the first such; there is none only
/// where none holds it.
pub proof fn an_interface_holds_its_address(list: &Vec<IfEntry>, ip: HostIp, name: Option<String>)
    requires
        call_ensures(iface_for, (list, ip), name),
    ensures
        name matches Some(n) ==> exists|i: int|
            0 <= i < list@.len() && (#[trigger] list@[i]).name@ == n@ && holds_ip(list@[i].addr, ip)
                && forall|k: int|
                0 <= k < i ==> !holds_ip((#[trigger] list@[k]).addr, ip),
        name is None ==> forall|i: int|
            0 <= i < list@.len() ==> !holds_ip((#[trigger] list@[i]).addr, ip),
{
    lemma_holder(list@, ip, 0);
}

/// An interface's address is the socket's.
pub open spec fn holds_ip(a: IfAddr, ip: HostIp) -> bool {
    match (a, ip) {
        (IfAddr::V4(v), HostIp::V4(n)) => v.ip == n,
        (IfAddr::V6(x), HostIp::V6(n)) => x == n,
        _ => false,
    }
}

proof fn lemma_holder(list: Seq<IfEntry>, ip: HostIp, k: int)
    requires
        0 <= k <= list.len(),
    ensures
        holder(list, ip, k) matches Some(n) ==> exists|i: int|
            k <= i < list.len() && (#[trigger] list[i]).name@ == n && holds_ip(list[i].addr, ip)
                && forall|j: int| k <= j < i ==> !holds_ip((#[trigger] list[j]).addr, ip),
        holder(list, ip, k) is None ==> forall|i: int|
            k <= i < list.len() ==> !holds_ip((#[trigger] list[i]).addr, ip),
    decreases list.len() - k,
{
    if k < list.len() {
        assert(holds_ip(list[k].addr, ip) == (list[k].addr.host() == ip));
        if list[k].addr.host() == ip {
            assert(list[k].name@ == holder(list, ip, k)->0);
        } else {
            lemma_holder(list, ip, k + 1);
            if let Some(n) = holder(list, ip, k + 1) {
                let i = choose|i: int|
                    k + 1 <= i < list.len() && (#[trigger] list[i]).name@ == n && holds_ip(
                        list[i].addr,
                        ip,
                    ) && forall|j: int| k + 1 <= j < i ==> !holds_ip((#[trigger] list[j]).addr, ip);
                assert(list[i].name@ == n);
            }
        }
    }
}

/// An entry is an IPv4 address off the loopback.
pub open spec fn is_v4(e: IfEntry, name: Seq<char>, v: V4) -> bool {
    !e.loopback && e.name@ == name && e.addr == IfAddr::V4(v)
}

/// A warning is of two different addresses that one interface holds with one mask and one subnet;
/// and every address that has such another is warned of.
pub proof fn a_warning_is_of_two_addresses(list: &Vec<IfEntry>, r: AddressReport, x: V4, y: V4)
    requires
        call_ensures(log_addresses, (list,), r),
    ensures
        forall|t: int| 0 <= t < r.twins@.len() ==> clashes(list@, (#[trigger] r.twins@[t])@),
        forall|i: int, j: int|
            0 <= i < list@.len() && 0 <= j < list@.len() && is_v4(
                #[trigger] list@[i],
                list@[i].name@,
                x,
            ) && is_v4(#[trigger] list@[j], list@[i].name@, y) && x.ip != y.ip && x.netmask
                == y.netmask && (x.ip & x.netmask) == (y.ip & y.netmask) ==> exists|t: int|
                0 <= t < r.twins@.len() && (#[trigger] r.twins@[t]).iface@ == list@[i].name@
                    && r.twins@[t].a == Ipv4::of(x.ip),
{
    let s = by_name(list@);
    let n = s.len() as int;
    lemma_by_name(list@);
    let w = warnings(s, n);
    lemma_warnings(s, n);
    assert(w.len() == r.twins@.len());
    assert forall|t: int| 0 <= t < r.twins@.len() implies clashes(
        list@,
        (#[trigger] r.twins@[t])@,
    ) by {
        assert(w[t] == r.twins@[t]@);
        let (p, q) = choose|p: int, q: int|
            0 <= p < n && 0 <= q < n && twins(#[trigger] s[p], #[trigger] s[q]) && w[t].iface
                == s[p].name && w[t].a == Ipv4::of(s[p].v4.ip) && w[t].b == Ipv4::of(s[q].v4.ip);
        assert(s.contains(s[p]) && s.contains(s[q]));
        let i = choose|i: int|
            0 <= i < list@.len() && is_v4(#[trigger] list@[i], s[p].name, s[p].v4);
        let j = choose|j: int|
            0 <= j < list@.len() && is_v4(#[trigger] list@[j], s[q].name, s[q].v4);
        assert(clash(list@[i], list@[j], r.twins@[t]@));
    }
    assert forall|i: int, j: int|
        0 <= i < list@.len() && 0 <= j < list@.len() && is_v4(
            #[trigger] list@[i],
            list@[i].name@,
            x,
        ) && is_v4(#[trigger] list@[j], list@[i].name@, y) && x.ip != y.ip && x.netmask == y.netmask
            && (x.ip & x.netmask) == (y.ip & y.netmask) implies exists|t: int|
        0 <= t < r.twins@.len() && (#[trigger] r.twins@[t]).iface@ == list@[i].name@
            && r.twins@[t].a == Ipv4::of(x.ip) by {
        let a = NamedV4View { name: list@[i].name@, v4: x };
        let b = NamedV4View { name: list@[i].name@, v4: y };
        assert(s.contains(a) && s.contains(b));
        let p = choose|p: int| 0 <= p < n && s[p] == a;
        let q = choose|q: int| 0 <= q < n && s[q] == b;
        assert(twins(s[p], s[q]));
        let t = choose|t: int|
            0 <= t < w.len() && (#[trigger] w[t]).iface == s[p].name && w[t].a == Ipv4::of(
                s[p].v4.ip,
            );
        assert(w[t] == r.twins@[t]@);
        assert(r.twins@[t].iface@ == list@[i].name@);
    }
}

/// Two entries of a list are the two addresses of a warning.
pub open spec fn clashes(list: Seq<IfEntry>, w: TwinView) -> bool {
    exists|i: int, j: int|
        0 <= i < list.len() && 0 <= j < list.len() && clash(
            #[trigger] list[i],
            #[trigger] list[j],
            w,
        )
}

/// Two entries are the two addresses of a warning.
pub open spec fn clash(e: IfEntry, f: IfEntry, w: TwinView) -> bool {
    match (e.addr, f.addr) {
        (IfAddr::V4(x), IfAddr::V4(y)) => {
            &&& !e.loopback && !f.loopback
            &&& e.name@ == w.iface && f.name@ == w.iface
            &&& x.ip != y.ip && x.netmask == y.netmask
            &&& (x.ip & x.netmask) == (y.ip & y.netmask)
            &&& w.a == Ipv4::of(x.ip) && w.b == Ipv4::of(y.ip)
        },
        _ => false,
    }
}

proof fn lemma_placed_holds(s: Seq<NamedV4View>, m: NamedV4View, x: NamedV4View)
    ensures
        placed(s, m).contains(x) <==> s.contains(x) || x == m,
        placed(s, m).len() == s.len() + 1,
    decreases s.len(),
{
    if s.len() == 0 || !text::precedes(m.name, s.last().name) {
        let p = s.push(m);
        assert(p[s.len() as int] == m);
        if s.contains(x) {
            let i = choose|i: int| 0 <= i < s.len() && s[i] == x;
            assert(p[i] == x);
        }
        if p.contains(x) {
            let i = choose|i: int| 0 <= i < p.len() && p[i] == x;
            if i < s.len() {
                assert(s[i] == x);
            }
        }
    } else {
        let d = s.drop_last();
        lemma_placed_holds(d, m, x);
        let q = placed(d, m);
        let p = q.push(s.last());
        assert(p[q.len() as int] == s.last());
        if q.contains(x) {
            let i = choose|i: int| 0 <= i < q.len() && q[i] == x;
            assert(p[i] == x);
        }
        if p.contains(x) {
            let i = choose|i: int| 0 <= i < p.len() && p[i] == x;
            if i < q.len() {
                assert(q[i] == x);
            } else {
                assert(s[s.len() - 1] == x);
            }
        }
        if s.contains(x) {
            let i = choose|i: int| 0 <= i < s.len() && s[i] == x;
            if i < d.len() {
                assert(d[i] == x);
            }
        }
        if d.contains(x) {
            let i = choose|i: int| 0 <= i < d.len() && d[i] == x;
            assert(s[i] == x);
        }
    }
}

proof fn lemma_by_name(list: Seq<IfEntry>)
    ensures
        forall|x: NamedV4View| #[trigger]
            by_name(list).contains(x) <==> exists|i: int|
                0 <= i < list.len() && is_v4(#[trigger] list[i], x.name, x.v4),
    decreases list.len(),
{
    if list.len() > 0 {
        let d = list.drop_last();
        let last = list.last();
        lemma_by_name(d);
        assert forall|x: NamedV4View| #[trigger]
            by_name(list).contains(x) <==> exists|i: int|
                0 <= i < list.len() && is_v4(#[trigger] list[i], x.name, x.v4) by {
            if let IfAddr::V4(v) = last.addr {
                if !last.loopback {
                    lemma_placed_holds(by_name(d), NamedV4View { name: last.name@, v4: v }, x);
                }
            }
            if by_name(d).contains(x) {
                let i = choose|i: int| 0 <= i < d.len() && is_v4(#[trigger] d[i], x.name, x.v4);
                assert(list[i] == d[i]);
            }
            if exists|i: int| 0 <= i < list.len() && is_v4(#[trigger] list[i], x.name, x.v4) {
                let i = choose|i: int|
                    0 <= i < list.len() && is_v4(#[trigger] list[i], x.name, x.v4);
                if i < d.len() {
                    assert(d[i] == list[i]);
                    assert(is_v4(d[i], x.name, x.v4));
                } else {
                    assert(list[i] == last);
                    assert(x =~= NamedV4View { name: last.name@, v4: x.v4 });
                }
            }
            if by_name(list).contains(x) && !by_name(d).contains(x) {
                assert(is_v4(list[list.len() - 1], x.name, x.v4));
            }
        }
    }
}

proof fn lemma_twin_of(s: Seq<NamedV4View>, x: NamedV4View, k: int)
    requires
        0 <= k <= s.len(),
    ensures
        twin_of(s, x, k) matches Some(t) ==> exists|q: int|
            k <= q < s.len() && #[trigger] s[q] == t && twins(x, s[q]),
        twin_of(s, x, k) is None ==> forall|q: int| k <= q < s.len() ==> !twins(x, #[trigger] s[q]),
    decreases s.len() - k,
{
    if k < s.len() {
        if twins(x, s[k]) {
            assert(s[k] == twin_of(s, x, k)->0);
        } else {
            lemma_twin_of(s, x, k + 1);
            if let Some(t) = twin_of(s, x, k + 1) {
                let q = choose|q: int|
                    k + 1 <= q < s.len() && #[trigger] s[q] == t && twins(x, s[q]);
                assert(s[q] == t);
            }
        }
    }
}

proof fn lemma_warnings(s: Seq<NamedV4View>, n: int)
    requires
        0 <= n <= s.len(),
    ensures
        forall|t: int|
            0 <= t < warnings(s, n).len() ==> exists|p: int, q: int|
                0 <= p < s.len() && 0 <= q < s.len() && twins(#[trigger] s[p], #[trigger] s[q]) && (
                #[trigger] warnings(s, n)[t]).iface == s[p].name && warnings(s, n)[t].a == Ipv4::of(
                    s[p].v4.ip,
                ) && warnings(s, n)[t].b == Ipv4::of(s[q].v4.ip),
        forall|p: int, q: int|
            0 <= p < n && 0 <= q < s.len() && twins(#[trigger] s[p], #[trigger] s[q])
                ==> exists|t: int|
                0 <= t < warnings(s, n).len() && (#[trigger] warnings(s, n)[t]).iface == s[p].name
                    && warnings(s, n)[t].a == Ipv4::of(s[p].v4.ip),
    decreases n,
{
    if n > 0 {
        lemma_warnings(s, n - 1);
        lemma_twin_of(s, s[n - 1], 0);
        let w = warnings(s, n);
        let v = warnings(s, n - 1);
        assert forall|t: int| 0 <= t < w.len() implies exists|p: int, q: int|
            0 <= p < s.len() && 0 <= q < s.len() && twins(#[trigger] s[p], #[trigger] s[q]) && (
            #[trigger] w[t]).iface == s[p].name && w[t].a == Ipv4::of(s[p].v4.ip) && w[t].b
                == Ipv4::of(s[q].v4.ip) by {
            if t < v.len() {
                assert(w[t] == v[t]);
                let (p, q) = choose|p: int, q: int|
                    0 <= p < s.len() && 0 <= q < s.len() && twins(#[trigger] s[p], #[trigger] s[q])
                        && v[t].iface == s[p].name && v[t].a == Ipv4::of(s[p].v4.ip) && v[t].b
                        == Ipv4::of(s[q].v4.ip);
                assert(twins(s[p], s[q]));
            } else {
                let x = twin_of(s, s[n - 1], 0)->0;
                let q = choose|q: int|
                    0 <= q < s.len() && #[trigger] s[q] == x && twins(s[n - 1], s[q]);
                assert(twins(s[n - 1], s[q]));
            }
        }
        assert forall|p: int, q: int|
            0 <= p < n && 0 <= q < s.len() && twins(
                #[trigger] s[p],
                #[trigger] s[q],
            ) implies exists|t: int|
            0 <= t < w.len() && (#[trigger] w[t]).iface == s[p].name && w[t].a == Ipv4::of(
                s[p].v4.ip,
            ) by {
            if p < n - 1 {
                let t = choose|t: int|
                    0 <= t < v.len() && (#[trigger] v[t]).iface == s[p].name && v[t].a == Ipv4::of(
                        s[p].v4.ip,
                    );
                assert(w[t] == v[t]);
            } else {
                assert(w[v.len() as int].iface == s[p].name);
            }
        }
    }
}

/// An attribute is what its head says: type, and a payload of the length said less the head. What
/// follows it, from the next multiple of four, is read as if it stood alone.
pub proof fn attributes_follow_one_another<'a>(
    b: &'a [u8],
    out: Vec<Attr<'a>>,
    tail: &'a [u8],
    rest: Vec<Attr<'a>>,
    len: int,
    pad: int,
)
    requires
        call_ensures(attrs, (b, true), out),
        b@.len() >= 4,
        len == b@[0] + b@[1] * 256,
        4 <= len <= b@.len(),
        call_ensures(attrs, (tail, true), rest),
        0 <= pad < 4,
        (len + pad) % 4 == 0,
        tail@ == if len + pad < b@.len() {
            b@.skip(len + pad)
        } else {
            Seq::empty()
        },
    ensures
        out@.len() == rest@.len() + 1,
        out@[0].ty == b@[2] + b@[3] * 256,
        out@[0].value@ == b@.subrange(4, len),
        forall|k: int|
            0 <= k < rest@.len() ==> out@[k + 1].ty == (#[trigger] rest@[k]).ty && out@[k + 1].value@
                == rest@[k].value@,
{
    assert(nl_align(len) == len + pad);
    let at = next_record(len, b@.len() as int);
    assert(b@.skip(at) =~= tail@);
    assert(u16_at(b@, 0, true) == len);
    let o = attr_views(out@);
    let r = attr_views(rest@);
    assert(o.len() == out@.len() && r.len() == rest@.len());
    assert(o[0] == out@[0]@);
    assert forall|k: int| 0 <= k < rest@.len() implies out@[k + 1].ty == (#[trigger] rest@[k]).ty
        && out@[k + 1].value@ == rest@[k].value@ by {
        assert(o[k + 1] == r[k]);
        assert(o[k + 1] == out@[k + 1]@);
        assert(r[k] == rest@[k]@);
    }
}

/// What does not hold a whole attribute gives none.
pub proof fn a_cut_attribute_is_none<'a>(b: &'a [u8], out: Vec<Attr<'a>>)
    requires
        call_ensures(attrs, (b, true), out),
        b@.len() < 4 || b@[0] + b@[1] * 256 < 4 || b@[0] + b@[1] * 256 > b@.len(),
    ensures
        out@.len() == 0,
{
    assert(attr_views(out@).len() == out@.len());
}

/// A batch of two is read one after the other: a message whose length is a multiple of four, and
/// then the rest as if it stood alone.
pub proof fn messages_follow_one_another(
    b: &[u8],
    little: bool,
    out: Vec<NetEvent>,
    head: &[u8],
    first: Vec<NetEvent>,
    tail: &[u8],
    rest: Vec<NetEvent>,
)
    requires
        call_ensures(netlink_events, (b, little), out),
        call_ensures(netlink_events, (head, little), first),
        call_ensures(netlink_events, (tail, little), rest),
        b@ == head@ + tail@,
        head@.len() >= 16,
        head@.len() % 4 == 0,
        u32_at(head@, 0, little) == head@.len(),
    ensures
        out@ == first@ + rest@,
        first@.len() <= 1,
{
    let len = head@.len() as int;
    let bs = b@;
    assert(bs[0] == head@[0] && bs[1] == head@[1] && bs[2] == head@[2] && bs[3] == head@[3]);
    assert(bs[4] == head@[4] && bs[5] == head@[5]);
    assert(bs.subrange(16, len) =~= head@.subrange(16, len));
    assert(bs.skip(next_record(len, bs.len() as int)) =~= tail@);
    assert(head@.skip(next_record(len, len)) =~= Seq::<u8>::empty());
    assert(events_of(Seq::<u8>::empty(), little) =~= Seq::<NetEvent>::empty());
    let e = listed(event_of(u16_at(bs, 4, little), bs.subrange(16, len), little));
    assert(events_of(head@, little) =~= e);
}

/// A message about a link tells its number and its flags: up is the lowest bit, running and
/// carrier two others, and it is gone where the message says so. Too short a one tells nothing.
pub proof fn a_link_message_is_read(b: &[u8], out: Vec<NetEvent>)
    requires
        call_ensures(netlink_events, (b, true), out),
        b@.len() >= 16,
        b@[0] + b@[1] * 256 + b@[2] * 65536 + b@[3] * 16777216 == b@.len(),
        b@[4] == 16 || b@[4] == 17,
        b@[5] == 0,
    ensures
        b@.len() < 32 ==> out@.len() == 0,
        b@.len() >= 32 ==> out@.len() == 1 && (out@[0] matches NetEvent::Link {
            gone,
            index,
            up,
            running,
            carrier,
        } && {
            &&& gone == (b@[4] == 17)
            &&& b@[23] < 128 ==> index == b@[20] + b@[21] * 256 + b@[22] * 65536 + b@[23] * 16777216
            &&& up == (b@[24] % 2 == 1)
            &&& running == (b@[24] / 64 % 2 == 1)
            &&& carrier == (b@[26] % 2 == 1)
        }),
{
    lemma_one_message(b@);
    if b@.len() >= 32 {
        let body = b@.subrange(16, b@.len() as int);
        let flags = u32_at(body, 8, true);
        lemma_flag_bits(body[8], body[9], body[10], body[11], flags);
        let n = u32_at(body, 4, true);
        if b@[23] < 128 {
            assert(n < 0x8000_0000);
            assert(n < 0x8000_0000u32 ==> n as i32 == n) by (bit_vector);
        }
    }
}

proof fn lemma_flag_bits(a: u8, b: u8, c: u8, d: u8, flags: u32)
    requires
        flags == a + b * 256 + c * 65536 + d * 16777216,
    ensures
        (flags & 0x1 != 0) == (a % 2 == 1),
        (flags & 0x40 != 0) == (a / 64 % 2 == 1),
        (flags & 0x1_0000 != 0) == (c % 2 == 1),
{
    assert((flags & 0x1 != 0) == (a % 2 == 1) && (flags & 0x40 != 0) == (a / 64 % 2 == 1) && (flags
        & 0x1_0000 != 0) == (c % 2 == 1)) by (bit_vector)
        requires
            flags == a + b * 256 + c * 65536 + d * 16777216,
    ;
}

proof fn lemma_one_message(b: Seq<u8>)
    requires
        b.len() >= 16,
        b[0] + b[1] * 256 + b[2] * 65536 + b[3] * 16777216 == b.len(),
    ensures
        events_of(b, true) == listed(
            event_of(
                (b[4] + b[5] * 256) as u16,
                b.subrange(16, b.len() as int),
                true,
            ),
        ),
{
    let len = b.len() as int;
    assert(u32_at(b, 0, true) == len);
    assert(b.skip(next_record(len, len)) =~= Seq::<u8>::empty());
    assert(events_of(Seq::<u8>::empty(), true) =~= Seq::<NetEvent>::empty());
    let e = listed(event_of(u16_at(b, 4, true), b.subrange(16, len), true));
    assert(e + Seq::<NetEvent>::empty() =~= e);
}

/// A message about an address tells its interface, its prefix and the first address among its
/// attributes.
pub proof fn an_address_message_is_read<'a>(
    b: &[u8],
    out: Vec<NetEvent>,
    tail: &'a [u8],
    a: Vec<Attr<'a>>,
    k: int,
)
    requires
        call_ensures(netlink_events, (b, true), out),
        b@.len() >= 24,
        b@[0] + b@[1] * 256 + b@[2] * 65536 + b@[3] * 16777216 == b@.len(),
        b@[4] == 20 || b@[4] == 21,
        b@[5] == 0,
        tail@ == b@.skip(24),
        call_ensures(attrs, (tail, true), a),
        0 <= k <= a@.len(),
        forall|j: int|
            0 <= j < k ==> !(((#[trigger] a@[j]).ty == 1 || a@[j].ty == 2) && a@[j].value@.len() == 4),
        k < a@.len() ==> (a@[k].ty == 1 || a@[k].ty == 2) && a@[k].value@.len() == 4,
    ensures
        out@.len() == 1,
        out@[0] matches NetEvent::Address { gone, index, addr, prefix } && {
            &&& gone == (b@[4] == 21)
            &&& b@[23] < 128 ==> index == b@[20] + b@[21] * 256 + b@[22] * 65536 + b@[23] * 16777216
            &&& prefix == b@[17]
            &&& addr is Some <==> k < a@.len()
            &&& addr matches Some(x) ==> seq![x.a, x.b, x.c, x.d] == a@[k].value@
        },
{
    lemma_one_message(b@);
    let body = b@.subrange(16, b@.len() as int);
    assert(body.skip(8) =~= tail@);
    let v = attr_views(a@);
    assert(v.len() == a@.len());
    assert forall|j: int| 0 <= j < a@.len() implies (#[trigger] v[j]) == a@[j]@ by {}
    lemma_first_addr(v, 0, k);
    if k < a@.len() {
        assert(v[k] == a@[k]@);
        assert(seq![v[k].value[0], v[k].value[1], v[k].value[2], v[k].value[3]] =~= a@[k].value@);
    }
    let n = u32_at(body, 4, true);
    if b@[23] < 128 {
        assert(n < 0x8000_0000);
        assert(n < 0x8000_0000u32 ==> n as i32 == n) by (bit_vector);
    }
}

proof fn lemma_first_addr(a: Seq<AttrView>, j: int, k: int)
    requires
        0 <= j <= k <= a.len(),
        forall|i: int|
            j <= i < k ==> !(((#[trigger] a[i]).ty == 1 || a[i].ty == 2) && a[i].value.len() == 4),
        k < a.len() ==> (a[k].ty == 1 || a[k].ty == 2) && a[k].value.len() == 4,
    ensures
        first_addr(a, j) == if k < a.len() {
            Some(ipv4_at(a[k].value))
        } else {
            None
        },
    decreases k - j,
{
    if j < k {
        lemma_first_addr(a, j + 1, k);
    }
}

/// Only a route of the main table is told of: destination, gateway and interface by the types of
/// their attributes.
pub proof fn a_route_message_is_read<'a>(
    b: &[u8],
    out: Vec<NetEvent>,
    tail: &'a [u8],
    a: Vec<Attr<'a>>,
)
    requires
        call_ensures(netlink_events, (b, true), out),
        b@.len() >= 28,
        b@[0] + b@[1] * 256 + b@[2] * 65536 + b@[3] * 16777216 == b@.len(),
        b@[4] == 24 || b@[4] == 25,
        b@[5] == 0,
        tail@ == b@.skip(28),
        call_ensures(attrs, (tail, true), a),
    ensures
        b@[20] != 254 ==> out@.len() == 0,
        b@[20] == 254 ==> out@.len() == 1 && (out@[0] matches NetEvent::Route {
            gone,
            dst,
            dst_len,
            via,
            oif,
        } && {
            &&& gone == (b@[4] == 25)
            &&& dst_len == b@[17]
            &&& dst is None <==> no_word(a@, 1)
            &&& via is None <==> no_word(a@, 5)
            &&& oif is None <==> no_word(a@, 4)
            &&& dst matches Some(x) ==> is_word(a@, 1, seq![x.a, x.b, x.c, x.d])
            &&& via matches Some(x) ==> is_word(a@, 5, seq![x.a, x.b, x.c, x.d])
        }),
{
    lemma_one_message(b@);
    let body = b@.subrange(16, b@.len() as int);
    assert(body.skip(12) =~= tail@);
    let v = attr_views(a@);
    assert(v.len() == a@.len());
    lemma_last_word(a@, 1, v.len() as int);
    lemma_last_word(a@, 5, v.len() as int);
    lemma_last_word(a@, 4, v.len() as int);
}

/// No attribute of a type holds four bytes.
pub open spec fn no_word(a: Seq<Attr>, ty: u16) -> bool {
    forall|k: int| 0 <= k < a.len() ==> !((#[trigger] a[k]).ty == ty && a[k].value@.len() == 4)
}

/// An attribute of a type holds these four bytes.
pub open spec fn is_word(a: Seq<Attr>, ty: u16, w: Seq<u8>) -> bool {
    exists|k: int| 0 <= k < a.len() && (#[trigger] a[k]).ty == ty && a[k].value@ == w
}

proof fn lemma_last_word(a: Seq<Attr>, ty: u16, n: int)
    requires
        0 <= n <= a.len(),
    ensures
        last_word(attr_views(a), ty, n) is None <==> forall|k: int|
            0 <= k < n ==> !((#[trigger] a[k]).ty == ty && a[k].value@.len() == 4),
        last_word(attr_views(a), ty, n) matches Some(w) ==> w.len() == 4 && is_word(
            a,
            ty,
            seq![w[0], w[1], w[2], w[3]],
        ),
    decreases n,
{
    if n > 0 {
        lemma_last_word(a, ty, n - 1);
        let v = attr_views(a);
        assert(v[n - 1] == a[n - 1]@);
        if a[n - 1].ty == ty && a[n - 1].value@.len() == 4 {
            let w = a[n - 1].value@;
            assert(w =~= seq![w[0], w[1], w[2], w[3]]);
            assert(a[n - 1].value@ == seq![w[0], w[1], w[2], w[3]]);
        }
    }
}

/// No other message tells anything.
pub proof fn other_messages_tell_nothing(b: &[u8], out: Vec<NetEvent>)
    requires
        call_ensures(netlink_events, (b, true), out),
        b@.len() >= 16 ==> b@[0] + b@[1] * 256 + b@[2] * 65536 + b@[3] * 16777216 == b@.len() && (
        b@[5] != 0 || !(b@[4] == 16 || b@[4] == 17 || b@[4] == 20 || b@[4] == 21 || b@[4] == 24
            || b@[4] == 25)),
    ensures
        out@.len() == 0,
{
    if b@.len() >= 16 {
        lemma_one_message(b@);
    }
}

/// An interface goes by its name, and by its number where the name is not known.
pub proof fn an_interface_goes_by_its_name(
    index: i32,
    name: &str,
    s: String,
    bare: String,
    number: String,
)
    requires
        call_ensures(ifname, (index, Some(name)), s),
        call_ensures(ifname, (index, None::<&str>), bare),
        call_ensures(text::decimal_i32, (index,), number),
    ensures
        s@ == name@,
        bare@ == seq!['#'] + number@,
{
    reveal_strlit("#");
    assert("#"@ =~= seq!['#']);
}

/// A change is about the interface it names.
pub proof fn a_change_is_about_its_interface(e: &NetEvent, i: Option<i32>)
    requires
        call_ensures(NetEvent::index, (e,), i),
    ensures
        *e matches NetEvent::Link { index, .. } ==> i == Some(index),
        *e matches NetEvent::Address { index, .. } ==> i == Some(index),
        *e matches NetEvent::Route { oif, .. } ==> i == oif,
{
}

/// The line of an address names its interface, the address and the prefix, and says so when it
/// went.
pub proof fn an_address_line_tells_it_all(
    gone: bool,
    index: i32,
    a: Ipv4,
    prefix: u8,
    e: &NetEvent,
    name: &str,
    s: String,
    dotted: String,
    bits: String,
)
    requires
        *e == (NetEvent::Address { gone, index, addr: Some(a), prefix }),
        call_ensures(NetEvent::line, (e, Some(name)), s),
        call_ensures(Ipv4::text, (&a,), dotted),
        call_ensures(text::decimal_u64, (prefix as u64,), bits),
    ensures
        gone ==> s@ == "address gone iface="@ + name@ + " addr="@ + dotted@ + "/"@ + bits@,
        !gone ==> s@ == "address iface="@ + name@ + " addr="@ + dotted@ + "/"@ + bits@,
{
    reveal_strlit("address gone iface=");
    reveal_strlit("address iface=");
    reveal_strlit("address gone");
    reveal_strlit("address");
    reveal_strlit(" iface=");
    assert("address gone iface="@ =~= "address gone"@ + " iface="@);
    assert("address iface="@ =~= "address"@ + " iface="@);
}

/// The line of a route names its destination, its gateway and its interface; without a
/// destination it is the default one.
pub proof fn a_route_line_tells_it_all(
    gone: bool,
    d: Ipv4,
    len: u8,
    g: Ipv4,
    i: i32,
    e: &NetEvent,
    f: &NetEvent,
    name: &str,
    s: String,
    t: String,
    dst: String,
    bits: String,
    via: String,
)
    requires
        *e == (NetEvent::Route { gone, dst: Some(d), dst_len: len, via: Some(g), oif: Some(i) }),
        *f == (NetEvent::Route { gone, dst: None, dst_len: len, via: Some(g), oif: Some(i) }),
        call_ensures(NetEvent::line, (e, Some(name)), s),
        call_ensures(NetEvent::line, (f, Some(name)), t),
        call_ensures(Ipv4::text, (&d,), dst),
        call_ensures(Ipv4::text, (&g,), via),
        call_ensures(text::decimal_u64, (len as u64,), bits),
    ensures
        gone ==> s@ == "route gone dst="@ + dst@ + "/"@ + bits@ + " via="@ + via@ + " iface="@
            + name@,
        !gone ==> s@ == "route dst="@ + dst@ + "/"@ + bits@ + " via="@ + via@ + " iface="@ + name@,
        gone ==> t@ == "route gone dst="@ + "default"@ + " via="@ + via@ + " iface="@ + name@,
        !gone ==> t@ == "route dst="@ + "default"@ + " via="@ + via@ + " iface="@ + name@,
{
    reveal_strlit("route gone dst=");
    reveal_strlit("route dst=");
    reveal_strlit("route gone");
    reveal_strlit("route");
    reveal_strlit(" dst=");
    assert("route gone dst="@ =~= "route gone"@ + " dst="@);
    assert("route dst="@ =~= "route"@ + " dst="@);
}

/// A link that says the same twice is news once: the line of a link, heard again at once, is not
/// news, and heard after the link went it is again.
pub proof fn a_link_is_told_once(
    d: &mut LinkDedupe,
    e: &NetEvent,
    name: &str,
    line: String,
    told: &str,
    first: bool,
    next: &mut LinkDedupe,
    again: bool,
)
    requires
        *e matches NetEvent::Link { gone, .. } && !gone,
        forall|i: int| 0 <= i < name@.len() ==> name@[i] != ' ',
        call_ensures(NetEvent::line, (e, Some(name)), line),
        told@ == line@,
        call_ensures(LinkDedupe::is_news, (d, told), first),
        *old(next) == *final(d),
        call_ensures(LinkDedupe::is_news, (next, told), again),
    ensures
        !again,
{
    a_link_line_reads_back(*e, name@);
    a_repeat_is_not_news(*old(d), told@, *final(d));
}

/// A link whose flags moved is news, and so is one that came back.
pub proof fn a_move_of_a_link_is_news(
    d: &mut LinkDedupe,
    was: &NetEvent,
    now: &NetEvent,
    name: &str,
    a: String,
    b: String,
    x: &str,
    y: &str,
    first: bool,
    next: &mut LinkDedupe,
    news: bool,
)
    requires
        was is Link && now is Link,
        !now->Link_gone,
        was->Link_gone || was->up != now->up || was->running != now->running || was->carrier
            != now->carrier,
        forall|i: int| 0 <= i < name@.len() ==> name@[i] != ' ',
        call_ensures(NetEvent::line, (was, Some(name)), a),
        call_ensures(NetEvent::line, (now, Some(name)), b),
        x@ == a@,
        y@ == b@,
        call_ensures(LinkDedupe::is_news, (d, x), first),
        *old(next) == *final(d),
        call_ensures(LinkDedupe::is_news, (next, y), news),
    ensures
        news,
{
    a_link_line_reads_back(*was, name@);
    a_link_line_reads_back(*now, name@);
    assert(final(d).flags_of(name@) == if was->Link_gone {
        None
    } else {
        Some(link_note(x@)->Flags_1)
    });
    if !was->Link_gone {
        lemma_flags_apart(
            was->up,
            was->running,
            was->carrier,
            now->up,
            now->running,
            now->carrier,
        );
    }
}

proof fn lemma_flags_apart(a: bool, b: bool, c: bool, x: bool, y: bool, z: bool)
    requires
        a != x || b != y || c != z,
    ensures
        "up="@ + flag_word(a) + " running="@ + flag_word(b) + " carrier="@ + flag_word(c) != "up="@
            + flag_word(x) + " running="@ + flag_word(y) + " carrier="@ + flag_word(z),
{
    reveal_strlit("true");
    reveal_strlit("false");
    reveal_strlit("up=");
    reveal_strlit(" running=");
    reveal_strlit(" carrier=");
    let s = "up="@ + flag_word(a) + " running="@ + flag_word(b) + " carrier="@ + flag_word(c);
    let t = "up="@ + flag_word(x) + " running="@ + flag_word(y) + " carrier="@ + flag_word(z);
    assert(s[3] == if a {
        't'
    } else {
        'f'
    });
    assert(t[3] == if x {
        't'
    } else {
        'f'
    });
    if a == x {
        let p = 3 + flag_word(a).len() + 9;
        assert(s[p as int] == if b {
            't'
        } else {
            'f'
        });
        assert(t[p as int] == if y {
            't'
        } else {
            'f'
        });
        if b == y {
            let q = p + flag_word(b).len() + 9;
            assert(s[q as int] == if c {
                't'
            } else {
                'f'
            });
            assert(t[q as int] == if z {
                't'
            } else {
                'f'
            });
        }
    }
}

/// A line that is not of a link always passes and changes nothing that is known.
pub proof fn only_links_are_folded(d: &mut LinkDedupe, line: &str, news: bool, n: Seq<char>)
    requires
        call_ensures(LinkDedupe::is_news, (d, line), news),
        !text::begins(line@, "link "@),
    ensures
        news,
        final(d).flags_of(n) == old(d).flags_of(n),
{
}

/// A minute tells at most twenty lines; what it leaves out is counted by why, and every line is
/// told or counted once.
pub proof fn a_minute_tells_twenty_lines(w: &mut RouteWatch, line: &str, f: LineFate)
    requires
        call_ensures(RouteWatch::on_line, (w, line), f),
        old(w).wf(),
    ensures
        f == LineFate::Told ==> old(w).spent < 20 && final(w).spent == old(w).spent + 1,
        f != LineFate::Told ==> final(w).spent == old(w).spent,
        f == LineFate::Suppressed ==> old(w).spent >= 20,
        final(w).spent <= 20,
        final(w).spent + final(w).left_out.suppressed + final(w).left_out.repeats == old(w).spent
            + old(w).left_out.suppressed + old(w).left_out.repeats + 1,
        f == LineFate::Suppressed <==> final(w).left_out.suppressed == old(w).left_out.suppressed
            + 1,
        f == LineFate::Repeat <==> final(w).left_out.repeats == old(w).left_out.repeats + 1,
        !text::begins(line@, "link "@) ==> f != LineFate::Repeat,
        final(w).minute_ns == old(w).minute_ns,
{
}

/// A link's line right after itself is a repeat, whatever is left of the budget.
pub proof fn a_repeat_is_only_counted(
    w: &mut RouteWatch,
    e: &NetEvent,
    name: &str,
    text: String,
    line: &str,
    first: LineFate,
    next: &mut RouteWatch,
    again: LineFate,
)
    requires
        *e matches NetEvent::Link { gone, .. } && !gone,
        forall|i: int| 0 <= i < name@.len() ==> name@[i] != ' ',
        call_ensures(NetEvent::line, (e, Some(name)), text),
        line@ == text@,
        call_ensures(RouteWatch::on_line, (w, line), first),
        *old(next) == *final(w),
        call_ensures(RouteWatch::on_line, (next, line), again),
    ensures
        again == LineFate::Repeat,
{
    a_link_line_reads_back(*e, name@);
    a_repeat_is_not_news(old(w).links, line@, final(w).links);
}

/// A minute lasts sixty seconds: before that nothing changes, then the budget is whole again and
/// what was left out is told once, if anything was.
pub proof fn a_minute_lasts_sixty_seconds(w: &mut RouteWatch, now_ns: u64, r: Option<LeftOut>)
    requires
        call_ensures(RouteWatch::tick, (w, now_ns), r),
    ensures
        now_ns < old(w).minute_ns + 60_000_000_000 ==> r is None && *final(w) == *old(w),
        now_ns >= old(w).minute_ns + 60_000_000_000 ==> {
            &&& final(w).spent == 0 && final(w).minute_ns == now_ns
            &&& final(w).left_out.suppressed == 0 && final(w).left_out.repeats == 0
            &&& r is Some <==> old(w).left_out.suppressed + old(w).left_out.repeats > 0
            &&& r matches Some(l) ==> l.suppressed == old(w).left_out.suppressed && l.repeats
                == old(w).left_out.repeats
        },
        final(w).links == old(w).links,
{
}

/// A watch that was just made has its whole budget and has left out nothing.
pub proof fn a_new_watch_is_whole(now_ns: u64, w: RouteWatch)
    requires
        call_ensures(RouteWatch::new, (now_ns,), w),
    ensures
        w.spent == 0 && w.minute_ns == now_ns,
        w.left_out.suppressed == 0 && w.left_out.repeats == 0,
{
}

} // verus!
