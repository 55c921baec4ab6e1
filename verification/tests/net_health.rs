use punktfunk::net_health::{
    attrs, ifname, iface_for, log_addresses, netlink_events, sys_u64, udp_sndbuf_errors, HostIp,
    IfAddr, IfEntry, Ipv4, LeftOut, LineFate, LinkDedupe, NetEvent, RouteWatch, WireCounters,
    WireProbe, WireWindow, BUDGET, IFA_ADDRESS, IFA_LOCAL, IFF_LOWER_UP, IFF_RUNNING, IFF_UP,
    MINUTE_NS, RTA_DST, RTA_GATEWAY, RTA_OIF, RTM_DELADDR, RTM_DELLINK, RTM_DELROUTE, RTM_NEWADDR,
    RTM_NEWLINK, RTM_NEWROUTE, RT_TABLE_MAIN, V4,
};

const LITTLE: bool = cfg_little();

const fn cfg_little() -> bool {
    1u16.to_ne_bytes()[0] == 1
}

fn aligned(n: usize) -> usize {
    (n + 3) & !3
}

fn msg(ty: u16, body: &[u8]) -> Vec<u8> {
    let len = (16 + body.len()) as u32;
    let mut m = len.to_ne_bytes().to_vec();
    m.extend_from_slice(&ty.to_ne_bytes());
    m.extend_from_slice(&[0; 10]);
    m.extend_from_slice(body);
    m.resize(aligned(m.len()), 0);
    m
}

fn attr(ty: u16, v: &[u8]) -> Vec<u8> {
    let mut a = ((4 + v.len()) as u16).to_ne_bytes().to_vec();
    a.extend_from_slice(&ty.to_ne_bytes());
    a.extend_from_slice(v);
    a.resize(aligned(a.len()), 0);
    a
}

/// The lines a batch is logged as; only the loopback has a name here.
fn lines(b: &[u8]) -> Vec<String> {
    netlink_events(b, LITTLE)
        .iter()
        .map(|e| {
            let known = if e.index() == Some(1) { Some("lo") } else { None };
            e.line(known)
        })
        .collect()
}

#[test]
fn an_address_add_names_the_address_and_prefix() {
    let mut body = vec![libc::AF_INET as u8, 24, 0, 0];
    body.extend_from_slice(&1i32.to_ne_bytes()); // lo: always index 1
    body.extend(attr(libc::IFA_LOCAL, &[192, 168, 178, 73]));
    let lines = lines(&msg(libc::RTM_NEWADDR, &body));
    assert_eq!(
        lines,
        vec!["address iface=lo addr=192.168.178.73/24".to_string()]
    );
}

#[test]
fn a_local_table_route_is_skipped_and_a_main_route_is_kept() {
    let mut local = vec![libc::AF_INET as u8, 32, 0, 0, 255, 0, 0, 0, 0, 0, 0, 0];
    local.extend(attr(libc::RTA_DST, &[192, 168, 178, 41]));
    let mut main = vec![
        libc::AF_INET as u8,
        0,
        0,
        0,
        libc::RT_TABLE_MAIN,
        0,
        0,
        0,
        0,
        0,
        0,
        0,
    ];
    main.extend(attr(libc::RTA_GATEWAY, &[192, 168, 178, 1]));
    let mut batch = msg(libc::RTM_NEWROUTE, &local);
    batch.extend(msg(libc::RTM_DELROUTE, &main));
    let lines = lines(&batch);
    assert_eq!(
        lines,
        vec!["route gone dst=default via=192.168.178.1".to_string()]
    );
}

const UP: u32 = libc::IFF_UP as u32;
const UP_RUNNING: u32 = UP | libc::IFF_RUNNING as u32 | libc::IFF_LOWER_UP as u32;

/// The line the watch would log, built by the parser itself: the dedupe keys off that exact
/// rendering.
fn link_line(ty: u16, index: i32, flags: u32) -> String {
    let mut body = vec![0u8; 16];
    body[4..8].copy_from_slice(&index.to_ne_bytes());
    body[8..12].copy_from_slice(&flags.to_ne_bytes());
    lines(&msg(ty, &body)).pop().expect("one link line")
}

#[test]
fn a_link_repeating_its_flags_is_logged_once() {
    let mut d = LinkDedupe::new();
    let line = link_line(libc::RTM_NEWLINK, 1, UP);
    assert_eq!(line, "link iface=lo up=true running=false carrier=false");
    assert!(d.is_news(&line));
    assert!(!d.is_news(&line));
}

#[test]
fn a_flag_move_and_the_move_back_both_log() {
    let mut d = LinkDedupe::new();
    assert!(d.is_news(&link_line(libc::RTM_NEWLINK, 1, UP)));
    assert!(d.is_news(&link_line(libc::RTM_NEWLINK, 1, UP_RUNNING)));
    // A carrier that returns is the news a carrier drop was.
    assert!(d.is_news(&link_line(libc::RTM_NEWLINK, 1, UP)));
}

#[test]
fn two_interfaces_keep_their_own_flags() {
    let mut d = LinkDedupe::new();
    assert!(d.is_news(&link_line(libc::RTM_NEWLINK, 1, UP)));
    assert!(d.is_news(&link_line(libc::RTM_NEWLINK, 9999, UP)));
    assert!(!d.is_news(&link_line(libc::RTM_NEWLINK, 1, UP)));
    assert!(!d.is_news(&link_line(libc::RTM_NEWLINK, 9999, UP)));
}

#[test]
fn a_link_that_went_away_logs_on_its_re_add() {
    let mut d = LinkDedupe::new();
    assert!(d.is_news(&link_line(libc::RTM_NEWLINK, 1, UP)));
    let gone = link_line(libc::RTM_DELLINK, 1, UP);
    assert_eq!(
        gone,
        "link gone iface=lo up=true running=false carrier=false"
    );
    assert!(d.is_news(&gone));
    assert!(d.is_news(&link_line(libc::RTM_NEWLINK, 1, UP)));
}

#[test]
fn address_and_route_lines_never_fold() {
    let mut d = LinkDedupe::new();
    let addr = "address iface=lo addr=192.168.178.73/24";
    assert!(d.is_news(addr));
    assert!(d.is_news(addr));
    let route = "route dst=default via=192.168.178.1 iface=lo";
    assert!(d.is_news(route));
    assert!(d.is_news(route));
}

#[test]
fn a_truncated_batch_stops_cleanly() {
    let mut m = msg(libc::RTM_NEWLINK, &[0; 16]);
    m.truncate(20);
    assert!(netlink_events(&m, LITTLE).is_empty());
}

#[test]
fn the_numbers_are_the_kernels() {
    assert_eq!(RTM_NEWLINK, libc::RTM_NEWLINK);
    assert_eq!(RTM_DELLINK, libc::RTM_DELLINK);
    assert_eq!(RTM_NEWADDR, libc::RTM_NEWADDR);
    assert_eq!(RTM_DELADDR, libc::RTM_DELADDR);
    assert_eq!(RTM_NEWROUTE, libc::RTM_NEWROUTE);
    assert_eq!(RTM_DELROUTE, libc::RTM_DELROUTE);
    assert_eq!(IFF_UP, libc::IFF_UP as u32);
    assert_eq!(IFF_RUNNING, libc::IFF_RUNNING as u32);
    assert_eq!(IFF_LOWER_UP, libc::IFF_LOWER_UP as u32);
    assert_eq!(IFA_ADDRESS, libc::IFA_ADDRESS);
    assert_eq!(IFA_LOCAL, libc::IFA_LOCAL);
    assert_eq!(RTA_DST, libc::RTA_DST);
    assert_eq!(RTA_OIF, libc::RTA_OIF);
    assert_eq!(RTA_GATEWAY, libc::RTA_GATEWAY);
    assert_eq!(RT_TABLE_MAIN, libc::RT_TABLE_MAIN);
}

#[test]
fn a_batch_reads_in_either_byte_order() {
    let mut m = 32u32.to_be_bytes().to_vec();
    m.extend_from_slice(&RTM_NEWLINK.to_be_bytes());
    m.extend_from_slice(&[0; 10]);
    let mut body = vec![0u8; 16];
    body[4..8].copy_from_slice(&7i32.to_be_bytes());
    body[8..12].copy_from_slice(&0x1_0041u32.to_be_bytes());
    m.extend_from_slice(&body);
    assert_eq!(
        netlink_events(&m, false),
        vec![NetEvent::Link {
            gone: false,
            index: 7,
            up: true,
            running: true,
            carrier: true,
        }]
    );
}

#[test]
fn attributes_stop_at_a_short_one() {
    let mut b = attr(5, &[1, 2, 3]);
    b.extend(attr(6, &[9]));
    b.extend_from_slice(&[2, 0, 7, 0]); // shorter than its own head
    b.extend(attr(8, &[1]));
    let got: Vec<(u16, Vec<u8>)> = attrs(&b, LITTLE)
        .iter()
        .map(|a| (a.ty, a.value.to_vec()))
        .collect();
    assert_eq!(got, vec![(5, vec![1, 2, 3]), (6, vec![9])]);
}

#[test]
fn a_route_names_its_parts() {
    let mut body = vec![libc::AF_INET as u8, 16, 0, 0, RT_TABLE_MAIN, 0, 0, 0, 0, 0, 0, 0];
    body.extend(attr(RTA_DST, &[10, 20, 0, 0]));
    body.extend(attr(RTA_OIF, &9999i32.to_ne_bytes()));
    assert_eq!(
        lines(&msg(RTM_NEWROUTE, &body)),
        vec!["route dst=10.20.0.0/16 iface=#9999".to_string()]
    );
    assert_eq!(ifname(3, Some("eth0")), "eth0");
    assert_eq!(ifname(3, None), "#3");
}

#[test]
fn a_minute_writes_its_budget_and_counts_the_rest() {
    let mut w = RouteWatch::new(0);
    for i in 0..BUDGET {
        assert_eq!(w.on_line(&format!("address iface=lo addr=10.0.0.{i}/8")), LineFate::Told);
    }
    assert_eq!(w.on_line("address iface=lo addr=10.1.0.1/8"), LineFate::Suppressed);
    assert_eq!(w.tick(MINUTE_NS - 1), None);
    assert_eq!(
        w.tick(MINUTE_NS),
        Some(LeftOut { suppressed: 1, repeats: 0 })
    );
    let line = link_line(RTM_NEWLINK, 1, UP);
    assert_eq!(w.on_line(&line), LineFate::Told);
    assert_eq!(w.on_line(&line), LineFate::Repeat);
    assert_eq!(
        w.tick(2 * MINUTE_NS),
        Some(LeftOut { suppressed: 0, repeats: 1 })
    );
    assert_eq!(w.tick(3 * MINUTE_NS), None);
}

#[test]
fn a_window_is_what_moved() {
    let c = |d, e, k, u| WireCounters {
        tx_dropped: d,
        tx_errors: e,
        carrier_changes: k,
        udp_sndbuf_errors: u,
    };
    let mut p = WireProbe::new(c(10, 1, 2, 3));
    p.sample(Some(4096));
    p.sample(Some(2048));
    p.sample(Some(-1));
    p.sample(None);
    assert_eq!(
        p.window(c(15, 0, 2, 4)),
        WireWindow {
            outq_max_kb: 4,
            tx_dropped: 5,
            tx_errors: 0,
            carrier_changes: 0,
            udp_sndbuf_errors: 1,
        }
    );
    assert_eq!(p.window(c(15, 0, 2, 4)), WireWindow::default());
}

#[test]
fn counters_read_as_the_kernel_writes_them() {
    assert_eq!(sys_u64(Some("1234\n")), 1234);
    assert_eq!(sys_u64(Some("n/a")), 0);
    assert_eq!(sys_u64(None), 0);
    let snmp = "Ip: Forwarding DefaultTTL\nIp: 1 64\n\
                Udp: InDatagrams NoPorts SndbufErrors\nUdp: 100 2 7\n\
                UdpLite: InDatagrams SndbufErrors\nUdpLite: 0 9\n";
    assert_eq!(udp_sndbuf_errors(Some(snmp)), 7);
    assert_eq!(udp_sndbuf_errors(Some("Udp: SndbufErrors\n")), 0);
    assert_eq!(udp_sndbuf_errors(None), 0);
}

fn entry(name: &str, ip: [u8; 4], prefixlen: u8) -> IfEntry {
    IfEntry {
        name: name.to_string(),
        addr: IfAddr::V4(V4 {
            ip: u32::from_be_bytes(ip),
            netmask: !0u32 << (32 - prefixlen),
            prefixlen,
        }),
        loopback: false,
    }
}

#[test]
fn twins_of_one_subnet_are_named() {
    let list = vec![
        entry("wlan0", [10, 0, 0, 5], 8),
        entry("eth0", [192, 168, 1, 20], 24),
        entry("eth0", [192, 168, 1, 30], 24),
        IfEntry {
            name: "eth0".to_string(),
            addr: IfAddr::V6(1),
            loopback: false,
        },
    ];
    let r = log_addresses(&list);
    assert_eq!(
        r.line,
        "eth0:192.168.1.20/24 eth0:192.168.1.30/24 wlan0:10.0.0.5/8"
    );
    assert_eq!(r.twins.len(), 2);
    assert_eq!(r.twins[0].iface, "eth0");
    assert_eq!(r.twins[0].a.text(), "192.168.1.20");
    assert_eq!(r.twins[0].b.text(), "192.168.1.30");
    assert_eq!(r.twins[1].a, Ipv4 { a: 192, b: 168, c: 1, d: 30 });
    assert_eq!(
        iface_for(&list, HostIp::V4(u32::from_be_bytes([10, 0, 0, 5]))),
        Some("wlan0".to_string())
    );
    assert_eq!(iface_for(&list, HostIp::V6(1)), Some("eth0".to_string()));
    assert_eq!(iface_for(&list, HostIp::V4(0)), None);
}
