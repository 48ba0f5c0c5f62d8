use tcptop::names::{ip_literal, resolved_or_literal, NameCache};
use tcptop::table::{packet_loss, SocketHistory, StatefulTable, HISTORY_RETENTION};
use tcptop::tcpdiag::{DiagWithInode, Endpoint, IpAddress, TCPInfo, AF_INET, AF_INET6};

fn v4(a: u8, b: u8, c: u8, d: u8) -> IpAddress {
    IpAddress { family: AF_INET, octets: vec![a, b, c, d] }
}

fn socket(inode: u32, sent: u64, received: u64) -> DiagWithInode {
    let mut info = TCPInfo::default();
    info.tcpi_state = 1;
    info.tcpi_bytes_sent = sent;
    info.tcpi_bytes_received = received;
    info.tcpi_snd_cwnd = 10;
    info.tcpi_total_retrans = 6;
    info.tcpi_data_segs_out = 3;
    DiagWithInode {
        family: AF_INET,
        src: Endpoint { ip: v4(10, 0, 0, 1), port: 443 },
        dst: Endpoint { ip: v4(192, 168, 1, 20), port: 51000 },
        state: 1,
        inode,
        info: Some(info),
    }
}

#[test]
fn first_sample_has_zero_rate() {
    let mut t = StatefulTable::new();
    let names = NameCache::new();
    let misses = t.refresh(vec![socket(7, 5_000_000, 9_000_000)], &names);
    assert_eq!(misses.len(), 2);
    let h = t.history_for(7).unwrap();
    assert_eq!(h.send_bps[0], 0);
    assert_eq!(h.recv_bps[0], 0);
    assert_eq!(t.items[0][3], "0 bps");
}

#[test]
fn rates_and_row_text() {
    let mut t = StatefulTable::new();
    let mut names = NameCache::new();
    names.record(&v4(10, 0, 0, 1), String::from("local.example"));
    t.refresh(vec![socket(7, 1000, 2000)], &names);
    let misses = t.refresh(vec![socket(7, 10_911, 2999)], &names);
    assert_eq!(misses.len(), 1);
    assert_eq!(misses[0].octets, vec![192, 168, 1, 20]);
    let row = &t.items[0];
    assert_eq!(row[0], "local.example:443");
    assert_eq!(row[1], "192.168.1.20:51000");
    assert_eq!(row[2], "ESTABLISHED");
    assert_eq!(row[3], "9.91 kbps");
    assert_eq!(row[4], "999 bps");
    assert_eq!(row[5], "2%");
    assert_eq!(t.history_for(7).unwrap().congestion_window[0], 10);
}

#[test]
fn reused_inode_gives_zero_rate() {
    let mut t = StatefulTable::new();
    let names = NameCache::new();
    t.refresh(vec![socket(3, 50_000, 50_000)], &names);
    t.refresh(vec![socket(3, 100, 200)], &names);
    let h = t.history_for(3).unwrap();
    assert_eq!(h.send_bps[0], 0);
    assert_eq!(h.recv_bps[0], 0);
}

#[test]
fn loss_without_segments_is_zero() {
    let mut info = TCPInfo::default();
    info.tcpi_total_retrans = 40;
    info.tcpi_data_segs_out = 0;
    assert_eq!(packet_loss(&info), 0);
    info.tcpi_data_segs_out = 7;
    assert_eq!(packet_loss(&info), 5);
}

#[test]
fn history_keeps_retention_window() {
    let mut t = StatefulTable::new();
    let names = NameCache::new();
    for k in 0..(HISTORY_RETENTION as u64 + 5) {
        t.refresh(vec![socket(9, 1000 * (k + 1), 0)], &names);
        assert!(t.history_for(9).unwrap().send_bytes.len() <= HISTORY_RETENTION);
    }
    let h = t.history_for(9).unwrap();
    assert_eq!(h.send_bytes.len(), HISTORY_RETENTION);
    assert_eq!(h.send_bytes[0], 1000 * (HISTORY_RETENTION as u64 + 5));
}

#[test]
fn seed_evicted_after_full_window() {
    let info = {
        let mut i = TCPInfo::default();
        i.tcpi_bytes_sent = 77;
        i
    };
    let mut h = SocketHistory::new(HISTORY_RETENTION, &info);
    for k in 0..HISTORY_RETENTION as u64 {
        let mut i = TCPInfo::default();
        i.tcpi_bytes_sent = 1000 + k;
        h.record(&i);
    }
    assert_eq!(h.send_bytes.len(), HISTORY_RETENTION);
    assert!(!h.send_bytes.contains(&77));
    assert_eq!(h.send_bytes[HISTORY_RETENTION - 1], 1000);
}

#[test]
fn selection_wraps() {
    let mut t = StatefulTable::new();
    t.next();
    assert_eq!(t.selected, None);
    t.previous();
    assert_eq!(t.selected, None);
    let names = NameCache::new();
    t.refresh(vec![socket(1, 0, 0), socket(2, 0, 0), socket(3, 0, 0)], &names);
    t.next();
    assert_eq!(t.selected, Some(0));
    t.previous();
    assert_eq!(t.selected, Some(2));
    t.next();
    assert_eq!(t.selected, Some(0));
    t.next();
    t.next();
    assert_eq!(t.selected, Some(2));
    t.next();
    assert_eq!(t.selected, Some(0));
    assert_eq!(t.socket_at(2).unwrap().inode, 3);
    assert!(t.socket_at(3).is_none());
    assert!(t.history_for(99).is_none());
}

#[test]
fn last_stored_name_wins() {
    let mut names = NameCache::new();
    let ip = v4(8, 8, 8, 8);
    assert!(names.lookup(&ip).is_none());
    names.record(&ip, String::from("first.example"));
    names.record(&ip, String::from("dns.example"));
    assert_eq!(names.lookup(&ip), Some(String::from("dns.example")));
    assert!(names.lookup(&v4(8, 8, 4, 4)).is_none());
}

#[test]
fn literal_addresses() {
    assert_eq!(ip_literal(&v4(127, 0, 0, 1)), "127.0.0.1");
    let mut o = vec![0u8; 16];
    o[0] = 0x20;
    o[1] = 0x01;
    o[2] = 0x0d;
    o[3] = 0xb8;
    o[15] = 1;
    let ip6 = IpAddress { family: AF_INET6, octets: o };
    assert_eq!(ip_literal(&ip6), "2001:db8::1");
    assert_eq!(resolved_or_literal(&ip6, None), "2001:db8::1");
    assert_eq!(resolved_or_literal(&ip6, Some(String::from("h.example"))), "h.example");
}

fn v6(groups: [u16; 8]) -> IpAddress {
    let mut octets = Vec::new();
    for g in groups.iter() {
        octets.push((g >> 8) as u8);
        octets.push((g & 0xff) as u8);
    }
    IpAddress { family: AF_INET6, octets }
}

#[test]
fn ipv6_standard_text() {
    assert_eq!(ip_literal(&v6([0, 0, 0, 0, 0, 0, 0, 1])), "::1");
    assert_eq!(ip_literal(&v6([0; 8])), "::");
    assert_eq!(ip_literal(&v6([1, 0, 0, 0, 0, 0, 0, 0])), "1::");
    assert_eq!(ip_literal(&v6([0, 0, 0, 0, 0, 0xffff, 0x0102, 0x0304])), "::ffff:1.2.3.4");
    assert_eq!(ip_literal(&v6([1, 0, 0, 1, 0, 0, 1, 1])), "1::1:0:0:1:1");
    assert_eq!(ip_literal(&v6([1, 0, 0, 1, 0, 0, 0, 1])), "1:0:0:1::1");
    assert_eq!(ip_literal(&v6([1, 0, 1, 1, 1, 1, 1, 1])), "1:0:1:1:1:1:1:1");
    assert_eq!(ip_literal(&v6([0xfe80, 0, 0, 0, 0xabcd, 0x12, 0, 0xffff])), "fe80::abcd:12:0:ffff");
}

#[test]
fn ipv4_and_mapped_form_cached_apart() {
    let mut names = NameCache::new();
    let mapped = v6([0, 0, 0, 0, 0, 0xffff, 0x0808, 0x0808]);
    names.record(&v4(8, 8, 8, 8), String::from("dns.example"));
    assert!(names.lookup(&mapped).is_none());
    names.record(&mapped, String::from("mapped.example"));
    assert_eq!(names.lookup(&v4(8, 8, 8, 8)), Some(String::from("dns.example")));
    assert_eq!(names.lookup(&mapped), Some(String::from("mapped.example")));
}
