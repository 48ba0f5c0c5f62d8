use tcptop::names::address_key;
use tcptop::tcpdiag::{encode_diag_msg, DiagWithInode, Endpoint, TCPInfo};
use tcptop::tcpdiag::{
    build_request, decode_diag_msg, parse_dump, DecodeError, DumpStatus, IpAddress, TCP_STATE, AF_INET,
    AF_INET6,
};

fn diag_message(family: u8, state: u8, tcpi_state: u8, with_info: bool) -> Vec<u8> {
    let mut m = vec![0u8; 72];
    m[0] = family;
    m[1] = state;
    m[4] = 0x01;
    m[5] = 0xbb;
    m[6] = 0xc7;
    m[7] = 0x38;
    m[8..12].copy_from_slice(&[10, 0, 0, 1]);
    m[24..28].copy_from_slice(&[192, 168, 1, 20]);
    m[68..72].copy_from_slice(&4242u32.to_le_bytes());
    if with_info {
        m.extend_from_slice(&220u16.to_le_bytes());
        m.extend_from_slice(&2u16.to_le_bytes());
        let mut info = vec![0u8; 216];
        info[0] = tcpi_state;
        info[80..84].copy_from_slice(&10u32.to_le_bytes());
        info[200..208].copy_from_slice(&123456789u64.to_le_bytes());
        m.extend_from_slice(&info);
    }
    m
}

fn netlink(kind: u16, payload: &[u8]) -> Vec<u8> {
    let mut b = Vec::new();
    b.extend_from_slice(&(16 + payload.len() as u32).to_le_bytes());
    b.extend_from_slice(&kind.to_le_bytes());
    b.extend_from_slice(&2u16.to_le_bytes());
    b.extend_from_slice(&0u32.to_le_bytes());
    b.extend_from_slice(&0u32.to_le_bytes());
    b.extend_from_slice(payload);
    while b.len() % 4 != 0 {
        b.push(0);
    }
    b
}

#[test]
fn state_codes() {
    assert_eq!(TCP_STATE::from_u8(1).to_string(), "ESTABLISHED");
    assert_eq!(TCP_STATE::from_u8(10).to_string(), "LISTEN");
    assert_eq!(TCP_STATE::from_u8(13).to_string(), "MAX_STATES");
    assert_eq!(TCP_STATE::from_u8(0).to_string(), "UNKNOWN");
    assert_eq!(TCP_STATE::from_u8(200).to_string(), "UNKNOWN");
}

#[test]
fn decodes_header_and_stats() {
    let d = decode_diag_msg(&diag_message(AF_INET, 1, 1, true)).ok().unwrap();
    assert_eq!(d.family, AF_INET);
    assert_eq!(d.src.port, 443);
    assert_eq!(d.dst.port, 51000);
    assert_eq!(d.src.ip.octets, vec![10, 0, 0, 1]);
    assert_eq!(d.dst.ip.octets, vec![192, 168, 1, 20]);
    assert_eq!(d.inode, 4242);
    let info = d.info.unwrap();
    assert_eq!(info.tcpi_snd_cwnd, 10);
    assert_eq!(info.tcpi_bytes_sent, 123456789);
}

#[test]
fn decodes_ipv6_address() {
    let d = decode_diag_msg(&diag_message(AF_INET6, 1, 1, false)).ok().unwrap();
    assert_eq!(d.src.ip.octets.len(), 16);
    assert!(d.info.is_none());
}

#[test]
fn rejects_bad_messages() {
    assert_eq!(decode_diag_msg(&[2u8; 10]).err(), Some(DecodeError::Truncated));
    assert_eq!(decode_diag_msg(&diag_message(7, 1, 1, true)).err(), Some(DecodeError::Family(7)));
}

#[test]
fn dump_drops_listeners_and_bare_records() {
    let mut b = netlink(20, &diag_message(AF_INET, 1, 1, true));
    b.extend(netlink(20, &diag_message(AF_INET, 10, 10, true)));
    b.extend(netlink(20, &diag_message(AF_INET, 1, 1, false)));
    b.extend(netlink(20, &diag_message(9, 1, 1, true)));
    b.extend(netlink(20, &diag_message(AF_INET, 6, 6, true)));
    let chunk = parse_dump(&b);
    assert_eq!(chunk.status, DumpStatus::More);
    assert_eq!(chunk.sockets.len(), 2);
    assert_eq!(chunk.sockets[0].info.unwrap().tcpi_state, 1);
    assert_eq!(chunk.sockets[1].info.unwrap().tcpi_state, 6);
}

#[test]
fn dump_end_and_error() {
    let mut b = netlink(20, &diag_message(AF_INET, 1, 1, true));
    b.extend(netlink(3, &[0, 0, 0, 0]));
    b.extend(netlink(20, &diag_message(AF_INET, 1, 1, true)));
    let chunk = parse_dump(&b);
    assert_eq!(chunk.status, DumpStatus::Done);
    assert_eq!(chunk.sockets.len(), 1);
    let e = netlink(2, &[0xf4, 0xff, 0xff, 0xff]);
    assert_eq!(parse_dump(&e).status, DumpStatus::Failed);
    assert_eq!(parse_dump(&[]).status, DumpStatus::More);
}

#[test]
fn request_layout() {
    let r = build_request(AF_INET, 7);
    assert_eq!(r.len(), 72);
    assert_eq!(&r[0..4], &72u32.to_le_bytes());
    assert_eq!(&r[4..6], &20u16.to_le_bytes());
    assert_eq!(&r[6..8], &0x301u16.to_le_bytes());
    assert_eq!(&r[8..12], &7u32.to_le_bytes());
    assert_eq!(&r[16..20], &[AF_INET, 6, 2, 0]);
    assert_eq!(&r[20..24], &[0xff; 4]);
    assert!(r[24..].iter().all(|b| *b == 0));
}

#[test]
fn address_keys() {
    let a = IpAddress { family: AF_INET, octets: vec![1, 2, 3, 4] };
    assert_eq!(address_key(&a), 0x0102_0304);
    let mut o = vec![0u8; 16];
    o[15] = 1;
    assert_eq!(address_key(&IpAddress { family: AF_INET6, octets: o }), 1);
}

#[test]
fn encode_then_decode() {
    let mut info = TCPInfo::default();
    info.tcpi_state = 8;
    info._bitfield_1 = 0x1234;
    info.tcpi_rtt = 0xdead_beef;
    info.tcpi_pacing_rate = 0x0102_0304_0506_0708;
    info.tcpi_bytes_retrains = u64::MAX;
    let mut src = vec![0u8; 16];
    src[0] = 0xfe;
    src[1] = 0x80;
    src[15] = 9;
    let d = DiagWithInode {
        family: AF_INET6,
        src: Endpoint { ip: IpAddress { family: AF_INET6, octets: src.clone() }, port: 0xabcd },
        dst: Endpoint { ip: IpAddress { family: AF_INET6, octets: vec![1u8; 16] }, port: 22 },
        state: 8,
        inode: 0x0a0b_0c0d,
        info: Some(info),
    };
    let bytes = encode_diag_msg(&d);
    assert_eq!(bytes.len(), 72 + 4 + 216);
    assert_eq!(&bytes[4..6], &[0xab, 0xcd]);
    let back = decode_diag_msg(&bytes).ok().unwrap();
    assert_eq!(back.family, AF_INET6);
    assert_eq!(back.state, 8);
    assert_eq!(back.src.port, 0xabcd);
    assert_eq!(back.dst.port, 22);
    assert_eq!(back.src.ip.octets, src);
    assert_eq!(back.dst.ip.octets, vec![1u8; 16]);
    assert_eq!(back.inode, 0x0a0b_0c0d);
    assert_eq!(back.info, Some(info));

    let v4 = DiagWithInode {
        family: AF_INET,
        src: Endpoint { ip: IpAddress { family: AF_INET, octets: vec![127, 0, 0, 1] }, port: 80 },
        dst: Endpoint { ip: IpAddress { family: AF_INET, octets: vec![10, 1, 2, 3] }, port: 1 },
        state: 1,
        inode: 5,
        info: None,
    };
    let back = decode_diag_msg(&encode_diag_msg(&v4)).ok().unwrap();
    assert_eq!(back.src.ip.octets, vec![127, 0, 0, 1]);
    assert_eq!(back.dst.ip.octets, vec![10, 1, 2, 3]);
    assert!(back.info.is_none());
}
