//! The kernel's inet socket-diagnostic exchange: the dump request, and the
//! response messages with their embedded TCP statistics.

use vstd::prelude::*;
use crate::names::pow256;

verus! {

/// Address family tag of IPv4.
pub const AF_INET: u8 = 2;
/// Address family tag of IPv6.
pub const AF_INET6: u8 = 10;
/// Kernel code of the LISTEN state.
pub const TCP_LISTEN: u8 = 10;
/// Length of the kernel's `tcp_info` record as laid out here.
pub const TCP_INFO_LEN: usize = 216;

/// Little-endian 16-bit value at `i`.
pub open spec fn le16(b: Seq<u8>, i: int) -> int {
    b[i] as int + b[i + 1] as int * 256
}

/// Little-endian 32-bit value at `i`.
pub open spec fn le32(b: Seq<u8>, i: int) -> int {
    le16(b, i) + le16(b, i + 2) * 65536
}

/// Little-endian 64-bit value at `i`.
pub open spec fn le64(b: Seq<u8>, i: int) -> int {
    le32(b, i) + le32(b, i + 4) * 4294967296
}

/// Big-endian (network order) 16-bit value at `i`.
pub open spec fn be16(b: Seq<u8>, i: int) -> int {
    b[i] as int * 256 + b[i + 1] as int
}

/// Reads a little-endian 16-bit value.
pub fn read_u16_le(b: &[u8], i: usize) -> (r: u16)
    requires
        i + 2 <= b@.len(),
    ensures
        r as int == le16(b@, i as int),
        r as nat == read_le(b@, i as int, 2),
{
    reveal_with_fuel(read_le, 3);
    b[i] as u16 + (b[i + 1] as u16) * 256
}

/// Reads a little-endian 32-bit value.
pub fn read_u32_le(b: &[u8], i: usize) -> (r: u32)
    requires
        i + 4 <= b@.len(),
    ensures
        r as int == le32(b@, i as int),
        r as nat == read_le(b@, i as int, 4),
{
    reveal_with_fuel(read_le, 5);
    let n = b.len();
    read_u16_le(b, i) as u32 + (read_u16_le(b, i + 2) as u32) * 65536
}

/// Reads a little-endian 64-bit value.
pub fn read_u64_le(b: &[u8], i: usize) -> (r: u64)
    requires
        i + 8 <= b@.len(),
    ensures
        r as int == le64(b@, i as int),
        r as nat == read_le(b@, i as int, 8),
{
    reveal_with_fuel(read_le, 9);
    let n = b.len();
    read_u32_le(b, i) as u64 + (read_u32_le(b, i + 4) as u64) * 4294967296
}

/// Reads a big-endian 16-bit value.
pub fn read_u16_be(b: &[u8], i: usize) -> (r: u16)
    requires
        i + 2 <= b@.len(),
    ensures
        r as int == be16(b@, i as int),
{
    (b[i] as u16) * 256 + b[i + 1] as u16
}

/// The TCP connection states that the kernel reports. Codes outside the
/// known range map to `UNKNOWN`.
#[allow(non_camel_case_types)]
pub enum TCP_STATE {
    UNKNOWN,
    ESTABLISHED,
    SYN_SENT,
    SYN_RECV,
    FIN_WAIT1,
    FIN_WAIT2,
    TIME_WAIT,
    CLOSE,
    CLOSE_WAIT,
    LAST_ACK,
    LISTEN,
    CLOSING,
    NEW_SYN_REC,
    MAX_STATES,
}

/// The state that a kernel state code stands for.
pub open spec fn state_of(code: u8) -> TCP_STATE {
    if code == 1 { TCP_STATE::ESTABLISHED }
    else if code == 2 { TCP_STATE::SYN_SENT }
    else if code == 3 { TCP_STATE::SYN_RECV }
    else if code == 4 { TCP_STATE::FIN_WAIT1 }
    else if code == 5 { TCP_STATE::FIN_WAIT2 }
    else if code == 6 { TCP_STATE::TIME_WAIT }
    else if code == 7 { TCP_STATE::CLOSE }
    else if code == 8 { TCP_STATE::CLOSE_WAIT }
    else if code == 9 { TCP_STATE::LAST_ACK }
    else if code == 10 { TCP_STATE::LISTEN }
    else if code == 11 { TCP_STATE::CLOSING }
    else if code == 12 { TCP_STATE::NEW_SYN_REC }
    else if code == 13 { TCP_STATE::MAX_STATES }
    else { TCP_STATE::UNKNOWN }
}

/// The text of a state: its name as written in the enum.
pub open spec fn state_name(s: TCP_STATE) -> Seq<char> {
    match s {
        TCP_STATE::UNKNOWN => "UNKNOWN"@,
        TCP_STATE::ESTABLISHED => "ESTABLISHED"@,
        TCP_STATE::SYN_SENT => "SYN_SENT"@,
        TCP_STATE::SYN_RECV => "SYN_RECV"@,
        TCP_STATE::FIN_WAIT1 => "FIN_WAIT1"@,
        TCP_STATE::FIN_WAIT2 => "FIN_WAIT2"@,
        TCP_STATE::TIME_WAIT => "TIME_WAIT"@,
        TCP_STATE::CLOSE => "CLOSE"@,
        TCP_STATE::CLOSE_WAIT => "CLOSE_WAIT"@,
        TCP_STATE::LAST_ACK => "LAST_ACK"@,
        TCP_STATE::LISTEN => "LISTEN"@,
        TCP_STATE::CLOSING => "CLOSING"@,
        TCP_STATE::NEW_SYN_REC => "NEW_SYN_REC"@,
        TCP_STATE::MAX_STATES => "MAX_STATES"@,
    }
}

impl TCP_STATE {
    /// The state of a kernel code; total, with `UNKNOWN` for unlisted codes.
    pub fn from_u8(state: u8) -> (r: TCP_STATE)
        ensures
            r == state_of(state),
    {
        match state {
            1 => TCP_STATE::ESTABLISHED,
            2 => TCP_STATE::SYN_SENT,
            3 => TCP_STATE::SYN_RECV,
            4 => TCP_STATE::FIN_WAIT1,
            5 => TCP_STATE::FIN_WAIT2,
            6 => TCP_STATE::TIME_WAIT,
            7 => TCP_STATE::CLOSE,
            8 => TCP_STATE::CLOSE_WAIT,
            9 => TCP_STATE::LAST_ACK,
            10 => TCP_STATE::LISTEN,
            11 => TCP_STATE::CLOSING,
            12 => TCP_STATE::NEW_SYN_REC,
            13 => TCP_STATE::MAX_STATES,
            _ => TCP_STATE::UNKNOWN,
        }
    }

    /// The state's name.
    pub fn to_string(&self) -> (r: String)
        ensures
            r@ == state_name(*self),
    {
        match self {
            TCP_STATE::UNKNOWN => String::from_str("UNKNOWN"),
            TCP_STATE::ESTABLISHED => String::from_str("ESTABLISHED"),
            TCP_STATE::SYN_SENT => String::from_str("SYN_SENT"),
            TCP_STATE::SYN_RECV => String::from_str("SYN_RECV"),
            TCP_STATE::FIN_WAIT1 => String::from_str("FIN_WAIT1"),
            TCP_STATE::FIN_WAIT2 => String::from_str("FIN_WAIT2"),
            TCP_STATE::TIME_WAIT => String::from_str("TIME_WAIT"),
            TCP_STATE::CLOSE => String::from_str("CLOSE"),
            TCP_STATE::CLOSE_WAIT => String::from_str("CLOSE_WAIT"),
            TCP_STATE::LAST_ACK => String::from_str("LAST_ACK"),
            TCP_STATE::LISTEN => String::from_str("LISTEN"),
            TCP_STATE::CLOSING => String::from_str("CLOSING"),
            TCP_STATE::NEW_SYN_REC => String::from_str("NEW_SYN_REC"),
            TCP_STATE::MAX_STATES => String::from_str("MAX_STATES"),
        }
    }
}

/// The kernel's per-socket TCP statistics (`struct tcp_info`), in the
/// layout of its first 216 bytes. `_bitfield_1` holds the two bytes of
/// window-scale and flag bits as one little-endian value.
#[derive(Clone, Copy, Debug, Default, PartialEq, Eq, Structural)]
pub struct TCPInfo {
    pub tcpi_state: u8,
    pub tcpi_ca_state: u8,
    pub tcpi_retransmits: u8,
    pub tcpi_probes: u8,
    pub tcpi_backoff: u8,
    pub tcpi_options: u8,
    pub _bitfield_1: u16,
    pub tcpi_rto: u32,
    pub tcpi_ato: u32,
    pub tcpi_snd_mss: u32,
    pub tcpi_rcv_mss: u32,
    pub tcpi_unacked: u32,
    pub tcpi_sacked: u32,
    pub tcpi_lost: u32,
    pub tcpi_retrans: u32,
    pub tcpi_fackets: u32,
    pub tcpi_last_data_sent: u32,
    pub tcpi_last_ack_sent: u32,
    pub tcpi_last_data_recv: u32,
    pub tcpi_last_ack_recv: u32,
    pub tcpi_pmtu: u32,
    pub tcpi_rcv_ssthresh: u32,
    pub tcpi_rtt: u32,
    pub tcpi_rttvar: u32,
    pub tcpi_snd_ssthresh: u32,
    pub tcpi_snd_cwnd: u32,
    pub tcpi_advmss: u32,
    pub tcpi_reordering: u32,
    pub tcpi_rcv_rtt: u32,
    pub tcpi_rcv_space: u32,
    pub tcpi_total_retrans: u32,
    pub tcpi_pacing_rate: u64,
    pub tcpi_max_pacing_rate: u64,
    pub tcpi_bytes_acked: u64,
    pub tcpi_bytes_received: u64,
    pub tcpi_segs_out: u32,
    pub tcpi_segs_in: u32,
    pub tcpi_notsent_bytes: u32,
    pub tcpi_min_rtt: u32,
    pub tcpi_data_segs_in: u32,
    pub tcpi_data_segs_out: u32,
    pub tcpi_delivery_rate: u64,
    pub tcpi_busy_time: u64,
    pub tcpi_rwnd_limited: u64,
    pub tcpi_sndbuf_limited: u64,
    pub tcpi_delivered: u32,
    pub tcpi_delivered_ce: u32,
    pub tcpi_bytes_sent: u64,
    pub tcpi_bytes_retrains: u64,
}

/// `n` bytes from `i` on, least significant first, as a number.
#[verifier::opaque]
pub open spec fn read_le(b: Seq<u8>, i: int, n: nat) -> nat
    decreases n,
{
    if n == 0 {
        0
    } else {
        b[i] as nat + 256 * read_le(b, i + 1, (n - 1) as nat)
    }
}

/// Width in bytes of field `k` of the statistics record.
pub open spec fn field_width(k: int) -> nat {
    if k < 6 {
        1
    } else if k == 6 {
        2
    } else if k < 31 {
        4
    } else if k < 35 {
        8
    } else if k < 41 {
        4
    } else if k < 45 {
        8
    } else if k < 47 {
        4
    } else {
        8
    }
}

/// Offset of field `k` of the statistics record; the record's length for
/// `k == 49`.
pub open spec fn field_offset(k: int) -> int {
    if k < 6 {
        k
    } else if k == 6 {
        6
    } else if k < 31 {
        8 + 4 * (k - 7)
    } else if k < 35 {
        104 + 8 * (k - 31)
    } else if k < 41 {
        136 + 4 * (k - 35)
    } else if k < 45 {
        160 + 8 * (k - 41)
    } else if k < 47 {
        192 + 4 * (k - 45)
    } else {
        200 + 8 * (k - 47)
    }
}

/// Field `k` of a statistics record laid out at offset `o`.
pub open spec fn field_read(b: Seq<u8>, o: int, k: int) -> nat {
    read_le(b, o + field_offset(k), field_width(k))
}

/// The statistics record laid out at offset `o` of `b`, all fields
/// little-endian.
#[verifier::opaque]
pub open spec fn tcp_info_at(b: Seq<u8>, o: int) -> TCPInfo {
    TCPInfo {
        tcpi_state: field_read(b, o, 0) as u8,
        tcpi_ca_state: field_read(b, o, 1) as u8,
        tcpi_retransmits: field_read(b, o, 2) as u8,
        tcpi_probes: field_read(b, o, 3) as u8,
        tcpi_backoff: field_read(b, o, 4) as u8,
        tcpi_options: field_read(b, o, 5) as u8,
        _bitfield_1: field_read(b, o, 6) as u16,
        tcpi_rto: field_read(b, o, 7) as u32,
        tcpi_ato: field_read(b, o, 8) as u32,
        tcpi_snd_mss: field_read(b, o, 9) as u32,
        tcpi_rcv_mss: field_read(b, o, 10) as u32,
        tcpi_unacked: field_read(b, o, 11) as u32,
        tcpi_sacked: field_read(b, o, 12) as u32,
        tcpi_lost: field_read(b, o, 13) as u32,
        tcpi_retrans: field_read(b, o, 14) as u32,
        tcpi_fackets: field_read(b, o, 15) as u32,
        tcpi_last_data_sent: field_read(b, o, 16) as u32,
        tcpi_last_ack_sent: field_read(b, o, 17) as u32,
        tcpi_last_data_recv: field_read(b, o, 18) as u32,
        tcpi_last_ack_recv: field_read(b, o, 19) as u32,
        tcpi_pmtu: field_read(b, o, 20) as u32,
        tcpi_rcv_ssthresh: field_read(b, o, 21) as u32,
        tcpi_rtt: field_read(b, o, 22) as u32,
        tcpi_rttvar: field_read(b, o, 23) as u32,
        tcpi_snd_ssthresh: field_read(b, o, 24) as u32,
        tcpi_snd_cwnd: field_read(b, o, 25) as u32,
        tcpi_advmss: field_read(b, o, 26) as u32,
        tcpi_reordering: field_read(b, o, 27) as u32,
        tcpi_rcv_rtt: field_read(b, o, 28) as u32,
        tcpi_rcv_space: field_read(b, o, 29) as u32,
        tcpi_total_retrans: field_read(b, o, 30) as u32,
        tcpi_pacing_rate: field_read(b, o, 31) as u64,
        tcpi_max_pacing_rate: field_read(b, o, 32) as u64,
        tcpi_bytes_acked: field_read(b, o, 33) as u64,
        tcpi_bytes_received: field_read(b, o, 34) as u64,
        tcpi_segs_out: field_read(b, o, 35) as u32,
        tcpi_segs_in: field_read(b, o, 36) as u32,
        tcpi_notsent_bytes: field_read(b, o, 37) as u32,
        tcpi_min_rtt: field_read(b, o, 38) as u32,
        tcpi_data_segs_in: field_read(b, o, 39) as u32,
        tcpi_data_segs_out: field_read(b, o, 40) as u32,
        tcpi_delivery_rate: field_read(b, o, 41) as u64,
        tcpi_busy_time: field_read(b, o, 42) as u64,
        tcpi_rwnd_limited: field_read(b, o, 43) as u64,
        tcpi_sndbuf_limited: field_read(b, o, 44) as u64,
        tcpi_delivered: field_read(b, o, 45) as u32,
        tcpi_delivered_ce: field_read(b, o, 46) as u32,
        tcpi_bytes_sent: field_read(b, o, 47) as u64,
        tcpi_bytes_retrains: field_read(b, o, 48) as u64,
    }
}

/// Reads the statistics record at offset `o`.
pub fn read_tcp_info(b: &[u8], o: usize) -> (r: TCPInfo)
    requires
        o + TCP_INFO_LEN <= b@.len(),
    ensures
        r == tcp_info_at(b@, o as int),
{
    reveal(tcp_info_at);
    reveal_with_fuel(read_le, 2);
    let n = b.len();
    TCPInfo {
        tcpi_state: b[o + 0],
        tcpi_ca_state: b[o + 1],
        tcpi_retransmits: b[o + 2],
        tcpi_probes: b[o + 3],
        tcpi_backoff: b[o + 4],
        tcpi_options: b[o + 5],
        _bitfield_1: read_u16_le(b, o + 6),
        tcpi_rto: read_u32_le(b, o + 8),
        tcpi_ato: read_u32_le(b, o + 12),
        tcpi_snd_mss: read_u32_le(b, o + 16),
        tcpi_rcv_mss: read_u32_le(b, o + 20),
        tcpi_unacked: read_u32_le(b, o + 24),
        tcpi_sacked: read_u32_le(b, o + 28),
        tcpi_lost: read_u32_le(b, o + 32),
        tcpi_retrans: read_u32_le(b, o + 36),
        tcpi_fackets: read_u32_le(b, o + 40),
        tcpi_last_data_sent: read_u32_le(b, o + 44),
        tcpi_last_ack_sent: read_u32_le(b, o + 48),
        tcpi_last_data_recv: read_u32_le(b, o + 52),
        tcpi_last_ack_recv: read_u32_le(b, o + 56),
        tcpi_pmtu: read_u32_le(b, o + 60),
        tcpi_rcv_ssthresh: read_u32_le(b, o + 64),
        tcpi_rtt: read_u32_le(b, o + 68),
        tcpi_rttvar: read_u32_le(b, o + 72),
        tcpi_snd_ssthresh: read_u32_le(b, o + 76),
        tcpi_snd_cwnd: read_u32_le(b, o + 80),
        tcpi_advmss: read_u32_le(b, o + 84),
        tcpi_reordering: read_u32_le(b, o + 88),
        tcpi_rcv_rtt: read_u32_le(b, o + 92),
        tcpi_rcv_space: read_u32_le(b, o + 96),
        tcpi_total_retrans: read_u32_le(b, o + 100),
        tcpi_pacing_rate: read_u64_le(b, o + 104),
        tcpi_max_pacing_rate: read_u64_le(b, o + 112),
        tcpi_bytes_acked: read_u64_le(b, o + 120),
        tcpi_bytes_received: read_u64_le(b, o + 128),
        tcpi_segs_out: read_u32_le(b, o + 136),
        tcpi_segs_in: read_u32_le(b, o + 140),
        tcpi_notsent_bytes: read_u32_le(b, o + 144),
        tcpi_min_rtt: read_u32_le(b, o + 148),
        tcpi_data_segs_in: read_u32_le(b, o + 152),
        tcpi_data_segs_out: read_u32_le(b, o + 156),
        tcpi_delivery_rate: read_u64_le(b, o + 160),
        tcpi_busy_time: read_u64_le(b, o + 168),
        tcpi_rwnd_limited: read_u64_le(b, o + 176),
        tcpi_sndbuf_limited: read_u64_le(b, o + 184),
        tcpi_delivered: read_u32_le(b, o + 192),
        tcpi_delivered_ce: read_u32_le(b, o + 196),
        tcpi_bytes_sent: read_u64_le(b, o + 200),
        tcpi_bytes_retrains: read_u64_le(b, o + 208),
    }
}

/// Length of the fixed `inet_diag_msg` header of a response.
pub const DIAG_MSG_LEN: usize = 72;
/// Attribute type that carries the statistics record.
pub const INET_DIAG_INFO: u16 = 2;

/// Whether `f` is one of the two supported address families.
pub open spec fn valid_family(f: u8) -> bool {
    f == AF_INET || f == AF_INET6
}

/// How many bytes of the 16-byte address field a family uses.
pub open spec fn address_len(f: u8) -> int {
    if f == AF_INET {
        4
    } else {
        16
    }
}

/// `n` rounded up to a multiple of four.
pub open spec fn align4(n: int) -> int {
    (n + 3) / 4 * 4
}

/// An IP address: its family and its octets in network order.
pub struct IpAddress {
    pub family: u8,
    pub octets: Vec<u8>,
}

impl View for IpAddress {
    type V = (u8, Seq<u8>);

    open spec fn view(&self) -> (u8, Seq<u8>) {
        (self.family, self.octets@)
    }
}

impl IpAddress {
    /// Four octets for IPv4, sixteen for IPv6.
    pub open spec fn wf(&self) -> bool {
        valid_family(self.family) && self.octets@.len() == address_len(self.family)
    }

    pub fn copy(&self) -> (r: IpAddress)
        ensures
            r@ == self@,
    {
        let octets = self.octets.clone();
        assert(octets@ =~= self.octets@);
        IpAddress { family: self.family, octets }
    }
}

/// An address and a port in host order.
pub struct Endpoint {
    pub ip: IpAddress,
    pub port: u16,
}

/// One socket as the kernel reported it, with its statistics if they came.
pub struct DiagWithInode {
    pub family: u8,
    pub src: Endpoint,
    pub dst: Endpoint,
    pub state: u8,
    pub inode: u32,
    pub info: Option<TCPInfo>,
}

impl DiagWithInode {
    /// The family and both addresses agree.
    pub open spec fn wf(&self) -> bool {
        &&& valid_family(self.family)
        &&& self.src.ip.family == self.family
        &&& self.dst.ip.family == self.family
        &&& self.src.ip.wf()
        &&& self.dst.ip.wf()
    }
}

/// Why a response message could not be decoded.
#[derive(Clone, Copy, Debug, PartialEq, Eq, Structural)]
pub enum DecodeError {
    /// Shorter than the fixed header.
    Truncated,
    /// An address family other than IPv4 or IPv6.
    Family(u8),
}

/// The statistics record of the first statistics attribute from `pos` on,
/// if that attribute is long enough to hold one. A malformed attribute
/// header ends the search.
pub open spec fn info_from(b: Seq<u8>, pos: int) -> Option<TCPInfo>
    decreases b.len() - pos,
{
    if pos < 0 || pos + 4 > b.len() {
        None
    } else {
        let len = le16(b, pos);
        if len < 4 {
            None
        } else if le16(b, pos + 2) == INET_DIAG_INFO {
            if len - 4 >= TCP_INFO_LEN && pos + 4 + TCP_INFO_LEN <= b.len() {
                Some(tcp_info_at(b, pos + 4))
            } else {
                None
            }
        } else if pos + align4(len) <= b.len() {
            info_from(b, pos + align4(len))
        } else {
            None
        }
    }
}

/// What decoding the message `b` (without its netlink header) yields.
#[verifier::opaque]
pub open spec fn describes(r: DiagWithInode, b: Seq<u8>) -> bool {
    &&& b.len() >= DIAG_MSG_LEN
    &&& r.family == b[0]
    &&& r.state == b[1]
    &&& r.src.port as int == be16(b, 4)
    &&& r.dst.port as int == be16(b, 6)
    &&& r.src.ip@ == (b[0], b.subrange(8, 8 + address_len(b[0])))
    &&& r.dst.ip@ == (b[0], b.subrange(24, 24 + address_len(b[0])))
    &&& r.inode as int == le32(b, 68)
    &&& r.info == info_from(b, DIAG_MSG_LEN as int)
}

/// Finds the statistics record among the attributes that follow the header.
fn find_info(b: &[u8]) -> (r: Option<TCPInfo>)
    requires
        b@.len() >= DIAG_MSG_LEN,
    ensures
        r == info_from(b@, DIAG_MSG_LEN as int),
{
    let n = b.len();
    let mut pos: usize = DIAG_MSG_LEN;
    while 4 <= n - pos
        invariant
            n == b@.len(),
            DIAG_MSG_LEN <= pos <= n,
            info_from(b@, pos as int) == info_from(b@, DIAG_MSG_LEN as int),
        decreases n - pos,
    {
        let len = read_u16_le(b, pos) as usize;
        if len < 4 {
            return None;
        }
        if read_u16_le(b, pos + 2) == INET_DIAG_INFO {
            if len - 4 >= TCP_INFO_LEN && TCP_INFO_LEN <= n - pos - 4 {
                return Some(read_tcp_info(b, pos + 4));
            }
            return None;
        }
        let step = (len + 3) / 4 * 4;
        if step > n - pos {
            return None;
        }
        pos = pos + step;
    }
    None
}

/// The bytes of `b` from `start` up to `end`.
fn copy_range(b: &[u8], start: usize, end: usize) -> (r: Vec<u8>)
    requires
        start <= end <= b@.len(),
    ensures
        r@ == b@.subrange(start as int, end as int),
{
    let mut v: Vec<u8> = Vec::new();
    let mut i: usize = start;
    while i < end
        invariant
            start <= i <= end <= b@.len(),
            v@ == b@.subrange(start as int, i as int),
        decreases end - i,
    {
        v.push(b[i]);
        i = i + 1;
        assert(v@ =~= b@.subrange(start as int, i as int));
    }
    v
}

/// Decodes one response message, given without its netlink header.
pub fn decode_diag_msg(msg: &[u8]) -> (r: Result<DiagWithInode, DecodeError>)
    ensures
        msg@.len() < DIAG_MSG_LEN ==> r == Err::<DiagWithInode, DecodeError>(DecodeError::Truncated),
        msg@.len() >= DIAG_MSG_LEN && !valid_family(msg@[0]) ==> r == Err::<DiagWithInode, DecodeError>(
            DecodeError::Family(msg@[0]),
        ),
        msg@.len() >= DIAG_MSG_LEN && valid_family(msg@[0]) ==> (r matches Ok(d) && describes(d, msg@)
            && d.wf() && d.info == info_from(msg@, DIAG_MSG_LEN as int)),
{
    reveal(describes);
    if msg.len() < DIAG_MSG_LEN {
        return Err(DecodeError::Truncated);
    }
    let family = msg[0];
    if family != AF_INET && family != AF_INET6 {
        return Err(DecodeError::Family(family));
    }
    let alen: usize = if family == AF_INET { 4 } else { 16 };
    let src = IpAddress { family, octets: copy_range(msg, 8, 8 + alen) };
    let dst = IpAddress { family, octets: copy_range(msg, 24, 24 + alen) };
    let d = DiagWithInode {
        family,
        src: Endpoint { ip: src, port: read_u16_be(msg, 4) },
        dst: Endpoint { ip: dst, port: read_u16_be(msg, 6) },
        state: msg[1],
        inode: read_u32_le(msg, 68),
        info: find_info(msg),
    };
    Ok(d)
}

/// Length of a netlink message header.
pub const NLMSG_HDR_LEN: usize = 16;
/// Netlink message type that ends a dump.
pub const NLMSG_DONE: u16 = 3;
/// Netlink message type of an error report.
pub const NLMSG_ERROR: u16 = 2;
/// Netlink message type of socket-diagnostic requests and responses.
pub const SOCK_DIAG_BY_FAMILY: u16 = 20;
/// Request flags: a request, and a dump of every matching socket.
pub const NLM_F_REQUEST_DUMP: u16 = 0x301;
/// Protocol number of TCP.
pub const IPPROTO_TCP: u8 = 6;

/// How far a dump has come after one received datagram.
#[derive(Clone, Copy, Debug, PartialEq, Eq, Structural)]
pub enum DumpStatus {
    /// More datagrams follow.
    More,
    /// The end-of-dump message was seen.
    Done,
    /// The kernel reported an error, or a message header was malformed.
    Failed,
}

/// Whether a response message (without its netlink header) yields a record
/// that is kept: it decodes, carries statistics, and is not listening.
#[verifier::opaque]
pub open spec fn kept(m: Seq<u8>) -> bool {
    &&& m.len() >= DIAG_MSG_LEN
    &&& valid_family(m[0])
    &&& info_from(m, DIAG_MSG_LEN as int) is Some
    &&& info_from(m, DIAG_MSG_LEN as int)->Some_0.tcpi_state != TCP_LISTEN
}

/// The spans (start, end) of the kept response messages of a datagram,
/// from the netlink header at `pos` up to the first end-of-dump, error or
/// malformed header.
pub open spec fn kept_spans(b: Seq<u8>, pos: int) -> Seq<(int, int)>
    decreases b.len() - pos,
{
    if pos < 0 || pos + NLMSG_HDR_LEN > b.len() {
        Seq::empty()
    } else {
        let len = le32(b, pos);
        let ty = le16(b, pos + 4);
        if len < NLMSG_HDR_LEN || pos + len > b.len() || ty == NLMSG_DONE || ty == NLMSG_ERROR {
            Seq::empty()
        } else {
            let rest = if pos + align4(len) <= b.len() {
                kept_spans(b, pos + align4(len))
            } else {
                Seq::empty()
            };
            if ty == SOCK_DIAG_BY_FAMILY && kept(b.subrange(pos + NLMSG_HDR_LEN, pos + len)) {
                seq![(pos + NLMSG_HDR_LEN, pos + len)] + rest
            } else {
                rest
            }
        }
    }
}

/// How the dump stands after the datagram `b`, read from `pos`.
pub open spec fn dump_status(b: Seq<u8>, pos: int) -> DumpStatus
    decreases b.len() - pos,
{
    if pos < 0 || pos + NLMSG_HDR_LEN > b.len() {
        DumpStatus::More
    } else {
        let len = le32(b, pos);
        let ty = le16(b, pos + 4);
        if len < NLMSG_HDR_LEN || pos + len > b.len() || ty == NLMSG_ERROR {
            DumpStatus::Failed
        } else if ty == NLMSG_DONE {
            DumpStatus::Done
        } else if pos + align4(len) <= b.len() {
            dump_status(b, pos + align4(len))
        } else {
            DumpStatus::More
        }
    }
}

/// The records of one received datagram, and how the dump stands.
pub struct DumpChunk {
    pub sockets: Vec<DiagWithInode>,
    pub status: DumpStatus,
}

/// `d` is the record of message `m`, with statistics, not listening.
pub open spec fn holds_record(d: DiagWithInode, m: Seq<u8>) -> bool {
    &&& describes(d, m)
    &&& d.wf()
    &&& d.info is Some
    &&& d.info->Some_0.tcpi_state != TCP_LISTEN
}

/// The record of one response message, if it is kept.
fn take_message(m: &[u8]) -> (r: Option<DiagWithInode>)
    ensures
        r is Some <==> kept(m@),
        r matches Some(d) ==> holds_record(d, m@),
{
    reveal(kept);
    match decode_diag_msg(m) {
        Ok(d) => {
            let keep = match &d.info {
                Some(info) => info.tcpi_state != TCP_LISTEN,
                None => false,
            };
            if keep {
                Some(d)
            } else {
                None
            }
        },
        Err(_) => None,
    }
}

/// Decodes one datagram of a dump. Messages that do not decode, carry no
/// statistics or are listening sockets are left out; the others come in
/// the order received.
#[verifier::rlimit(60)]
pub fn parse_dump(b: &[u8]) -> (r: DumpChunk)
    ensures
        r.status == dump_status(b@, 0),
        r.sockets@.len() == kept_spans(b@, 0).len(),
        forall|i: int|
            0 <= i < r.sockets@.len() ==> {
                let sp = #[trigger] kept_spans(b@, 0)[i];
                &&& 0 <= sp.0 <= sp.1 <= b@.len()
                &&& holds_record(r.sockets@[i], b@.subrange(sp.0, sp.1))
            },
{
    let n = b.len();
    let mut sockets: Vec<DiagWithInode> = Vec::new();
    let mut pos: usize = 0;
    let ghost mut spans: Seq<(int, int)> = Seq::empty();
    while NLMSG_HDR_LEN <= n - pos
        invariant
            n == b@.len(),
            pos <= n,
            spans + kept_spans(b@, pos as int) == kept_spans(b@, 0),
            dump_status(b@, pos as int) == dump_status(b@, 0),
            sockets@.len() == spans.len(),
            forall|i: int|
                0 <= i < sockets@.len() ==> {
                    let sp = #[trigger] spans[i];
                    &&& 0 <= sp.0 <= sp.1 <= b@.len()
                    &&& holds_record(sockets@[i], b@.subrange(sp.0, sp.1))
                },
        decreases n - pos,
    {
        let len = read_u32_le(b, pos) as usize;
        let ty = read_u16_le(b, pos + 4);
        if len < NLMSG_HDR_LEN || len > n - pos || ty == NLMSG_ERROR {
            assert(spans + kept_spans(b@, pos as int) =~= spans);
            assert(kept_spans(b@, 0) =~= spans);
            return DumpChunk { sockets, status: DumpStatus::Failed };
        }
        if ty == NLMSG_DONE {
            assert(spans + kept_spans(b@, pos as int) =~= spans);
            assert(kept_spans(b@, 0) =~= spans);
            return DumpChunk { sockets, status: DumpStatus::Done };
        }
        let ghost old_spans = spans;
        let ghost next_spans = if pos + align4(len as int) <= n {
            kept_spans(b@, pos + align4(len as int))
        } else {
            Seq::empty()
        };
        if ty == SOCK_DIAG_BY_FAMILY {
            let m = &b[pos + NLMSG_HDR_LEN..pos + len];
            match take_message(m) {
                Some(d) => {
                    sockets.push(d);
                    proof {
                        spans = spans.push((pos + NLMSG_HDR_LEN, pos + len));
                    }
                },
                None => {},
            }
        }
        assert(old_spans + kept_spans(b@, pos as int) =~= spans + next_spans);
        let pad = (4 - len % 4) % 4;
        assert(len + pad == align4(len as int));
        if pad > n - pos - len {
            assert(next_spans =~= Seq::<(int, int)>::empty());
            assert(kept_spans(b@, 0) =~= spans);
            return DumpChunk { sockets, status: DumpStatus::More };
        }
        pos = pos + len + pad;
    }
    assert(spans + kept_spans(b@, pos as int) =~= spans);
    assert(kept_spans(b@, 0) =~= spans);
    DumpChunk { sockets, status: DumpStatus::More }
}

/// The eight bytes of `x`, least significant first.
pub open spec fn le_bytes(x: nat, n: nat) -> Seq<u8>
    decreases n,
{
    if n == 0 {
        Seq::empty()
    } else {
        seq![(x % 256) as u8] + le_bytes(x / 256, (n - 1) as nat)
    }
}

/// Appends the `n` low bytes of `x`, least significant first.
fn push_le(out: &mut Vec<u8>, x: u64, n: usize)
    requires
        n <= 8,
    ensures
        final(out)@ == old(out)@ + le_bytes(x as nat, n as nat),
    decreases n,
{
    if n > 0 {
        out.push((x % 256) as u8);
        push_le(out, x / 256, n - 1);
        assert(final(out)@ =~= old(out)@ + le_bytes(x as nat, n as nat));
    } else {
        assert(final(out)@ =~= old(out)@ + le_bytes(x as nat, n as nat));
    }
}

/// The dump request for TCP sockets of `family` in every state, asking for
/// the statistics extension, with sequence number `seq`.
pub open spec fn request_bytes(family: u8, seq: u32) -> Seq<u8> {
    le_bytes(72, 4) + le_bytes(SOCK_DIAG_BY_FAMILY as nat, 2) + le_bytes(NLM_F_REQUEST_DUMP as nat, 2)
        + le_bytes(seq as nat, 4) + le_bytes(0, 4) + seq![family, IPPROTO_TCP, 2u8, 0u8]
        + le_bytes(0xffff_ffff, 4) + Seq::new(48, |i: int| 0u8)
}

/// Builds the dump request: a netlink header and an `inet_diag_req_v2`.
pub fn build_request(family: u8, seq: u32) -> (r: Vec<u8>)
    ensures
        r@ == request_bytes(family, seq),
        r@.len() == 72,
{
    let mut out: Vec<u8> = Vec::new();
    push_le(&mut out, 72, 4);
    push_le(&mut out, SOCK_DIAG_BY_FAMILY as u64, 2);
    push_le(&mut out, NLM_F_REQUEST_DUMP as u64, 2);
    push_le(&mut out, seq as u64, 4);
    push_le(&mut out, 0, 4);
    out.push(family);
    out.push(IPPROTO_TCP);
    out.push(1u8 << (INET_DIAG_INFO as u8 - 1));
    out.push(0);
    push_le(&mut out, 0xffff_ffff, 4);
    let ghost before = out@;
    let mut i: usize = 0;
    while i < 48
        invariant
            i <= 48,
            out@ == before + Seq::new(i as nat, |k: int| 0u8),
        decreases 48 - i,
    {
        out.push(0);
        i = i + 1;
        assert(out@ =~= before + Seq::new(i as nat, |k: int| 0u8));
    }
    proof {
        reveal_with_fuel(le_bytes, 5);
        assert(1u8 << 1u8 == 2u8) by (bit_vector);
    }
    assert(out@ =~= request_bytes(family, seq));
    out
}

/// Only the LISTEN code is named "LISTEN".
pub proof fn lemma_state_name_listen(code: u8)
    ensures
        (state_name(state_of(code)) == "LISTEN"@) <==> code == TCP_LISTEN,
{
    reveal_strlit("UNKNOWN");
    reveal_strlit("ESTABLISHED");
    reveal_strlit("SYN_SENT");
    reveal_strlit("SYN_RECV");
    reveal_strlit("FIN_WAIT1");
    reveal_strlit("FIN_WAIT2");
    reveal_strlit("TIME_WAIT");
    reveal_strlit("CLOSE");
    reveal_strlit("CLOSE_WAIT");
    reveal_strlit("LAST_ACK");
    reveal_strlit("LISTEN");
    reveal_strlit("CLOSING");
    reveal_strlit("NEW_SYN_REC");
    reveal_strlit("MAX_STATES");
    let t = state_of(code);
    if t != TCP_STATE::LISTEN {
        assert(state_name(t)[0] != 'L' || state_name(t).len() != 6 || state_name(t)[1] != 'I');
    }
}

/// Field `k` of a statistics record as a number.
pub open spec fn field_value(t: TCPInfo, k: int) -> nat {
    if k == 0 {
        t.tcpi_state as nat
    } else if k == 1 {
        t.tcpi_ca_state as nat
    } else if k == 2 {
        t.tcpi_retransmits as nat
    } else if k == 3 {
        t.tcpi_probes as nat
    } else if k == 4 {
        t.tcpi_backoff as nat
    } else if k == 5 {
        t.tcpi_options as nat
    } else if k == 6 {
        t._bitfield_1 as nat
    } else if k == 7 {
        t.tcpi_rto as nat
    } else if k == 8 {
        t.tcpi_ato as nat
    } else if k == 9 {
        t.tcpi_snd_mss as nat
    } else if k == 10 {
        t.tcpi_rcv_mss as nat
    } else if k == 11 {
        t.tcpi_unacked as nat
    } else if k == 12 {
        t.tcpi_sacked as nat
    } else if k == 13 {
        t.tcpi_lost as nat
    } else if k == 14 {
        t.tcpi_retrans as nat
    } else if k == 15 {
        t.tcpi_fackets as nat
    } else if k == 16 {
        t.tcpi_last_data_sent as nat
    } else if k == 17 {
        t.tcpi_last_ack_sent as nat
    } else if k == 18 {
        t.tcpi_last_data_recv as nat
    } else if k == 19 {
        t.tcpi_last_ack_recv as nat
    } else if k == 20 {
        t.tcpi_pmtu as nat
    } else if k == 21 {
        t.tcpi_rcv_ssthresh as nat
    } else if k == 22 {
        t.tcpi_rtt as nat
    } else if k == 23 {
        t.tcpi_rttvar as nat
    } else if k == 24 {
        t.tcpi_snd_ssthresh as nat
    } else if k == 25 {
        t.tcpi_snd_cwnd as nat
    } else if k == 26 {
        t.tcpi_advmss as nat
    } else if k == 27 {
        t.tcpi_reordering as nat
    } else if k == 28 {
        t.tcpi_rcv_rtt as nat
    } else if k == 29 {
        t.tcpi_rcv_space as nat
    } else if k == 30 {
        t.tcpi_total_retrans as nat
    } else if k == 31 {
        t.tcpi_pacing_rate as nat
    } else if k == 32 {
        t.tcpi_max_pacing_rate as nat
    } else if k == 33 {
        t.tcpi_bytes_acked as nat
    } else if k == 34 {
        t.tcpi_bytes_received as nat
    } else if k == 35 {
        t.tcpi_segs_out as nat
    } else if k == 36 {
        t.tcpi_segs_in as nat
    } else if k == 37 {
        t.tcpi_notsent_bytes as nat
    } else if k == 38 {
        t.tcpi_min_rtt as nat
    } else if k == 39 {
        t.tcpi_data_segs_in as nat
    } else if k == 40 {
        t.tcpi_data_segs_out as nat
    } else if k == 41 {
        t.tcpi_delivery_rate as nat
    } else if k == 42 {
        t.tcpi_busy_time as nat
    } else if k == 43 {
        t.tcpi_rwnd_limited as nat
    } else if k == 44 {
        t.tcpi_sndbuf_limited as nat
    } else if k == 45 {
        t.tcpi_delivered as nat
    } else if k == 46 {
        t.tcpi_delivered_ce as nat
    } else if k == 47 {
        t.tcpi_bytes_sent as nat
    } else {
        t.tcpi_bytes_retrains as nat
    }
}

fn field_value_exec(t: &TCPInfo, k: usize) -> (r: u64)
    requires
        k < 49,
    ensures
        r as nat == field_value(*t, k as int),
{
    match k {
        0 => t.tcpi_state as u64,
        1 => t.tcpi_ca_state as u64,
        2 => t.tcpi_retransmits as u64,
        3 => t.tcpi_probes as u64,
        4 => t.tcpi_backoff as u64,
        5 => t.tcpi_options as u64,
        6 => t._bitfield_1 as u64,
        7 => t.tcpi_rto as u64,
        8 => t.tcpi_ato as u64,
        9 => t.tcpi_snd_mss as u64,
        10 => t.tcpi_rcv_mss as u64,
        11 => t.tcpi_unacked as u64,
        12 => t.tcpi_sacked as u64,
        13 => t.tcpi_lost as u64,
        14 => t.tcpi_retrans as u64,
        15 => t.tcpi_fackets as u64,
        16 => t.tcpi_last_data_sent as u64,
        17 => t.tcpi_last_ack_sent as u64,
        18 => t.tcpi_last_data_recv as u64,
        19 => t.tcpi_last_ack_recv as u64,
        20 => t.tcpi_pmtu as u64,
        21 => t.tcpi_rcv_ssthresh as u64,
        22 => t.tcpi_rtt as u64,
        23 => t.tcpi_rttvar as u64,
        24 => t.tcpi_snd_ssthresh as u64,
        25 => t.tcpi_snd_cwnd as u64,
        26 => t.tcpi_advmss as u64,
        27 => t.tcpi_reordering as u64,
        28 => t.tcpi_rcv_rtt as u64,
        29 => t.tcpi_rcv_space as u64,
        30 => t.tcpi_total_retrans as u64,
        31 => t.tcpi_pacing_rate as u64,
        32 => t.tcpi_max_pacing_rate as u64,
        33 => t.tcpi_bytes_acked as u64,
        34 => t.tcpi_bytes_received as u64,
        35 => t.tcpi_segs_out as u64,
        36 => t.tcpi_segs_in as u64,
        37 => t.tcpi_notsent_bytes as u64,
        38 => t.tcpi_min_rtt as u64,
        39 => t.tcpi_data_segs_in as u64,
        40 => t.tcpi_data_segs_out as u64,
        41 => t.tcpi_delivery_rate as u64,
        42 => t.tcpi_busy_time as u64,
        43 => t.tcpi_rwnd_limited as u64,
        44 => t.tcpi_sndbuf_limited as u64,
        45 => t.tcpi_delivered as u64,
        46 => t.tcpi_delivered_ce as u64,
        47 => t.tcpi_bytes_sent as u64,
        _ => t.tcpi_bytes_retrains as u64,
    }
}

fn field_width_exec(k: usize) -> (r: usize)
    requires
        k < 49,
    ensures
        r as nat == field_width(k as int),
        r <= 8,
{
    if k < 6 {
        1
    } else if k == 6 {
        2
    } else if k < 31 {
        4
    } else if k < 35 {
        8
    } else if k < 41 {
        4
    } else if k < 45 {
        8
    } else if k < 47 {
        4
    } else {
        8
    }
}

/// The first `k` fields of a statistics record in its kernel layout.
pub open spec fn encoded_fields(t: TCPInfo, k: int) -> Seq<u8>
    decreases k,
{
    if k <= 0 {
        Seq::empty()
    } else {
        encoded_fields(t, k - 1) + le_bytes(field_value(t, k - 1), field_width(k - 1))
    }
}

/// The statistics record `t` in its kernel layout.
pub open spec fn tcp_info_bytes(t: TCPInfo) -> Seq<u8> {
    encoded_fields(t, 49)
}

proof fn lemma_le_bytes_len(x: nat, n: nat)
    ensures
        le_bytes(x, n).len() == n,
    decreases n,
{
    if n > 0 {
        lemma_le_bytes_len(x / 256, (n - 1) as nat);
    }
}

/// Reading `n` little-endian bytes written by `le_bytes` gives the value back.
proof fn lemma_read_le_bytes(b: Seq<u8>, i: int, x: nat, n: nat)
    requires
        0 <= i,
        i + n <= b.len(),
        b.subrange(i, i + n) == le_bytes(x, n),
        x < pow256(n as int),
    ensures
        read_le(b, i, n) == x,
    decreases n,
{
    reveal_with_fuel(read_le, 2);
    if n > 0 {
        lemma_le_bytes_len(x / 256, (n - 1) as nat);
        assert(b[i] == b.subrange(i, i + n)[0]);
        assert(b.subrange(i + 1, i + n) =~= le_bytes(x, n).subrange(1, n as int));
        assert(le_bytes(x, n).subrange(1, n as int) =~= le_bytes(x / 256, (n - 1) as nat));
        assert(x / 256 < pow256(n - 1)) by (nonlinear_arith)
            requires
                x < pow256(n as int),
                pow256(n as int) == pow256(n - 1) * 256,
        ;
        lemma_read_le_bytes(b, i + 1, x / 256, (n - 1) as nat);
    }
}

/// Each of the first `k` fields stands at its offset in the encoding.
proof fn lemma_encoded_fields(t: TCPInfo, k: int)
    requires
        0 <= k <= 49,
    ensures
        encoded_fields(t, k).len() == field_offset(k),
        forall|i: int|
            0 <= i < k ==> #[trigger] encoded_fields(t, k).subrange(
                field_offset(i),
                field_offset(i) + field_width(i),
            ) == le_bytes(field_value(t, i), field_width(i)),
    decreases k,
{
    if k > 0 {
        lemma_encoded_fields(t, k - 1);
        let prev = encoded_fields(t, k - 1);
        let piece = le_bytes(field_value(t, k - 1), field_width(k - 1));
        lemma_le_bytes_len(field_value(t, k - 1), field_width(k - 1));
        assert forall|i: int| 0 <= i < k implies #[trigger] encoded_fields(t, k).subrange(
            field_offset(i),
            field_offset(i) + field_width(i),
        ) == le_bytes(field_value(t, i), field_width(i)) by {
            if i < k - 1 {
                assert(prev.subrange(field_offset(i), field_offset(i) + field_width(i))
                    =~= encoded_fields(t, k).subrange(field_offset(i), field_offset(i) + field_width(i)));
            } else {
                assert(encoded_fields(t, k).subrange(field_offset(i), field_offset(i) + field_width(i))
                    =~= piece);
            }
        }
    }
}

/// Reading a laid-out statistics record gives it back.
proof fn lemma_tcp_info_round_trip(b: Seq<u8>, o: int, t: TCPInfo)
    requires
        0 <= o,
        o + TCP_INFO_LEN <= b.len(),
        b.subrange(o, o + TCP_INFO_LEN) == tcp_info_bytes(t),
    ensures
        tcp_info_at(b, o) == t,
{
    lemma_encoded_fields(t, 49);
    assert(pow256(1) == 0x100 && pow256(2) == 0x1_0000 && pow256(4) == 0x1_0000_0000 && pow256(8)
        == 0x1_0000_0000_0000_0000) by {
        reveal_with_fuel(pow256, 9);
    }
    assert forall|k: int| 0 <= k < 49 implies #[trigger] field_read(b, o, k) == field_value(t, k) by {
        let (off, w) = (field_offset(k), field_width(k));
        assert(b.subrange(o + off, o + off + w) =~= tcp_info_bytes(t).subrange(off, off + w));
        assert(tcp_info_bytes(t).subrange(off, off + w) == le_bytes(field_value(t, k), w));
        lemma_read_le_bytes(b, o + off, field_value(t, k), w);
    }
    reveal(tcp_info_at);
}

/// The 16-byte address field holding `ip`, zero after its octets.
pub open spec fn address_field(ip: (u8, Seq<u8>)) -> Seq<u8> {
    ip.1 + Seq::new((16 - ip.1.len()) as nat, |i: int| 0u8)
}

/// The fixed header of a response message for `d`; timer, retransmit,
/// interface, cookie, queue and uid fields are zero.
pub open spec fn header_bytes(d: DiagWithInode) -> Seq<u8> {
    seq![
        d.family,
        d.state,
        0u8,
        0u8,
        (d.src.port / 256) as u8,
        (d.src.port % 256) as u8,
        (d.dst.port / 256) as u8,
        (d.dst.port % 256) as u8,
    ] + address_field(d.src.ip@) + address_field(d.dst.ip@) + Seq::new(28, |i: int| 0u8) + le_bytes(
        d.inode as nat,
        4,
    )
}

/// A response message for `d` (without netlink header): the header, then
/// its statistics as one attribute when it has them.
pub open spec fn message_bytes(d: DiagWithInode) -> Seq<u8> {
    match d.info {
        Some(t) => header_bytes(d) + seq![220u8, 0u8, 2u8, 0u8] + tcp_info_bytes(t),
        None => header_bytes(d),
    }
}

fn push_zeros(out: &mut Vec<u8>, n: usize)
    ensures
        final(out)@ == old(out)@ + Seq::new(n as nat, |i: int| 0u8),
{
    let mut i: usize = 0;
    while i < n
        invariant
            i <= n,
            out@ == old(out)@ + Seq::new(i as nat, |k: int| 0u8),
        decreases n - i,
    {
        out.push(0);
        i = i + 1;
        assert(out@ =~= old(out)@ + Seq::new(i as nat, |k: int| 0u8));
    }
}

fn push_address(out: &mut Vec<u8>, ip: &IpAddress)
    requires
        ip.wf(),
    ensures
        final(out)@ == old(out)@ + address_field(ip@),
{
    let mut i: usize = 0;
    while i < ip.octets.len()
        invariant
            i <= ip.octets@.len(),
            out@ == old(out)@ + ip.octets@.subrange(0, i as int),
        decreases ip.octets@.len() - i,
    {
        out.push(ip.octets[i]);
        i = i + 1;
        assert(out@ =~= old(out)@ + ip.octets@.subrange(0, i as int));
    }
    push_zeros(out, 16 - ip.octets.len());
    assert(final(out)@ =~= old(out)@ + address_field(ip@));
}

/// Encodes a record as a response message (without netlink header), the
/// form that `decode_diag_msg` reads.
pub fn encode_diag_msg(d: &DiagWithInode) -> (r: Vec<u8>)
    requires
        d.wf(),
    ensures
        r@ == message_bytes(*d),
{
    let mut out: Vec<u8> = Vec::new();
    out.push(d.family);
    out.push(d.state);
    out.push(0);
    out.push(0);
    out.push((d.src.port / 256) as u8);
    out.push((d.src.port % 256) as u8);
    out.push((d.dst.port / 256) as u8);
    out.push((d.dst.port % 256) as u8);
    push_address(&mut out, &d.src.ip);
    push_address(&mut out, &d.dst.ip);
    push_zeros(&mut out, 28);
    push_le(&mut out, d.inode as u64, 4);
    assert(out@ =~= header_bytes(*d));
    match &d.info {
        Some(t) => {
            out.push(220);
            out.push(0);
            out.push(2);
            out.push(0);
            let ghost before = out@;
            let mut k: usize = 0;
            while k < 49
                invariant
                    k <= 49,
                    out@ == before + encoded_fields(*t, k as int),
                decreases 49 - k,
            {
                push_le(&mut out, field_value_exec(t, k), field_width_exec(k));
                k = k + 1;
                assert(out@ =~= before + encoded_fields(*t, k as int));
            }
            assert(out@ =~= message_bytes(*d));
        },
        None => {},
    }
    out
}

/// Round trip: the message that `encode_diag_msg` writes for a record is
/// decoded into that record again, with the same family, state, addresses,
/// ports (in network order on the wire), inode and statistics.
pub proof fn lemma_round_trip(d: DiagWithInode)
    requires
        d.wf(),
    ensures
        describes(d, message_bytes(d)),
{
    reveal(describes);
    let b = message_bytes(d);
    let h = header_bytes(d);
    let alen = address_len(d.family);
    lemma_le_bytes_len(d.inode as nat, 4);
    assert(h.len() == 72);
    assert(b.subrange(0, 72) =~= h);
    assert(h[0] == d.family);
    assert(h[1] == d.state);
    assert(b[0] == h[0] && b[1] == h[1] && b[4] == h[4] && b[5] == h[5] && b[6] == h[6] && b[7] == h[7]);
    assert(h.subrange(8, 8 + alen) =~= d.src.ip.octets@);
    assert(h.subrange(24, 24 + alen) =~= d.dst.ip.octets@);
    assert(b.subrange(8, 8 + alen) =~= h.subrange(8, 8 + alen));
    assert(b.subrange(24, 24 + alen) =~= h.subrange(24, 24 + alen));
    reveal_with_fuel(le_bytes, 5);
    assert(pow256(4) == 0x1_0000_0000) by {
        reveal_with_fuel(pow256, 5);
    }
    assert(b.subrange(68, 72) =~= le_bytes(d.inode as nat, 4));
    lemma_read_le_bytes(b, 68, d.inode as nat, 4);
    reveal_with_fuel(read_le, 5);
    match d.info {
        Some(t) => {
            lemma_encoded_fields(t, 49);
            assert(b.len() == 292);
            assert(b[72] == 220u8 && b[73] == 0u8 && b[74] == 2u8 && b[75] == 0u8);
            assert(b.subrange(76, 292) =~= tcp_info_bytes(t));
            lemma_tcp_info_round_trip(b, 76, t);
        },
        None => {},
    }
}

} // verus!
