//! The socket registry: per-socket bounded history, derived rates and loss,
//! the display rows, and the row selection.

use std::collections::{HashMap, VecDeque};
use vstd::prelude::*;
use crate::names::{key_of, literal, NameCache};
use crate::tcpdiag::{state_name, state_of, DiagWithInode, Endpoint, IpAddress, TCPInfo, TCP_STATE};
use crate::text::{decimal, friendly_transfer_str, push_digits, rate_text};

verus! {

broadcast use vstd::std_specs::hash::group_hash_axioms;

/// How many samples each history keeps.
pub const HISTORY_RETENTION: usize = 30;

/// `x` put in front of `s`, keeping the newest `HISTORY_RETENTION` entries.
pub open spec fn window<T>(s: Seq<T>, x: T) -> Seq<T> {
    let t = seq![x] + s;
    if t.len() > HISTORY_RETENTION {
        t.subrange(0, HISTORY_RETENTION as int)
    } else {
        t
    }
}

fn push_window<T>(v: &mut VecDeque<T>, x: T)
    ensures
        final(v)@ == window(old(v)@, x),
{
    v.push_front(x);
    v.truncate(HISTORY_RETENTION);
    assert(final(v)@ =~= window(old(v)@, x));
}

/// The samples of one socket, newest first: send rate, receive rate, bytes
/// sent, bytes received, loss percentage, congestion window.
pub struct SocketHistory {
    pub send_bps: VecDeque<u64>,
    pub recv_bps: VecDeque<u64>,
    pub send_bytes: VecDeque<u64>,
    pub recv_bytes: VecDeque<u64>,
    pub packet_loss: VecDeque<u32>,
    pub congestion_window: VecDeque<u64>,
}

/// The six series of a history.
pub type HistoryView = (Seq<u64>, Seq<u64>, Seq<u64>, Seq<u64>, Seq<u32>, Seq<u64>);

impl View for SocketHistory {
    type V = HistoryView;

    open spec fn view(&self) -> HistoryView {
        (
            self.send_bps@,
            self.recv_bps@,
            self.send_bytes@,
            self.recv_bytes@,
            self.packet_loss@,
            self.congestion_window@,
        )
    }
}

/// All six series hold between one and `HISTORY_RETENTION` samples, the
/// same number each.
pub open spec fn history_wf(h: HistoryView) -> bool {
    &&& 1 <= h.0.len() <= HISTORY_RETENTION
    &&& h.1.len() == h.0.len()
    &&& h.2.len() == h.0.len()
    &&& h.3.len() == h.0.len()
    &&& h.4.len() == h.0.len()
    &&& h.5.len() == h.0.len()
}

/// The rate of a cumulative counter since its last value. A counter below
/// its last value (the inode was reused) gives zero, and so does a delta
/// equal to the whole counter (the last value was zero).
pub open spec fn counter_rate(cur: u64, last: u64) -> u64 {
    let d = if cur >= last {
        (cur - last) as u64
    } else {
        0u64
    };
    if d == cur {
        0
    } else {
        d
    }
}

/// Retransmits per data segment sent, in whole percent; zero when nothing
/// was sent.
pub open spec fn loss_percent(info: TCPInfo) -> u32 {
    if info.tcpi_data_segs_out == 0 {
        0
    } else {
        (info.tcpi_total_retrans / info.tcpi_data_segs_out) as u32
    }
}

/// The history of a socket seen for the first time: zero rates, and the
/// current byte counters as the baseline.
pub open spec fn seeded(info: TCPInfo) -> HistoryView {
    (
        seq![0u64],
        seq![0u64],
        seq![info.tcpi_bytes_sent],
        seq![info.tcpi_bytes_received],
        seq![0u32],
        seq![0u64],
    )
}

/// A history after one more sample.
pub open spec fn sampled(h: HistoryView, info: TCPInfo) -> HistoryView {
    (
        window(h.0, counter_rate(info.tcpi_bytes_sent, h.2[0])),
        window(h.1, counter_rate(info.tcpi_bytes_received, h.3[0])),
        window(h.2, info.tcpi_bytes_sent),
        window(h.3, info.tcpi_bytes_received),
        window(h.4, loss_percent(info)),
        window(h.5, info.tcpi_snd_cwnd as u64),
    )
}

fn rate_of(cur: u64, last: u64) -> (r: u64)
    ensures
        r == counter_rate(cur, last),
{
    let d = if cur >= last {
        cur - last
    } else {
        0
    };
    if d == cur {
        0
    } else {
        d
    }
}

/// Loss percentage of a statistics record.
pub fn packet_loss(info: &TCPInfo) -> (r: u32)
    ensures
        r == loss_percent(*info),
{
    if info.tcpi_data_segs_out == 0 {
        0
    } else {
        info.tcpi_total_retrans / info.tcpi_data_segs_out
    }
}

impl SocketHistory {
    /// The seeded history of a socket first seen with `tci`.
    pub fn new(size: usize, tci: &TCPInfo) -> (r: SocketHistory)
        ensures
            r@ == seeded(*tci),
            history_wf(r@),
    {
        let mut history = SocketHistory {
            send_bps: VecDeque::with_capacity(size),
            recv_bps: VecDeque::with_capacity(size),
            send_bytes: VecDeque::with_capacity(size),
            recv_bytes: VecDeque::with_capacity(size),
            packet_loss: VecDeque::with_capacity(size),
            congestion_window: VecDeque::with_capacity(size),
        };
        history.send_bps.push_back(0);
        history.recv_bps.push_back(0);
        history.send_bytes.push_back(tci.tcpi_bytes_sent);
        history.recv_bytes.push_back(tci.tcpi_bytes_received);
        history.packet_loss.push_back(0);
        history.congestion_window.push_back(0);
        assert(history@ =~= seeded(*tci));
        history
    }

    /// Adds the sample of one tick.
    pub fn record(&mut self, tci: &TCPInfo)
        requires
            history_wf(old(self)@),
        ensures
            final(self)@ == sampled(old(self)@, *tci),
            history_wf(final(self)@),
    {
        let send = rate_of(tci.tcpi_bytes_sent, self.send_bytes[0]);
        let recv = rate_of(tci.tcpi_bytes_received, self.recv_bytes[0]);
        let loss = packet_loss(tci);
        push_window(&mut self.send_bps, send);
        push_window(&mut self.recv_bps, recv);
        push_window(&mut self.send_bytes, tci.tcpi_bytes_sent);
        push_window(&mut self.recv_bytes, tci.tcpi_bytes_received);
        push_window(&mut self.packet_loss, loss);
        push_window(&mut self.congestion_window, tci.tcpi_snd_cwnd as u64);
    }
}

/// The histories after one socket's sample: a socket seen for the first
/// time is seeded first.
pub open spec fn observe(m: Map<u32, HistoryView>, d: DiagWithInode) -> Map<u32, HistoryView> {
    let info = d.info->Some_0;
    let h = if m.contains_key(d.inode) {
        m[d.inode]
    } else {
        seeded(info)
    };
    m.insert(d.inode, sampled(h, info))
}

/// The histories after the samples of `s`, in order.
pub open spec fn observe_all(m: Map<u32, HistoryView>, s: Seq<DiagWithInode>) -> Map<
    u32,
    HistoryView,
>
    decreases s.len(),
{
    if s.len() == 0 {
        m
    } else {
        observe(observe_all(m, s.drop_last()), s.last())
    }
}

/// The shown name of an address: the cached name, else its literal.
pub open spec fn name_text(names: Map<(u8, u128), String>, ip: (u8, Seq<u8>)) -> Seq<char> {
    let k = key_of(ip);
    if names.contains_key(k) {
        names[k]@
    } else {
        literal(ip)
    }
}

/// `"<name>:<port>"`.
pub open spec fn endpoint_text(names: Map<(u8, u128), String>, e: Endpoint) -> Seq<char> {
    name_text(names, e.ip@) + seq![':'] + decimal(e.port as nat)
}

/// The display row of a socket whose history is `h`.
pub open spec fn row_text(names: Map<(u8, u128), String>, d: DiagWithInode, h: HistoryView) -> Seq<
    Seq<char>,
> {
    seq![
        endpoint_text(names, d.src),
        endpoint_text(names, d.dst),
        state_name(state_of(d.info->Some_0.tcpi_state)),
        rate_text(h.0[0] as nat),
        rate_text(h.1[0] as nat),
        decimal(h.4[0] as nat) + seq!['%'],
    ]
}

/// The addresses of `ip` that are to be resolved: none on a cache hit.
pub open spec fn miss(names: Map<(u8, u128), String>, ip: (u8, Seq<u8>)) -> Seq<(u8, Seq<u8>)> {
    if names.contains_key(key_of(ip)) {
        Seq::empty()
    } else {
        seq![ip]
    }
}

/// The addresses sent for resolution while rendering `s`: source then
/// destination of each socket, those not in the cache.
pub open spec fn misses_of(names: Map<(u8, u128), String>, s: Seq<DiagWithInode>) -> Seq<(u8, Seq<u8>)>
    decreases s.len(),
{
    if s.len() == 0 {
        Seq::empty()
    } else {
        misses_of(names, s.drop_last()) + miss(names, s.last().src.ip@) + miss(
            names,
            s.last().dst.ip@,
        )
    }
}

/// The views of a list of addresses.
pub open spec fn addresses_view(v: Seq<IpAddress>) -> Seq<(u8, Seq<u8>)> {
    v.map_values(|a: IpAddress| a@)
}

/// The views of the strings of a row.
pub open spec fn row_view(r: Seq<String>) -> Seq<Seq<char>> {
    r.map_values(|s: String| s@)
}

/// Shown name of an address, and whether it has to be resolved.
fn display_name(names: &NameCache, ip: &IpAddress) -> (r: (String, bool))
    requires
        ip.wf(),
    ensures
        r.0@ == name_text(names@, ip@),
        r.1 == !names@.contains_key(key_of(ip@)),
{
    match names.lookup(ip) {
        Some(n) => (n, false),
        None => (crate::names::ip_literal(ip), true),
    }
}

fn endpoint_string(names: &NameCache, e: &Endpoint) -> (r: (String, bool))
    requires
        e.ip.wf(),
    ensures
        r.0@ == endpoint_text(names@, *e),
        r.1 == !names@.contains_key(key_of(e.ip@)),
{
    let (mut s, missed) = display_name(names, &e.ip);
    proof {
        reveal_strlit(":");
        assert(":"@ =~= seq![':']);
    }
    s.append(":");
    push_digits(&mut s, e.port as u64, 10);
    (s, missed)
}

fn loss_string(loss: u32) -> (r: String)
    ensures
        r@ == decimal(loss as nat) + seq!['%'],
{
    let mut s = String::new();
    push_digits(&mut s, loss as u64, 10);
    proof {
        reveal_strlit("%");
        assert("%"@ =~= seq!['%']);
    }
    s.append("%");
    assert(s@ =~= decimal(loss as nat) + seq!['%']);
    s
}

/// The registry of the current sockets, their histories and display rows.
pub struct StatefulTable {
    /// The selected row, if any.
    pub selected: Option<usize>,
    /// One row of six strings per socket, in the order of `sockets`.
    pub items: Vec<Vec<String>>,
    pub sockets: Vec<DiagWithInode>,
    pub history: HashMap<u32, SocketHistory>,
}

impl StatefulTable {
    /// The histories by inode.
    pub open spec fn histories(&self) -> Map<u32, HistoryView> {
        Map::new(|k: u32| self.history@.contains_key(k), |k: u32| self.history@[k]@)
    }

    /// Every history is within the retention window.
    pub open spec fn wf(&self) -> bool {
        forall|k: u32| #[trigger] self.history@.contains_key(k) ==> history_wf(self.history@[k]@)
    }

    /// An empty registry with nothing selected.
    pub fn new() -> (r: StatefulTable)
        ensures
            r.wf(),
            r.selected is None,
            r.items@.len() == 0,
            r.sockets@.len() == 0,
            r.histories() == Map::<u32, HistoryView>::empty(),
    {
        let t = StatefulTable {
            selected: None,
            items: Vec::new(),
            sockets: Vec::new(),
            history: HashMap::new(),
        };
        assert(t.histories() =~= Map::<u32, HistoryView>::empty());
        t
    }

    /// One tick: takes this tick's sockets (as the protocol layer returned
    /// them), samples each into its history in order, and rebuilds the rows
    /// in the same order. Returns the addresses that the cache lacks, to be
    /// resolved.
    pub fn refresh(&mut self, sockets: Vec<DiagWithInode>, names: &NameCache) -> (misses: Vec<
        IpAddress,
    >)
        requires
            old(self).wf(),
            forall|i: int|
                0 <= i < sockets@.len() ==> (#[trigger] sockets@[i]).wf() && sockets@[i].info is Some,
        ensures
            final(self).wf(),
            final(self).sockets@ == sockets@,
            final(self).selected == old(self).selected,
            final(self).histories() == observe_all(old(self).histories(), sockets@),
            final(self).items@.len() == sockets@.len(),
            forall|i: int|
                0 <= i < sockets@.len() ==> row_view((#[trigger] final(self).items@[i])@) == row_text(
                    names@,
                    sockets@[i],
                    observe_all(old(self).histories(), sockets@.take(i + 1))[sockets@[i].inode],
                ),
            addresses_view(misses@) == misses_of(names@, sockets@),
    {
        let ghost h0 = self.histories();
        let mut items: Vec<Vec<String>> = Vec::new();
        let mut misses: Vec<IpAddress> = Vec::new();
        let mut i: usize = 0;
        assert(sockets@.take(0) =~= Seq::<DiagWithInode>::empty());
        assert(addresses_view(misses@) =~= Seq::<(u8, Seq<u8>)>::empty());
        while i < sockets.len()
            invariant
                i <= sockets@.len(),
                self.wf(),
                self.selected == old(self).selected,
                forall|j: int|
                    0 <= j < sockets@.len() ==> (#[trigger] sockets@[j]).wf() && sockets@[j].info is Some,
                self.histories() == observe_all(h0, sockets@.take(i as int)),
                items@.len() == i,
                forall|j: int|
                    0 <= j < i ==> row_view((#[trigger] items@[j])@) == row_text(
                        names@,
                        sockets@[j],
                        observe_all(h0, sockets@.take(j + 1))[sockets@[j].inode],
                    ),
                addresses_view(misses@) == misses_of(names@, sockets@.take(i as int)),
            decreases sockets@.len() - i,
        {
            let sock = &sockets[i];
            let info: TCPInfo = sock.info.unwrap();
            let ghost before = self.histories();
            let ghost old_map = self.history@;
            let mut h = match self.history.remove(&sock.inode) {
                Some(h) => h,
                None => SocketHistory::new(HISTORY_RETENTION, &info),
            };
            h.record(&info);
            let send = h.send_bps[0];
            let recv = h.recv_bps[0];
            let loss = h.packet_loss[0];
            self.history.insert(sock.inode, h);
            proof {
                assert(sockets@.take(i + 1).drop_last() =~= sockets@.take(i as int));
                assert(self.history@ == old_map.insert(sock.inode, h));
                assert(self.histories() =~= observe(before, *sock));
                assert forall|k: u32| #[trigger] self.history@.contains_key(k) implies history_wf(
                    self.history@[k]@,
                ) by {
                    if k != sock.inode {
                        assert(old_map.contains_key(k));
                    }
                }
            }
            let (src, m1) = endpoint_string(names, &sock.src);
            let (dst, m2) = endpoint_string(names, &sock.dst);
            let ghost before_misses = misses@;
            if m1 {
                misses.push(sock.src.ip.copy());
            }
            if m2 {
                misses.push(sock.dst.ip.copy());
            }
            proof {
                assert(addresses_view(misses@) =~= addresses_view(before_misses) + miss(
                    names@,
                    sock.src.ip@,
                ) + miss(names@, sock.dst.ip@));
            }
            let mut row: Vec<String> = Vec::new();
            row.push(src);
            row.push(dst);
            row.push(TCP_STATE::from_u8(info.tcpi_state).to_string());
            row.push(friendly_transfer_str(send));
            row.push(friendly_transfer_str(recv));
            row.push(loss_string(loss));
            assert(row_view(row@) =~= row_text(
                names@,
                *sock,
                observe_all(h0, sockets@.take(i + 1))[sock.inode],
            ));
            items.push(row);
            i = i + 1;
        }
        assert(sockets@.take(sockets@.len() as int) =~= sockets@);
        self.sockets = sockets;
        self.items = items;
        misses
    }

    /// Selects the row after the selected one, wrapping to the first; with
    /// nothing selected, the first. Does nothing when there are no rows.
    pub fn next(&mut self)
        ensures
            final(self).selected == (if old(self).items@.len() == 0 {
                old(self).selected
            } else {
                Some(next_index(old(self).selected, old(self).items@.len()))
            }),
            final(self).items == old(self).items,
            final(self).sockets == old(self).sockets,
            final(self).history == old(self).history,
    {
        let n = self.items.len();
        if n == 0 {
            return;
        }
        let i = match self.selected {
            Some(i) => {
                if i >= n - 1 {
                    0
                } else {
                    i + 1
                }
            },
            None => 0,
        };
        self.selected = Some(i);
    }

    /// Selects the row before the selected one, wrapping to the last; with
    /// nothing selected, the first. Does nothing when there are no rows.
    pub fn previous(&mut self)
        ensures
            final(self).selected == (if old(self).items@.len() == 0 {
                old(self).selected
            } else {
                Some(previous_index(old(self).selected, old(self).items@.len()))
            }),
            final(self).items == old(self).items,
            final(self).sockets == old(self).sockets,
            final(self).history == old(self).history,
    {
        let n = self.items.len();
        if n == 0 {
            return;
        }
        let i = match self.selected {
            Some(i) => {
                if i == 0 {
                    n - 1
                } else {
                    i - 1
                }
            },
            None => 0,
        };
        self.selected = Some(i);
    }

    /// The display rows, one per socket, in the order of `sockets`.
    pub fn rows(&self) -> (r: &Vec<Vec<String>>)
        ensures
            *r == self.items,
    {
        &self.items
    }

    /// The socket of row `index`, if there is such a row.
    pub fn socket_at(&self, index: usize) -> (r: Option<&DiagWithInode>)
        ensures
            r is Some <==> index < self.sockets@.len(),
            r matches Some(d) ==> *d == self.sockets@[index as int],
    {
        if index < self.sockets.len() {
            Some(&self.sockets[index])
        } else {
            None
        }
    }

    /// The history of an inode, if it has one.
    pub fn history_for(&self, inode: u32) -> (r: Option<&SocketHistory>)
        ensures
            r is Some <==> self.history@.contains_key(inode),
            r matches Some(h) ==> *h == self.history@[inode],
    {
        self.history.get(&inode)
    }
}

/// The row after `sel` among `len` rows.
pub open spec fn next_index(sel: Option<usize>, len: nat) -> usize {
    match sel {
        Some(i) => if i >= len - 1 {
            0
        } else {
            (i + 1) as usize
        },
        None => 0,
    }
}

/// The row before `sel` among `len` rows.
pub open spec fn previous_index(sel: Option<usize>, len: nat) -> usize {
    match sel {
        Some(i) => if i == 0 {
            (len - 1) as usize
        } else {
            (i - 1) as usize
        },
        None => 0,
    }
}

/// Selection wraps: after the last of `len` rows comes the first, and
/// before the first comes the last.
pub proof fn lemma_selection_wraps(len: usize)
    requires
        len > 0,
    ensures
        next_index(Some((len - 1) as usize), len as nat) == 0,
        previous_index(Some(0), len as nat) == len - 1,
{
}

/// Loss is zero whenever no data segment was sent, whatever the retransmits.
pub proof fn lemma_no_segments_no_loss(info: TCPInfo)
    requires
        info.tcpi_data_segs_out == 0,
    ensures
        loss_percent(info) == 0,
{
}

/// The first sample of a socket that has no history yet has zero send and
/// receive rates, not its lifetime byte counts.
pub proof fn lemma_first_sample_zero(m: Map<u32, HistoryView>, d: DiagWithInode)
    requires
        !m.contains_key(d.inode),
        d.info is Some,
    ensures
        observe(m, d)[d.inode].0[0] == 0,
        observe(m, d)[d.inode].1[0] == 0,
{
}

/// `xs` pushed one after another onto the window `s`.
pub open spec fn push_all<T>(s: Seq<T>, xs: Seq<T>) -> Seq<T>
    decreases xs.len(),
{
    if xs.len() == 0 {
        s
    } else {
        window(push_all(s, xs.drop_last()), xs.last())
    }
}

/// After any number of samples a window holds at most `HISTORY_RETENTION`
/// of them: the newest, newest first, then what remains of the old ones.
pub proof fn lemma_window_contents<T>(s: Seq<T>, xs: Seq<T>)
    requires
        s.len() <= HISTORY_RETENTION,
    ensures
        push_all(s, xs).len() == if s.len() + xs.len() <= HISTORY_RETENTION {
            s.len() + xs.len()
        } else {
            HISTORY_RETENTION as nat
        },
        forall|j: int|
            0 <= j < push_all(s, xs).len() && j < xs.len() ==> #[trigger] push_all(s, xs)[j] == xs[xs.len()
                - 1 - j],
        forall|j: int|
            xs.len() <= j < push_all(s, xs).len() ==> #[trigger] push_all(s, xs)[j] == s[j - xs.len()],
    decreases xs.len(),
{
    if xs.len() > 0 {
        lemma_window_contents(s, xs.drop_last());
    }
}

/// After `HISTORY_RETENTION` samples none of a window's earlier entries is
/// left: it holds exactly the new samples, newest first.
pub proof fn lemma_window_evicts_all<T>(s: Seq<T>, xs: Seq<T>)
    requires
        s.len() <= HISTORY_RETENTION,
        xs.len() == HISTORY_RETENTION,
    ensures
        push_all(s, xs).len() == HISTORY_RETENTION,
        forall|j: int|
            0 <= j < HISTORY_RETENTION ==> #[trigger] push_all(s, xs)[j] == xs[HISTORY_RETENTION - 1
                - j],
{
    lemma_window_contents(s, xs);
}

/// The histories after several refreshes, one batch of sockets each.
pub open spec fn refresh_all(m: Map<u32, HistoryView>, batches: Seq<Seq<DiagWithInode>>) -> Map<
    u32,
    HistoryView,
>
    decreases batches.len(),
{
    if batches.len() == 0 {
        m
    } else {
        observe_all(refresh_all(m, batches.drop_last()), batches.last())
    }
}

/// Every batch holds just one socket, with inode `i` and statistics.
pub open spec fn single_inode_batches(batches: Seq<Seq<DiagWithInode>>, i: u32) -> bool {
    forall|j: int|
        0 <= j < batches.len() ==> (#[trigger] batches[j]).len() == 1 && batches[j][0].inode == i
            && batches[j][0].info is Some
}

/// The bytes-sent counters that the batches report, oldest first.
pub open spec fn sent_counters(batches: Seq<Seq<DiagWithInode>>) -> Seq<u64> {
    Seq::new(batches.len(), |j: int| batches[j][0].info->Some_0.tcpi_bytes_sent)
}

proof fn lemma_single_inode_series(
    m: Map<u32, HistoryView>,
    batches: Seq<Seq<DiagWithInode>>,
    i: u32,
    k: int,
)
    requires
        !m.contains_key(i),
        single_inode_batches(batches, i),
        1 <= k <= batches.len(),
    ensures
        refresh_all(m, batches.take(k)).contains_key(i),
        refresh_all(m, batches.take(k))[i].2 == push_all(
            seq![sent_counters(batches)[0]],
            sent_counters(batches).take(k),
        ),
    decreases k,
{
    let xs = sent_counters(batches);
    let b = batches.take(k);
    assert(b.drop_last() =~= batches.take(k - 1));
    assert(b.last() == batches[k - 1]);
    assert(batches[k - 1].drop_last() =~= Seq::<DiagWithInode>::empty());
    assert(xs.take(k).drop_last() =~= xs.take(k - 1));
    let prev = refresh_all(m, batches.take(k - 1));
    let d = batches[k - 1][0];
    let s1 = batches[k - 1];
    assert(s1.len() == 1 && d.inode == i && d.info is Some);
    assert(observe_all(prev, s1.drop_last()) == prev);
    assert(s1.last() == d);
    assert(observe_all(prev, s1) == observe(prev, d));
    assert(refresh_all(m, b) == observe(prev, d));
    assert(xs.take(k).last() == d.info->Some_0.tcpi_bytes_sent);
    if k == 1 {
        assert(batches.take(0) =~= Seq::<Seq<DiagWithInode>>::empty());
        assert(xs.take(0) =~= Seq::<u64>::empty());
        assert(prev == m);
        assert(xs[0] == d.info->Some_0.tcpi_bytes_sent);
        assert(push_all(seq![xs[0]], xs.take(0)) == seq![xs[0]]);
        assert(xs.take(1).last() == xs[0]);
        assert(push_all(seq![xs[0]], xs.take(1)) == window(seq![xs[0]], xs[0]));
    } else {
        lemma_single_inode_series(m, batches, i, k - 1);
        assert(push_all(seq![xs[0]], xs.take(k)) == window(
            push_all(seq![xs[0]], xs.take(k - 1)),
            xs.take(k).last(),
        ));
    }
}

/// A socket first seen at the first of `HISTORY_RETENTION` refreshes, and
/// present in each, ends with exactly the counters of those refreshes in its
/// bytes-sent history, newest first: the seed sample has been evicted.
pub proof fn lemma_seed_evicted_after_window(
    m: Map<u32, HistoryView>,
    batches: Seq<Seq<DiagWithInode>>,
    i: u32,
)
    requires
        !m.contains_key(i),
        batches.len() == HISTORY_RETENTION,
        single_inode_batches(batches, i),
    ensures
        refresh_all(m, batches).contains_key(i),
        refresh_all(m, batches)[i].2.len() == HISTORY_RETENTION,
        forall|j: int|
            0 <= j < HISTORY_RETENTION ==> #[trigger] refresh_all(m, batches)[i].2[j] == batches[HISTORY_RETENTION
                - 1 - j][0].info->Some_0.tcpi_bytes_sent,
{
    let xs = sent_counters(batches);
    lemma_single_inode_series(m, batches, i, HISTORY_RETENTION as int);
    assert(batches.take(HISTORY_RETENTION as int) =~= batches);
    assert(xs.take(HISTORY_RETENTION as int) =~= xs);
    lemma_window_evicts_all(seq![xs[0]], xs);
}

/// A socket that is not listening never shows "LISTEN" in its row.
pub proof fn lemma_row_never_listen(names: Map<(u8, u128), String>, d: DiagWithInode, h: HistoryView)
    requires
        d.info is Some,
        d.info->Some_0.tcpi_state != crate::tcpdiag::TCP_LISTEN,
    ensures
        row_text(names, d, h)[2] != "LISTEN"@,
{
    crate::tcpdiag::lemma_state_name_listen(d.info->Some_0.tcpi_state);
}

} // verus!
