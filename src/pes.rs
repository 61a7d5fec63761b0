use vstd::prelude::*;
use crate::error::{ErrorKind, Result};
use crate::es::StreamId;
use crate::pmt::be16;
use crate::ts::{spec_read_step, TsPacket, TsPacketReader, TsPacketView};
use vstd::pervasive::VecAdditionalExecFns;

verus! {

/// The fixed part of a PES header: start code prefix, stream id, packet length.
pub const PES_FIXED_HEADER_SIZE: usize = 6;

/// The header of a PES packet.
#[derive(Debug, Clone, Copy, PartialEq, Eq, Structural)]
pub struct PesHeader {
    pub stream_id: StreamId,
    pub priority: bool,
    pub data_alignment_indicator: bool,
    pub copyright: bool,
    pub original_or_copy: bool,
    /// Presentation timestamp, 33 bits at 90 kHz.
    pub pts: Option<u64>,
    /// Decoding timestamp, 33 bits at 90 kHz.
    pub dts: Option<u64>,
}

/// Whether stream id `id` has no optional PES header: program stream map,
/// padding, private stream 2, ECM, EMM, DSM-CC, H.222.1 type E and the
/// program stream directory.
pub open spec fn lacks_optional_header(id: u8) -> bool {
    id == 0xBC || id == 0xBE || id == 0xBF || id == 0xF0 || id == 0xF1 || id == 0xF2 || id == 0xF8
        || id == 0xFF
}

/// The 33-bit timestamp in the five bytes at `s[i..i + 5]`, whose three
/// marker bits must be ones.
pub open spec fn spec_timestamp(s: Seq<u8>, i: int) -> Result<u64> {
    if s[i] & 0x01u8 == 0 || s[i + 2] & 0x01u8 == 0 || s[i + 4] & 0x01u8 == 0 {
        Err(ErrorKind::InvalidInput)
    } else {
        Ok(
            (((s[i] as int / 2) % 8) * 0x4000_0000 + (be16(s[i + 1], s[i + 2]) / 2) * 0x8000 + be16(
                s[i + 3],
                s[i + 4],
            ) / 2) as u64,
        )
    }
}

/// The start of a PES packet at the start of `s`: its header, how many data
/// bytes it declares (`None` for a length field of zero, meaning unbounded),
/// and where its data begins in `s`.
pub open spec fn spec_pes_start(s: Seq<u8>) -> Result<(PesHeader, Option<int>, int)> {
    if s.len() < 6 {
        Err(ErrorKind::Truncated)
    } else if s[0] != 0 || s[1] != 0 || s[2] != 1 {
        Err(ErrorKind::InvalidInput)
    } else if lacks_optional_header(s[3]) {
        let plen = be16(s[4], s[5]);
        Ok(
            (
                PesHeader {
                    stream_id: StreamId { value: s[3] },
                    priority: false,
                    data_alignment_indicator: false,
                    copyright: false,
                    original_or_copy: false,
                    pts: None,
                    dts: None,
                },
                if plen == 0 {
                    None
                } else {
                    Some(plen)
                },
                6,
            ),
        )
    } else if s.len() < 9 {
        Err(ErrorKind::Truncated)
    } else if s[6] & 0xC0u8 != 0x80u8 {
        Err(ErrorKind::InvalidInput)
    } else {
        let flags = s[7] >> 6u8;
        let hdl = s[8] as int;
        let plen = be16(s[4], s[5]);
        if flags == 1 {
            Err(ErrorKind::InvalidInput)
        } else if s.len() < 9 + hdl {
            Err(ErrorKind::Truncated)
        } else if (flags >= 2 && hdl < 5) || (flags == 3 && hdl < 10) {
            Err(ErrorKind::InvalidInput)
        } else if plen != 0 && plen < 3 + hdl {
            Err(ErrorKind::InvalidInput)
        } else {
            let pts = if flags >= 2 {
                spec_timestamp(s, 9)
            } else {
                Ok(0u64)
            };
            let dts = if flags == 3 {
                spec_timestamp(s, 14)
            } else {
                Ok(0u64)
            };
            match (pts, dts) {
                (Err(e), _) => Err(e),
                (_, Err(e)) => Err(e),
                (Ok(p), Ok(d)) => Ok(
                    (
                        PesHeader {
                            stream_id: StreamId { value: s[3] },
                            priority: s[6] & 0x08u8 != 0,
                            data_alignment_indicator: s[6] & 0x04u8 != 0,
                            copyright: s[6] & 0x02u8 != 0,
                            original_or_copy: s[6] & 0x01u8 != 0,
                            pts: if flags >= 2 {
                                Some(p)
                            } else {
                                None
                            },
                            dts: if flags == 3 {
                                Some(d)
                            } else {
                                None
                            },
                        },
                        if plen == 0 {
                            None
                        } else {
                            Some(plen - 3 - hdl)
                        },
                        9 + hdl,
                    ),
                ),
            }
        }
    }
}

fn read_timestamp(s: &[u8], i: usize) -> (r: Result<u64>)
    requires
        i + 5 <= s@.len(),
    ensures
        r == spec_timestamp(s@, i as int),
{
    if s[i] & 0x01u8 == 0 || s[i + 2] & 0x01u8 == 0 || s[i + 4] & 0x01u8 == 0 {
        return Err(ErrorKind::InvalidInput);
    }
    let hi: u64 = ((s[i] as u64 / 2) % 8) * 0x4000_0000;
    let mid: u64 = ((s[i + 1] as u64 * 256 + s[i + 2] as u64) / 2) * 0x8000;
    let lo: u64 = (s[i + 3] as u64 * 256 + s[i + 4] as u64) / 2;
    Ok(hi + mid + lo)
}

impl PesHeader {
    /// Reads the header at the start of the PES packet `s`; returns it with
    /// the number of data bytes declared (`None` where unbounded) and the
    /// offset of the data.
    pub fn read_from(s: &[u8]) -> (r: Result<(PesHeader, Option<usize>, usize)>)
        ensures
            match r {
                Ok((h, n, off)) => spec_pes_start(s@) == Ok::<_, ErrorKind>(
                    (
                        h,
                        match n {
                            Some(k) => Some(k as int),
                            None => None::<int>,
                        },
                        off as int,
                    ),
                ),
                Err(e) => spec_pes_start(s@) == Err::<(PesHeader, Option<int>, int), ErrorKind>(e),
            },
    {
        if s.len() < 6 {
            return Err(ErrorKind::Truncated);
        }
        if s[0] != 0 || s[1] != 0 || s[2] != 1 {
            return Err(ErrorKind::InvalidInput);
        }
        let id = s[3];
        let plen: usize = s[4] as usize * 256 + s[5] as usize;
        if id == 0xBC || id == 0xBE || id == 0xBF || id == 0xF0 || id == 0xF1 || id == 0xF2 || id
            == 0xF8 || id == 0xFF {
            let h = PesHeader {
                stream_id: StreamId { value: id },
                priority: false,
                data_alignment_indicator: false,
                copyright: false,
                original_or_copy: false,
                pts: None,
                dts: None,
            };
            return Ok((h, if plen == 0 { None } else { Some(plen) }, 6));
        }
        if s.len() < 9 {
            return Err(ErrorKind::Truncated);
        }
        let b6 = s[6];
        if b6 & 0xC0u8 != 0x80u8 {
            return Err(ErrorKind::InvalidInput);
        }
        let flags = s[7] >> 6u8;
        let hdl = s[8] as usize;
        if flags == 1 {
            return Err(ErrorKind::InvalidInput);
        }
        if s.len() - 9 < hdl {
            return Err(ErrorKind::Truncated);
        }
        if (flags >= 2 && hdl < 5) || (flags == 3 && hdl < 10) {
            return Err(ErrorKind::InvalidInput);
        }
        if plen != 0 && plen < 3 + hdl {
            return Err(ErrorKind::InvalidInput);
        }
        let pts = if flags >= 2 {
            Some(read_timestamp(s, 9)?)
        } else {
            None
        };
        let dts = if flags == 3 {
            Some(read_timestamp(s, 14)?)
        } else {
            None
        };
        let h = PesHeader {
            stream_id: StreamId { value: id },
            priority: b6 & 0x08u8 != 0,
            data_alignment_indicator: b6 & 0x04u8 != 0,
            copyright: b6 & 0x02u8 != 0,
            original_or_copy: b6 & 0x01u8 != 0,
            pts,
            dts,
        };
        Ok((h, if plen == 0 { None } else { Some(plen - 3 - hdl) }, 9 + hdl))
    }
}

/// What a PES packet holds.
pub struct PesPacketView {
    pub header: PesHeader,
    pub data: Seq<u8>,
}

/// A reassembled PES packet: its header and its data bytes.
#[derive(Debug, Clone, PartialEq, Eq)]
pub struct PesPacket {
    pub header: PesHeader,
    pub data: Vec<u8>,
}

impl View for PesPacket {
    type V = PesPacketView;

    open spec fn view(&self) -> PesPacketView {
        PesPacketView { header: self.header, data: self.data@ }
    }
}

/// What a PES packet under reassembly holds: its header, the number of data
/// bytes it declared (`None` where unbounded) and the data bytes so far.
pub struct PartialView {
    pub header: PesHeader,
    pub expected: Option<int>,
    pub data: Seq<u8>,
}

/// A PES packet under reassembly.
struct PartialPes {
    header: PesHeader,
    expected: Option<usize>,
    data: Vec<u8>,
}

impl View for PartialPes {
    type V = PartialView;

    closed spec fn view(&self) -> PartialView {
        PartialView {
            header: self.header,
            expected: match self.expected {
                Some(n) => Some(n as int),
                None => None,
            },
            data: self.data@,
        }
    }
}

/// The views of the per-PID reassembly slots.
spec fn slot_views(s: Seq<Option<PartialPes>>) -> Seq<Option<PartialView>> {
    s.map_values(
        |o: Option<PartialPes>|
            match o {
                Some(q) => Some(q@),
                None => None,
            },
    )
}

/// The views of a sequence of PES packets.
pub open spec fn pes_views(s: Seq<PesPacket>) -> Seq<PesPacketView> {
    s.map_values(|p: PesPacket| p@)
}

/// Whether PID `pid` may carry PES packets: not one of the PIDs reserved for
/// tables (below 0x20), not the null PID.
pub open spec fn is_pes_pid(pid: u16) -> bool {
    0x20 <= pid < 0x1FFF
}

/// Whether `s` starts with the PES start code prefix 00 00 01.
pub open spec fn starts_pes(s: Seq<u8>) -> bool {
    s.len() >= 3 && s[0] == 0 && s[1] == 0 && s[2] == 1
}

/// The packet that a slot holds when its unit ends, if it may end there: an
/// unbounded one ends at the next start, a bounded one that is still short is
/// `Truncated`.
pub open spec fn spec_close(slot: Option<PartialView>) -> Result<Seq<PesPacketView>> {
    match slot {
        None => Ok(Seq::empty()),
        Some(q) => if q.expected is Some {
            Err(ErrorKind::Truncated)
        } else {
            Ok(seq![PesPacketView { header: q.header, data: q.data }])
        },
    }
}

/// The slot after `q` received data `data`, with the packet that completes if
/// its declared length is reached.
pub open spec fn spec_fill(header: PesHeader, expected: Option<int>, data: Seq<u8>) -> (
    Option<PartialView>,
    Seq<PesPacketView>,
) {
    match expected {
        Some(n) => if data.len() >= n {
            (None, seq![PesPacketView { header, data: data.subrange(0, n) }])
        } else {
            (Some(PartialView { header, expected, data }), Seq::empty())
        },
        None => (Some(PartialView { header, expected, data }), Seq::empty()),
    }
}

/// One transport packet `p` given to the reassembly slots `slots`: the new
/// slots and the PES packets completed, in order. Packets of other PIDs than
/// PES ones, packets without payload, unit starts that are sections rather than
/// PES, and continuations of units whose start was not seen pass by.
pub open spec fn spec_pes_push(slots: Seq<Option<PartialView>>, p: TsPacketView) -> Result<
    (Seq<Option<PartialView>>, Seq<PesPacketView>),
> {
    let pid = p.pid as int;
    if !is_pes_pid(p.pid) || !p.has_payload {
        Ok((slots, Seq::empty()))
    } else if p.payload_unit_start_indicator {
        if !starts_pes(p.payload) {
            Ok((slots, Seq::empty()))
        } else {
            match spec_pes_start(p.payload) {
                Err(e) => Err(e),
                Ok((h, expected, off)) => match spec_close(slots[pid]) {
                    Err(e) => Err(e),
                    Ok(closed) => {
                        let (slot, done) = spec_fill(
                            h,
                            expected,
                            p.payload.subrange(off, p.payload.len() as int),
                        );
                        Ok((slots.update(pid, slot), closed + done))
                    },
                },
            }
        }
    } else {
        match slots[pid] {
            None => Ok((slots, Seq::empty())),
            Some(q) => {
                let (slot, done) = spec_fill(q.header, q.expected, q.data + p.payload);
                Ok((slots.update(pid, slot), done))
            },
        }
    }
}

/// The packets that the slots from index `i` on close with at the end of the
/// stream, in PID order.
pub open spec fn spec_flush(slots: Seq<Option<PartialView>>, i: int) -> Result<Seq<PesPacketView>>
    decreases slots.len() - i,
{
    if i < 0 || i >= slots.len() {
        Ok(Seq::empty())
    } else {
        match spec_close(slots[i]) {
            Err(e) => Err(e),
            Ok(closed) => match spec_flush(slots, i + 1) {
                Err(e) => Err(e),
                Ok(rest) => Ok(closed + rest),
            },
        }
    }
}

fn take_data(q: PartialPes) -> (r: (PesHeader, Option<usize>, Vec<u8>))
    ensures
        r.0 == q.header,
        r.1 == q.expected,
        r.2@ == q.data@,
{
    (q.header, q.expected, q.data)
}

fn fill(header: PesHeader, expected: Option<usize>, data: Vec<u8>) -> (r: (
    Option<PartialPes>,
    Vec<PesPacket>,
))
    ensures
        ({
            let (slot, done) = spec_fill(
                header,
                match expected {
                    Some(n) => Some(n as int),
                    None => None,
                },
                data@,
            );
            &&& match r.0 {
                Some(q) => slot == Some(q@),
                None => slot is None,
            }
            &&& pes_views(r.1@) == done
        }),
{
    let mut done: Vec<PesPacket> = Vec::new();
    match expected {
        Some(n) => {
            if data.len() >= n {
                let mut data = data;
                data.truncate(n);
                done.push(PesPacket { header, data });
                assert(pes_views(done@) =~= seq![done@[0]@]);
                return (None, done);
            }
        },
        None => {},
    }
    assert(pes_views(done@) =~= Seq::<PesPacketView>::empty());
    (Some(PartialPes { header, expected, data }), done)
}

/// Gives transport packet `p` to the reassembly slots.
fn push_packet(slots: &mut Vec<Option<PartialPes>>, p: TsPacket) -> (r: Result<Vec<PesPacket>>)
    requires
        old(slots)@.len() == 8192,
    ensures
        final(slots)@.len() == 8192,
        match r {
            Ok(out) => spec_pes_push(slot_views(old(slots)@), p@) == Ok::<_, ErrorKind>(
                (slot_views(final(slots)@), pes_views(out@)),
            ),
            Err(e) => spec_pes_push(slot_views(old(slots)@), p@) == Err::<
                (Seq<Option<PartialView>>, Seq<PesPacketView>),
                ErrorKind,
            >(e) && final(slots)@ == old(slots)@,
        },
{
    let ghost old_slots = slots@;
    let pid = p.pid.as_u16();
    let ghost pv = p@;
    let empty: Vec<PesPacket> = Vec::new();
    assert(pes_views(empty@) =~= Seq::<PesPacketView>::empty());
    if pid < 0x20 || pid == 0x1FFF || !p.has_payload {
        return Ok(empty);
    }
    let payload = p.payload;
    let pid = pid as usize;
    if p.payload_unit_start_indicator {
        if !(payload.len() >= 3 && payload[0] == 0 && payload[1] == 0 && payload[2] == 1) {
            return Ok(empty);
        }
        let (h, expected, off) = PesHeader::read_from(payload.as_slice())?;
        match &slots[pid] {
            Some(q) => {
                if q.expected.is_some() {
                    return Err(ErrorKind::Truncated);
                }
            },
            None => {},
        }
        let mut slot: Option<PartialPes> = None;
        slots.set_and_swap(pid, &mut slot);
        let mut out: Vec<PesPacket> = Vec::new();
        match slot {
            Some(q) => {
                let (qh, _qe, qd) = take_data(q);
                out.push(PesPacket { header: qh, data: qd });
            },
            None => {},
        }
        let ghost closed = pes_views(out@);
        assert(spec_close(slot_views(old_slots)[pid as int]) == Ok::<_, ErrorKind>(closed)) by {
            match slot {
                Some(q) => {
                    assert(closed =~= seq![PesPacketView { header: q@.header, data: q@.data }]);
                },
                None => {
                    assert(closed =~= Seq::<PesPacketView>::empty());
                },
            }
        }
        let body = vstd::slice::slice_to_vec(
            vstd::slice::slice_subrange(payload.as_slice(), off, payload.len()),
        );
        let (new_slot, mut done) = fill(h, expected, body);
        let ghost done_v = pes_views(done@);
        out.append(&mut done);
        assert(pes_views(out@) =~= closed + done_v);
        assert(payload@.subrange(off as int, payload@.len() as int) == body@);
        slots.set(pid, new_slot);
        assert(slot_views(slots@) =~= slot_views(old_slots).update(pid as int, match new_slot {
            Some(q) => Some(q@),
            None => None,
        }));
        Ok(out)
    } else {
        let mut slot: Option<PartialPes> = None;
        slots.set_and_swap(pid, &mut slot);
        match slot {
            None => {
                assert(slots@ =~= old_slots);
                Ok(empty)
            },
            Some(q) => {
                let (qh, qe, qd) = take_data(q);
                let mut data = qd;
                let mut more = payload;
                data.append(&mut more);
                let (new_slot, done) = fill(qh, qe, data);
                slots.set(pid, new_slot);
                assert(slot_views(slots@) =~= slot_views(old_slots).update(pid as int, match new_slot {
                    Some(q) => Some(q@),
                    None => None,
                }));
                Ok(done)
            },
        }
    }
}

/// Whether a slot holds a packet that declared its length.
pub open spec fn is_bounded(slot: Option<PartialView>) -> bool {
    slot matches Some(q) && q.expected is Some
}

proof fn lemma_flush_truncated(v: Seq<Option<PartialView>>, i: int, j: int)
    requires
        0 <= i <= j < v.len(),
        is_bounded(v[j]),
    ensures
        spec_flush(v, i) == Err::<Seq<PesPacketView>, ErrorKind>(ErrorKind::Truncated),
    decreases j - i,
{
    if i < j {
        lemma_flush_truncated(v, i + 1, j);
    }
}

/// Closes every slot at the end of the stream.
fn flush(slots: &mut Vec<Option<PartialPes>>) -> (r: Result<Vec<PesPacket>>)
    requires
        old(slots)@.len() == 8192,
    ensures
        final(slots)@.len() == 8192,
        match r {
            Ok(out) => spec_flush(slot_views(old(slots)@), 0) == Ok::<_, ErrorKind>(pes_views(out@))
                && slot_views(final(slots)@) == Seq::new(8192, |k: int| None::<PartialView>),
            Err(e) => spec_flush(slot_views(old(slots)@), 0) == Err::<Seq<PesPacketView>, ErrorKind>(e)
                && final(slots)@ == old(slots)@,
        },
{
    let ghost v = slot_views(slots@);
    let mut i: usize = 0;
    while i < slots.len()
        invariant
            slots@.len() == 8192,
            i <= 8192,
            v == slot_views(slots@),
            v.len() == 8192,
            forall|j: int| 0 <= j < i ==> !is_bounded(v[j]),
        decreases 8192 - i,
    {
        match &slots[i] {
            Some(q) => {
                if q.expected.is_some() {
                    proof {
                        lemma_flush_truncated(v, 0, i as int);
                    }
                    return Err(ErrorKind::Truncated);
                }
            },
            None => {},
        }
        i = i + 1;
    }
    let mut out: Vec<PesPacket> = Vec::new();
    let mut i: usize = 0;
    proof {
        match spec_flush(v, 0) {
            Ok(rest) => {
                assert(pes_views(out@) + rest =~= rest);
            },
            Err(_) => {},
        }
    }
    while i < slots.len()
        invariant
            slots@.len() == 8192,
            i <= 8192,
            v.len() == 8192,
            forall|j: int| 0 <= j < 8192 ==> !is_bounded(v[j]),
            forall|j: int| 0 <= j < i ==> slots@[j] is None,
            forall|j: int| i <= j < 8192 ==> slot_views(slots@)[j] == v[j],
            spec_flush(v, 0) == match spec_flush(v, i as int) {
                Ok(rest) => Ok(pes_views(out@) + rest),
                Err(e) => Err(e),
            },
        decreases 8192 - i,
    {
        let ghost vi = slot_views(slots@)[i as int];
        assert(vi == v[i as int]);
        let mut slot: Option<PartialPes> = None;
        slots.set_and_swap(i, &mut slot);
        let ghost before = pes_views(out@);
        match slot {
            Some(q) => {
                assert(vi == Some(q@));
                let (qh, _qe, qd) = take_data(q);
                out.push(PesPacket { header: qh, data: qd });
                proof {
                    assert(pes_views(out@) =~= before + seq![PesPacketView { header: qh, data: qd@ }]);
                    match spec_flush(v, i + 1) {
                        Ok(rest) => {
                            assert(before + (seq![PesPacketView { header: qh, data: qd@ }] + rest)
                                =~= pes_views(out@) + rest);
                        },
                        Err(_) => {},
                    }
                }
            },
            None => {
                proof {
                    match spec_flush(v, i + 1) {
                        Ok(rest) => {
                            assert(Seq::<PesPacketView>::empty() + rest =~= rest);
                        },
                        Err(_) => {},
                    }
                }
            },
        }
        i = i + 1;
    }
    proof {
        assert(pes_views(out@) + Seq::<PesPacketView>::empty() =~= pes_views(out@));
        assert(slot_views(slots@) =~= Seq::new(8192, |k: int| None::<PartialView>));
    }
    Ok(out)
}

/// The state of a PES reader: the framer's data, position and counters, the
/// reassembly slots, and the completed packets not yet handed out.
pub struct PesState {
    pub data: Seq<u8>,
    pub pos: int,
    pub counters: Seq<Option<u8>>,
    pub slots: Seq<Option<PartialView>>,
    pub ready: Seq<PesPacketView>,
}

/// The result of the next PES read from state `st`, and the state after it.
/// Completed packets are handed out first; otherwise transport packets are
/// read and given to reassembly until one completes a PES packet. At the end
/// of the stream the unbounded packets under reassembly are delivered in PID
/// order, and `None` comes after them. Errors of the layers below pass up.
pub open spec fn spec_next_pes(st: PesState) -> (Result<Option<PesPacketView>>, PesState)
    decreases st.data.len() - st.pos,
{
    if st.ready.len() > 0 {
        (Ok(Some(st.ready[0])), PesState { ready: st.ready.drop_first(), ..st })
    } else {
        let (r, pos, counters) = spec_read_step(st.data, st.pos, st.counters);
        let moved = PesState { pos, counters, ..st };
        match r {
            Err(e) => (Err(e), moved),
            Ok(None) => match spec_flush(st.slots, 0) {
                Err(e) => (Err(e), moved),
                Ok(out) => {
                    let cleared = PesState {
                        slots: Seq::new(st.slots.len(), |k: int| None::<PartialView>),
                        ..moved
                    };
                    if out.len() == 0 {
                        (Ok(None), cleared)
                    } else {
                        (Ok(Some(out[0])), PesState { ready: out.drop_first(), ..cleared })
                    }
                },
            },
            Ok(Some(p)) => match spec_pes_push(st.slots, p) {
                Err(e) => (Err(e), moved),
                Ok((slots, out)) => if out.len() > 0 {
                    (Ok(Some(out[0])), PesState { slots, ready: out.drop_first(), ..moved })
                } else {
                    spec_next_pes(PesState { slots, ..moved })
                },
            },
        }
    }
}

/// The view of what a PES read returned.
pub open spec fn pes_read_view(r: Result<Option<PesPacket>>) -> Result<Option<PesPacketView>> {
    match r {
        Ok(Some(p)) => Ok(Some(p@)),
        Ok(None) => Ok(None),
        Err(e) => Err(e),
    }
}

/// Reassembles PES packets from the packets of a transport stream reader.
pub struct PesPacketReader {
    ts: TsPacketReader,
    slots: Vec<Option<PartialPes>>,
    ready: Vec<PesPacket>,
}

impl PesPacketReader {
    /// The reader's invariant.
    pub closed spec fn wf(self) -> bool {
        self.ts.wf() && self.slots@.len() == 8192
    }

    /// The reader's state.
    pub closed spec fn state(self) -> PesState {
        PesState {
            data: self.ts.spec_data(),
            pos: self.ts.spec_pos(),
            counters: self.ts.spec_counters(),
            slots: slot_views(self.slots@),
            ready: pes_views(self.ready@),
        }
    }

    /// Starts reassembly over `ts`, with nothing under reassembly.
    pub fn new(ts: TsPacketReader) -> (r: PesPacketReader)
        requires
            ts.wf(),
        ensures
            r.wf(),
            r.state() == (PesState {
                data: ts.spec_data(),
                pos: ts.spec_pos(),
                counters: ts.spec_counters(),
                slots: Seq::new(8192, |k: int| None::<PartialView>),
                ready: Seq::empty(),
            }),
    {
        let mut slots: Vec<Option<PartialPes>> = Vec::new();
        let mut i: usize = 0;
        while i < 8192
            invariant
                i <= 8192,
                slots@.len() == i,
                forall|j: int| 0 <= j < i ==> slots@[j] is None,
            decreases 8192 - i,
        {
            slots.push(None);
            i = i + 1;
        }
        let ready: Vec<PesPacket> = Vec::new();
        let r = PesPacketReader { ts, slots, ready };
        assert(slot_views(r.slots@) =~= Seq::new(8192, |k: int| None::<PartialView>));
        assert(pes_views(r.ready@) =~= Seq::<PesPacketView>::empty());
        r
    }

    fn hand_out(&mut self, out: Vec<PesPacket>) -> (r: PesPacket)
        requires
            out@.len() > 0,
        ensures
            r@ == pes_views(out@)[0],
            final(self).ready@ == out@.drop_first(),
            final(self).ts == old(self).ts,
            final(self).slots == old(self).slots,
            pes_views(final(self).ready@) == pes_views(out@).drop_first(),
    {
        let ghost orig = out@;
        let mut out = out;
        let p = out.remove(0);
        self.ready = out;
        assert(pes_views(self.ready@) =~= pes_views(orig).drop_first());
        p
    }

    /// Reads the next reassembled PES packet.
    pub fn read_pes_packet(&mut self) -> (r: Result<Option<PesPacket>>)
        requires
            old(self).wf(),
        ensures
            final(self).wf(),
            (pes_read_view(r), final(self).state()) == spec_next_pes(old(self).state()),
    {
        if self.ready.len() > 0 {
            let mut ready = Vec::new();
            core::mem::swap(&mut ready, &mut self.ready);
            let p = self.hand_out(ready);
            return Ok(Some(p));
        }
        let ghost target = spec_next_pes(self.state());
        loop
            invariant
                self.wf(),
                self.ready@.len() == 0,
                spec_next_pes(self.state()) == target,
                target == spec_next_pes(old(self).state()),
            decreases self.state().data.len() - self.state().pos,
        {
            let ghost st = self.state();
            let r = self.ts.read_ts_packet();
            proof {
                assert(spec_read_step(st.data, st.pos, st.counters).1 == self.state().pos);
                assert(self.state().ready =~= st.ready);
                assert(self.state().slots == st.slots);
            }
            match r {
                Err(e) => {
                    return Err(e);
                },
                Ok(None) => {
                    let out = flush(&mut self.slots)?;
                    if out.len() == 0 {
                        return Ok(None);
                    }
                    let p = self.hand_out(out);
                    return Ok(Some(p));
                },
                Ok(Some(packet)) => {
                    let out = push_packet(&mut self.slots, packet)?;
                    if out.len() > 0 {
                        let p = self.hand_out(out);
                        return Ok(Some(p));
                    }
                },
            }
        }
    }
}

} // verus!
