use vstd::prelude::*;
use crate::error::{ErrorKind, Result};
use crate::types::{Pid, NULL_PID, PID_LIMIT};

verus! {

/// The size of a transport stream packet in bytes.
pub const PACKET_SIZE: usize = 188;

/// The byte that starts every packet.
pub const SYNC_BYTE: u8 = 0x47;

/// A program clock reference: a 33-bit base at 90 kHz and a 9-bit extension.
#[derive(Debug, Clone, Copy, PartialEq, Eq, Structural)]
pub struct ClockReference {
    pub base: u64,
    pub extension: u16,
}

/// The adaptation field of a packet, as far as this library reads it.
#[derive(Debug, Clone, Copy, PartialEq, Eq, Structural)]
pub struct AdaptationField {
    pub discontinuity_indicator: bool,
    pub random_access_indicator: bool,
    pub es_priority_indicator: bool,
    pub pcr: Option<ClockReference>,
}

/// What a packet holds, its PID as a number.
pub struct TsPacketView {
    pub transport_error_indicator: bool,
    pub payload_unit_start_indicator: bool,
    pub transport_priority: bool,
    pub pid: u16,
    pub transport_scrambling_control: u8,
    pub continuity_counter: u8,
    pub adaptation_field: Option<AdaptationField>,
    pub has_payload: bool,
    pub payload: Seq<u8>,
}

/// The program clock reference in the six bytes at `s[i..i + 6]`.
pub open spec fn spec_pcr(s: Seq<u8>, i: int) -> ClockReference {
    ClockReference {
        base: (s[i] as int * 0x200_0000 + s[i + 1] as int * 0x2_0000 + s[i + 2] as int * 0x200
            + s[i + 3] as int * 2 + s[i + 4] as int / 128) as u64,
        extension: ((s[i + 4] as int % 2) * 256 + s[i + 5] as int) as u16,
    }
}

/// The adaptation field of length `len` whose flags byte, if any, is `s[5]`.
pub open spec fn spec_adaptation(s: Seq<u8>, len: int) -> Result<AdaptationField> {
    if len == 0 {
        Ok(
            AdaptationField {
                discontinuity_indicator: false,
                random_access_indicator: false,
                es_priority_indicator: false,
                pcr: None,
            },
        )
    } else if s[5] & 0x10u8 != 0 && len < 7 {
        Err(ErrorKind::InvalidInput)
    } else {
        Ok(
            AdaptationField {
                discontinuity_indicator: s[5] & 0x80u8 != 0,
                random_access_indicator: s[5] & 0x40u8 != 0,
                es_priority_indicator: s[5] & 0x20u8 != 0,
                pcr: if s[5] & 0x10u8 != 0 {
                    Some(spec_pcr(s, 6))
                } else {
                    None
                },
            },
        )
    }
}

/// The packet that the 188 bytes `s` hold. The adaptation field control value
/// 0 is reserved and so `InvalidInput`, as is an adaptation field length that
/// does not fit the packet.
pub open spec fn spec_ts_packet(s: Seq<u8>) -> Result<TsPacketView> {
    if s[0] != 0x47u8 {
        Err(ErrorKind::SyncByteMismatch)
    } else if s[3] & 0x30u8 == 0 {
        Err(ErrorKind::InvalidInput)
    } else {
        let has_adaptation = s[3] & 0x20u8 != 0;
        let has_payload = s[3] & 0x10u8 != 0;
        let af_len = s[4] as int;
        if has_adaptation && !has_payload && af_len != 183 {
            Err(ErrorKind::InvalidInput)
        } else if has_adaptation && has_payload && af_len > 182 {
            Err(ErrorKind::InvalidInput)
        } else {
            let af = if has_adaptation {
                spec_adaptation(s, af_len)
            } else {
                Ok(
                    AdaptationField {
                        discontinuity_indicator: false,
                        random_access_indicator: false,
                        es_priority_indicator: false,
                        pcr: None,
                    },
                )
            };
            match af {
                Err(e) => Err(e),
                Ok(a) => Ok(
                    TsPacketView {
                        transport_error_indicator: s[1] & 0x80u8 != 0,
                        payload_unit_start_indicator: s[1] & 0x40u8 != 0,
                        transport_priority: s[1] & 0x20u8 != 0,
                        pid: ((s[1] & 0x1Fu8) as int * 256 + s[2] as int) as u16,
                        transport_scrambling_control: s[3] >> 6u8,
                        continuity_counter: s[3] & 0x0Fu8,
                        adaptation_field: if has_adaptation {
                            Some(a)
                        } else {
                            None
                        },
                        has_payload,
                        payload: if !has_payload {
                            Seq::empty()
                        } else if has_adaptation {
                            s.subrange(5 + af_len, 188)
                        } else {
                            s.subrange(4, 188)
                        },
                    },
                ),
            }
        }
    }
}

/// Whether packet `p` keeps the continuity of its PID, whose last counter is
/// `prev`: a packet with payload increments the counter by one modulo 16, one
/// without keeps it. The first packet of a PID and null packets always do.
pub open spec fn continuity_ok(prev: Option<u8>, p: TsPacketView) -> bool {
    p.pid == 0x1FFF || match prev {
        None => true,
        Some(c) => if p.has_payload {
            p.continuity_counter as int == (c as int + 1) % 16
        } else {
            p.continuity_counter == c
        },
    }
}

/// The counters after packet `p`: its PID's entry takes its counter.
pub open spec fn next_counters(counters: Seq<Option<u8>>, p: TsPacketView) -> Seq<Option<u8>> {
    if p.pid == 0x1FFF {
        counters
    } else {
        counters.update(p.pid as int, Some(p.continuity_counter))
    }
}

/// What one read does on `data` at `pos` with `counters`: the result, the next
/// position and the next counters. At the end of the data it gives `None`; in
/// front of a partial packet `Truncated`; otherwise it takes one packet, and a
/// break of continuity is `ContinuityError` after the counter was taken.
pub open spec fn spec_read_step(data: Seq<u8>, pos: int, counters: Seq<Option<u8>>) -> (
    Result<Option<TsPacketView>>,
    int,
    Seq<Option<u8>>,
) {
    if pos >= data.len() {
        (Ok(None), pos, counters)
    } else if data.len() - pos < 188 {
        (Err(ErrorKind::Truncated), data.len() as int, counters)
    } else {
        match spec_ts_packet(data.subrange(pos, pos + 188)) {
            Err(e) => (Err(e), pos + 188, counters),
            Ok(p) => (
                if continuity_ok(counters[p.pid as int], p) {
                    Ok(Some(p))
                } else {
                    Err(ErrorKind::ContinuityError)
                },
                pos + 188,
                next_counters(counters, p),
            ),
        }
    }
}

/// One transport stream packet.
#[derive(Debug, Clone, PartialEq, Eq)]
pub struct TsPacket {
    pub transport_error_indicator: bool,
    pub payload_unit_start_indicator: bool,
    pub transport_priority: bool,
    pub pid: Pid,
    pub transport_scrambling_control: u8,
    pub continuity_counter: u8,
    pub adaptation_field: Option<AdaptationField>,
    pub has_payload: bool,
    pub payload: Vec<u8>,
}

impl View for TsPacket {
    type V = TsPacketView;

    open spec fn view(&self) -> TsPacketView {
        TsPacketView {
            transport_error_indicator: self.transport_error_indicator,
            payload_unit_start_indicator: self.payload_unit_start_indicator,
            transport_priority: self.transport_priority,
            pid: self.pid.spec_value(),
            transport_scrambling_control: self.transport_scrambling_control,
            continuity_counter: self.continuity_counter,
            adaptation_field: self.adaptation_field,
            has_payload: self.has_payload,
            payload: self.payload@,
        }
    }
}

/// The view of what a read returned.
pub open spec fn packet_read_view(r: Result<Option<TsPacket>>) -> Result<Option<TsPacketView>> {
    match r {
        Ok(Some(p)) => Ok(Some(p@)),
        Ok(None) => Ok(None),
        Err(e) => Err(e),
    }
}

fn read_pcr(s: &[u8], i: usize) -> (r: ClockReference)
    requires
        i + 6 <= s@.len(),
    ensures
        r == spec_pcr(s@, i as int),
{
    let base: u64 = s[i] as u64 * 0x200_0000 + s[i + 1] as u64 * 0x2_0000 + s[i + 2] as u64 * 0x200
        + s[i + 3] as u64 * 2 + s[i + 4] as u64 / 128;
    let extension: u16 = (s[i + 4] as u16 % 2) * 256 + s[i + 5] as u16;
    ClockReference { base, extension }
}

fn read_adaptation(s: &[u8], len: usize) -> (r: Result<AdaptationField>)
    requires
        s@.len() == 188,
        len <= 183,
    ensures
        r == spec_adaptation(s@, len as int),
{
    if len == 0 {
        return Ok(
            AdaptationField {
                discontinuity_indicator: false,
                random_access_indicator: false,
                es_priority_indicator: false,
                pcr: None,
            },
        );
    }
    let flags = s[5];
    let has_pcr = flags & 0x10u8 != 0;
    if has_pcr && len < 7 {
        return Err(ErrorKind::InvalidInput);
    }
    let pcr = if has_pcr {
        Some(read_pcr(s, 6))
    } else {
        None
    };
    Ok(
        AdaptationField {
            discontinuity_indicator: flags & 0x80u8 != 0,
            random_access_indicator: flags & 0x40u8 != 0,
            es_priority_indicator: flags & 0x20u8 != 0,
            pcr,
        },
    )
}

impl TsPacket {
    /// Parses one packet from exactly 188 bytes.
    pub fn read_from(s: &[u8]) -> (r: Result<TsPacket>)
        requires
            s@.len() == 188,
        ensures
            match r {
                Ok(p) => spec_ts_packet(s@) == Ok::<TsPacketView, ErrorKind>(p@),
                Err(e) => spec_ts_packet(s@) == Err::<TsPacketView, ErrorKind>(e),
            },
    {
        if s[0] != SYNC_BYTE {
            return Err(ErrorKind::SyncByteMismatch);
        }
        let b1 = s[1];
        let b3 = s[3];
        if b3 & 0x30u8 == 0 {
            return Err(ErrorKind::InvalidInput);
        }
        let has_adaptation = b3 & 0x20u8 != 0;
        let has_payload = b3 & 0x10u8 != 0;
        let af_len = s[4] as usize;
        if has_adaptation && !has_payload && af_len != 183 {
            return Err(ErrorKind::InvalidInput);
        }
        if has_adaptation && has_payload && af_len > 182 {
            return Err(ErrorKind::InvalidInput);
        }
        let adaptation_field = if has_adaptation {
            Some(read_adaptation(s, af_len)?)
        } else {
            None
        };
        let payload = if !has_payload {
            Vec::new()
        } else if has_adaptation {
            vstd::slice::slice_to_vec(vstd::slice::slice_subrange(s, 5 + af_len, PACKET_SIZE))
        } else {
            vstd::slice::slice_to_vec(vstd::slice::slice_subrange(s, 4, PACKET_SIZE))
        };
        assert((b1 & 0x1Fu8) < 32) by (bit_vector);
        let pid_value: u16 = (b1 & 0x1Fu8) as u16 * 256 + s[2] as u16;
        let pid = match Pid::new(pid_value) {
            Some(p) => p,
            None => {
                return Err(ErrorKind::InvalidInput);
            },
        };
        proof {
            assert(payload@ == spec_ts_packet(s@)->Ok_0.payload);
        }
        Ok(
            TsPacket {
                transport_error_indicator: b1 & 0x80u8 != 0,
                payload_unit_start_indicator: b1 & 0x40u8 != 0,
                transport_priority: b1 & 0x20u8 != 0,
                pid,
                transport_scrambling_control: b3 >> 6u8,
                continuity_counter: b3 & 0x0Fu8,
                adaptation_field,
                has_payload,
                payload,
            },
        )
    }
}

/// Reads packets one at a time from a byte buffer, tracking the last
/// continuity counter of each PID.
pub struct TsPacketReader {
    data: Vec<u8>,
    pos: usize,
    counters: Vec<Option<u8>>,
}

impl TsPacketReader {
    /// The reader's invariant: its position lies within the data and it has one
    /// counter entry for each PID.
    pub closed spec fn wf(self) -> bool {
        &&& self.pos <= self.data@.len()
        &&& self.counters@.len() == 8192
    }

    /// The bytes being read.
    pub closed spec fn spec_data(self) -> Seq<u8> {
        self.data@
    }

    /// How many bytes have been consumed.
    pub closed spec fn spec_pos(self) -> int {
        self.pos as int
    }

    /// The last continuity counter of each PID, indexed by PID.
    pub closed spec fn spec_counters(self) -> Seq<Option<u8>> {
        self.counters@
    }

    /// Starts reading `data` from its first byte, with no counter seen.
    pub fn new(data: Vec<u8>) -> (r: TsPacketReader)
        ensures
            r.wf(),
            r.spec_data() == data@,
            r.spec_pos() == 0,
            r.spec_counters() == Seq::new(8192, |i: int| None::<u8>),
    {
        let mut counters: Vec<Option<u8>> = Vec::new();
        let mut i: usize = 0;
        while i < PID_LIMIT as usize
            invariant
                i <= 8192,
                counters@.len() == i,
                forall|j: int| 0 <= j < i ==> counters@[j] == None::<u8>,
            decreases 8192 - i,
        {
            counters.push(None);
            i = i + 1;
        }
        assert(counters@ =~= Seq::new(8192, |i: int| None::<u8>));
        TsPacketReader { data, pos: 0, counters }
    }

    /// Reads the next packet: `None` at the end of the data, `Truncated` in
    /// front of a partial packet, the packet's own error if it is malformed,
    /// `ContinuityError` if it breaks the counter of its PID. After an error
    /// other than `Truncated` the reader stands at the next packet.
    pub fn read_ts_packet(&mut self) -> (r: Result<Option<TsPacket>>)
        requires
            old(self).wf(),
        ensures
            final(self).wf(),
            (packet_read_view(r), final(self).spec_pos(), final(self).spec_counters())
                == spec_read_step(old(self).spec_data(), old(self).spec_pos(), old(self).spec_counters()),
            final(self).spec_data() == old(self).spec_data(),
    {
        let len = self.data.len();
        if self.pos >= len {
            return Ok(None);
        }
        if len - self.pos < PACKET_SIZE {
            self.pos = len;
            return Err(ErrorKind::Truncated);
        }
        let start = self.pos;
        self.pos = start + PACKET_SIZE;
        let packet = TsPacket::read_from(vstd::slice::slice_subrange(self.data.as_slice(), start, start + PACKET_SIZE))?;
        let pid = packet.pid.as_u16();
        if pid == NULL_PID {
            return Ok(Some(packet));
        }
        let prev = self.counters[pid as usize];
        let ok = match prev {
            None => true,
            Some(c) => if packet.has_payload {
                packet.continuity_counter as u16 == (c as u16 + 1) % 16
            } else {
                packet.continuity_counter == c
            },
        };
        self.counters.set(pid as usize, Some(packet.continuity_counter));
        if ok {
            Ok(Some(packet))
        } else {
            Err(ErrorKind::ContinuityError)
        }
    }
}

/// All the packets that reads from `pos` on give, up to the end of the data,
/// or the first error.
pub open spec fn spec_read_all(data: Seq<u8>, pos: int, counters: Seq<Option<u8>>) -> Result<
    Seq<TsPacketView>,
>
    decreases data.len() - pos,
{
    if pos >= data.len() || data.len() - pos < 188 {
        match spec_read_step(data, pos, counters).0 {
            Err(e) => Err(e),
            Ok(_) => Ok(Seq::empty()),
        }
    } else {
        match spec_read_step(data, pos, counters) {
            (Ok(Some(p)), next, c) => prepend_packet(p, spec_read_all(data, pos + 188, c)),
            (Ok(None), _, _) => Ok(Seq::empty()),
            (Err(e), _, _) => Err(e),
        }
    }
}

/// Prepends `p` to a successful sequence of packets.
pub open spec fn prepend_packet(p: TsPacketView, r: Result<Seq<TsPacketView>>) -> Result<
    Seq<TsPacketView>,
> {
    match r {
        Ok(ps) => Ok(seq![p] + ps),
        Err(e) => Err(e),
    }
}

/// Over data whose length from `pos` on is a multiple of 188, reads that do
/// not fail give exactly one packet for each 188 bytes, and then `None`.
pub proof fn lemma_whole_packets(data: Seq<u8>, pos: int, counters: Seq<Option<u8>>)
    requires
        0 <= pos <= data.len(),
        (data.len() - pos) % 188 == 0,
    ensures
        spec_read_all(data, pos, counters) matches Ok(ps) ==> ps.len() * 188 == data.len() - pos,
        spec_read_step(data, data.len() as int, counters).0 == Ok::<Option<TsPacketView>, ErrorKind>(
            None,
        ),
    decreases data.len() - pos,
{
    if pos < data.len() {
        let (r, next, c) = spec_read_step(data, pos, counters);
        lemma_whole_packets(data, pos + 188, c);
    }
}

/// Over data that ends with a partial packet, reading all fails; where the
/// whole packets in front of it read without error, the failure is
/// `Truncated`.
pub proof fn lemma_partial_packet(data: Seq<u8>, pos: int, counters: Seq<Option<u8>>)
    requires
        0 <= pos <= data.len(),
        (data.len() - pos) % 188 != 0,
    ensures
        spec_read_all(data, pos, counters) is Err,
        spec_read_all(data.subrange(0, data.len() - (data.len() - pos) % 188), pos, counters) is Ok
            ==> spec_read_all(data, pos, counters) == Err::<Seq<TsPacketView>, ErrorKind>(
            ErrorKind::Truncated,
        ),
    decreases data.len() - pos,
{
    let whole = data.subrange(0, data.len() - (data.len() - pos) % 188);
    if data.len() - pos >= 188 {
        assert(data.subrange(pos, pos + 188) =~= whole.subrange(pos, pos + 188));
        let (r, next, c) = spec_read_step(data, pos, counters);
        lemma_partial_packet(data, pos + 188, c);
        assert(data.subrange(0, data.len() - (data.len() - (pos + 188)) % 188) =~= whole);
    }
}

/// A payload-carrying packet whose counter does not follow the last one of its
/// PID is reported as `ContinuityError` by the read that meets it, and the read
/// records each packet's counter for its PID.
pub proof fn lemma_continuity_reported(data: Seq<u8>, pos: int, counters: Seq<Option<u8>>)
    requires
        0 <= pos,
        pos + 188 <= data.len(),
        counters.len() == 8192,
    ensures
        spec_ts_packet(data.subrange(pos, pos + 188)) matches Ok(p) ==> {
            &&& (p.pid != 0x1FFF && p.has_payload && (counters[p.pid as int] matches Some(c)
                && p.continuity_counter as int != (c as int + 1) % 16)) ==> spec_read_step(
                data,
                pos,
                counters,
            ).0 == Err::<Option<TsPacketView>, ErrorKind>(ErrorKind::ContinuityError)
            &&& p.pid != 0x1FFF ==> spec_read_step(data, pos, counters).2[p.pid as int] == Some(
                p.continuity_counter,
            )
        },
{
    let b = data[pos + 1];
    assert(b & 0x1Fu8 < 32) by (bit_vector);
    assert(data.subrange(pos, pos + 188)[1] == b);
}

} // verus!
