use vstd::prelude::*;
use crate::error::ErrorKind;
use crate::pes::{pes_views, PesPacket, PesPacketView};

verus! {

/// The stream types of the registry that this library knows.
#[derive(Debug, Clone, Copy, PartialEq, Eq, Structural)]
pub enum StreamType {
    Mpeg1Video,
    Mpeg2Video,
    Mpeg1Audio,
    Mpeg2Audio,
    PrivateSections,
    PrivatePes,
    AdtsAac,
    Mpeg4Video,
    LatmAac,
    MetadataPes,
    H264,
    H265,
    Pcm,
    Ac3,
    Dts,
    DolbyTrueHd,
    Eac3,
    Scte35,
}

/// The registry code of each stream type.
pub open spec fn stream_type_code(t: StreamType) -> u8 {
    match t {
        StreamType::Mpeg1Video => 0x01,
        StreamType::Mpeg2Video => 0x02,
        StreamType::Mpeg1Audio => 0x03,
        StreamType::Mpeg2Audio => 0x04,
        StreamType::PrivateSections => 0x05,
        StreamType::PrivatePes => 0x06,
        StreamType::AdtsAac => 0x0F,
        StreamType::Mpeg4Video => 0x10,
        StreamType::LatmAac => 0x11,
        StreamType::MetadataPes => 0x15,
        StreamType::H264 => 0x1B,
        StreamType::H265 => 0x24,
        StreamType::Pcm => 0x80,
        StreamType::Ac3 => 0x81,
        StreamType::Dts => 0x82,
        StreamType::DolbyTrueHd => 0x83,
        StreamType::Eac3 => 0x84,
        StreamType::Scte35 => 0x86,
    }
}

/// The stream type whose code is `b`, if the registry has one.
pub open spec fn stream_type_of(b: u8) -> Option<StreamType> {
    if exists|t: StreamType| stream_type_code(t) == b {
        Some(choose|t: StreamType| stream_type_code(t) == b)
    } else {
        None
    }
}

impl StreamType {
    /// Maps a registry code to its stream type; an unknown code is `InvalidInput`.
    pub fn from_u8(b: u8) -> (r: Result<StreamType, ErrorKind>)
        ensures
            r == (match stream_type_of(b) {
                Some(t) => Ok(t),
                None => Err(ErrorKind::InvalidInput),
            }),
            r matches Ok(t) ==> stream_type_code(t) == b,
    {
        let t = match b {
            0x01 => StreamType::Mpeg1Video,
            0x02 => StreamType::Mpeg2Video,
            0x03 => StreamType::Mpeg1Audio,
            0x04 => StreamType::Mpeg2Audio,
            0x05 => StreamType::PrivateSections,
            0x06 => StreamType::PrivatePes,
            0x0F => StreamType::AdtsAac,
            0x10 => StreamType::Mpeg4Video,
            0x11 => StreamType::LatmAac,
            0x15 => StreamType::MetadataPes,
            0x1B => StreamType::H264,
            0x24 => StreamType::H265,
            0x80 => StreamType::Pcm,
            0x81 => StreamType::Ac3,
            0x82 => StreamType::Dts,
            0x83 => StreamType::DolbyTrueHd,
            0x84 => StreamType::Eac3,
            0x86 => StreamType::Scte35,
            _ => {
                return Err(ErrorKind::InvalidInput);
            },
        };
        proof {
            assert(stream_type_code(t) == b);
            lemma_stream_type_of_code(t);
        }
        Ok(t)
    }

    /// The registry code of this stream type.
    pub fn as_u8(&self) -> (r: u8)
        ensures
            r == stream_type_code(*self),
    {
        match self {
            StreamType::Mpeg1Video => 0x01,
            StreamType::Mpeg2Video => 0x02,
            StreamType::Mpeg1Audio => 0x03,
            StreamType::Mpeg2Audio => 0x04,
            StreamType::PrivateSections => 0x05,
            StreamType::PrivatePes => 0x06,
            StreamType::AdtsAac => 0x0F,
            StreamType::Mpeg4Video => 0x10,
            StreamType::LatmAac => 0x11,
            StreamType::MetadataPes => 0x15,
            StreamType::H264 => 0x1B,
            StreamType::H265 => 0x24,
            StreamType::Pcm => 0x80,
            StreamType::Ac3 => 0x81,
            StreamType::Dts => 0x82,
            StreamType::DolbyTrueHd => 0x83,
            StreamType::Eac3 => 0x84,
            StreamType::Scte35 => 0x86,
        }
    }
}

/// Distinct stream types have distinct codes, so a code names at most one type.
pub proof fn lemma_stream_type_code_injective(a: StreamType, b: StreamType)
    ensures
        stream_type_code(a) == stream_type_code(b) ==> a == b,
{
}

/// A known code maps back to its own stream type.
pub proof fn lemma_stream_type_of_code(t: StreamType)
    ensures
        stream_type_of(stream_type_code(t)) == Some(t),
{
    let c = choose|u: StreamType| stream_type_code(u) == stream_type_code(t);
    lemma_stream_type_code_injective(c, t);
}

/// The classes of elementary streams that stream ids fall in.
#[derive(Debug, Clone, Copy, PartialEq, Eq, Structural)]
pub enum StreamKind {
    Audio,
    Video,
    Other,
}

/// The class of stream id `id`: 0xC0 to 0xDF are audio, 0xE0 to 0xEF video.
pub open spec fn spec_stream_kind(id: u8) -> StreamKind {
    if 0xC0 <= id <= 0xDF {
        StreamKind::Audio
    } else if 0xE0 <= id <= 0xEF {
        StreamKind::Video
    } else {
        StreamKind::Other
    }
}

/// The stream id of a PES packet.
#[derive(Debug, Clone, Copy, PartialEq, Eq, Structural)]
pub struct StreamId {
    pub value: u8,
}

impl StreamId {
    /// The class of this stream id.
    pub fn kind(&self) -> (r: StreamKind)
        ensures
            r == spec_stream_kind(self.value),
    {
        if 0xC0 <= self.value && self.value <= 0xDF {
            StreamKind::Audio
        } else if 0xE0 <= self.value && self.value <= 0xEF {
            StreamKind::Video
        } else {
            StreamKind::Other
        }
    }

    /// Whether this is an audio stream id.
    pub fn is_audio(&self) -> (r: bool)
        ensures
            r == (spec_stream_kind(self.value) == StreamKind::Audio),
    {
        0xC0 <= self.value && self.value <= 0xDF
    }

    /// Whether this is a video stream id.
    pub fn is_video(&self) -> (r: bool)
        ensures
            r == (spec_stream_kind(self.value) == StreamKind::Video),
    {
        0xE0 <= self.value && self.value <= 0xEF
    }
}

/// The data bytes of the packets of `ps` whose stream id is of class `k`,
/// concatenated in the order of the packets.
pub open spec fn spec_select(ps: Seq<PesPacketView>, k: StreamKind) -> Seq<u8> {
    ps.filter(|p: PesPacketView| spec_stream_kind(p.header.stream_id.value) == k).map_values(
        |p: PesPacketView| p.data,
    ).flatten()
}

/// A packet that arrives after `ps` adds its data at the end of what class `k`
/// selects if its stream id is of that class, and adds nothing otherwise.
pub proof fn lemma_select_push(ps: Seq<PesPacketView>, p: PesPacketView, k: StreamKind)
    ensures
        spec_select(ps.push(p), k) == if spec_stream_kind(p.header.stream_id.value) == k {
            spec_select(ps, k) + p.data
        } else {
            spec_select(ps, k)
        },
{
    let f = |q: PesPacketView| spec_stream_kind(q.header.stream_id.value) == k;
    let g = |q: PesPacketView| q.data;
    ps.lemma_filter_push(p, f);
    if f(p) {
        assert(ps.push(p).filter(f).map_values(g) =~= ps.filter(f).map_values(g).push(p.data));
        ps.filter(f).map_values(g).lemma_flatten_push(p.data);
    }
}

/// The data bytes of the packets of class `kind`, concatenated in order:
/// selecting audio gives exactly the audio packets' bytes and no others.
pub fn select_payloads(packets: &Vec<PesPacket>, kind: StreamKind) -> (r: Vec<u8>)
    ensures
        r@ == spec_select(pes_views(packets@), kind),
{
    let mut out: Vec<u8> = Vec::new();
    let mut i: usize = 0;
    proof {
        assert(pes_views(packets@).subrange(0, 0) =~= Seq::<PesPacketView>::empty());
        assert(Seq::<PesPacketView>::empty().filter(
            |p: PesPacketView| spec_stream_kind(p.header.stream_id.value) == kind,
        ) =~= Seq::<PesPacketView>::empty());
        assert(Seq::<PesPacketView>::empty().map_values(|p: PesPacketView| p.data) =~= Seq::<
            Seq<u8>,
        >::empty());
    }
    while i < packets.len()
        invariant
            i <= packets@.len(),
            out@ == spec_select(pes_views(packets@).subrange(0, i as int), kind),
        decreases packets@.len() - i,
    {
        let p = &packets[i];
        proof {
            let vs = pes_views(packets@);
            assert(vs.subrange(0, i + 1) =~= vs.subrange(0, i as int).push(p@));
            lemma_select_push(vs.subrange(0, i as int), p@, kind);
        }
        if p.header.stream_id.kind() == kind {
            let mut bytes = vstd::slice::slice_to_vec(p.data.as_slice());
            out.append(&mut bytes);
        }
        i = i + 1;
    }
    proof {
        assert(pes_views(packets@).subrange(0, packets@.len() as int) =~= pes_views(packets@));
    }
    out
}

} // verus!
