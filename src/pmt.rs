use vstd::prelude::*;
use crate::error::{ErrorKind, Result};
use crate::crc::crc32_of;
use crate::es::{lemma_stream_type_of_code, stream_type_code, stream_type_of, StreamType};
use crate::psi::{
    be32, section_length_field, spec_psi, spec_section, spec_sections, spec_syntax, table_views, Psi,
    SyntaxView, TableView,
};
use crate::types::{Pid, VersionNumber, NULL_PID};

verus! {

/// What a descriptor holds.
pub struct DescriptorView {
    pub tag: u8,
    pub data: Seq<u8>,
}

/// What an elementary stream entry holds, its PID as a number.
pub struct EsInfoView {
    pub stream_type: StreamType,
    pub elementary_pid: u16,
    pub descriptors: Seq<DescriptorView>,
}

/// What a program map table holds, its PIDs and version as numbers.
pub struct PmtView {
    pub program_num: u16,
    pub pcr_pid: Option<u16>,
    pub version_number: u8,
    pub table: Seq<EsInfoView>,
}

/// A 16-bit big-endian field.
pub open spec fn be16(hi: u8, lo: u8) -> int {
    hi as int * 256 + lo as int
}

/// A 13-bit PID field: three reserved bits that must be ones, then the PID.
pub open spec fn pid_field(hi: u8, lo: u8) -> Result<u16> {
    if hi & 0xE0u8 != 0xE0u8 {
        Err(ErrorKind::InvalidInput)
    } else {
        Ok(((hi & 0x1Fu8) as int * 256 + lo as int) as u16)
    }
}

/// A 10-bit length field: four reserved bits that must be ones, two unused bits
/// that must be zeros, then the length.
pub open spec fn length_field(hi: u8, lo: u8) -> Result<u16> {
    if hi & 0xF0u8 != 0xF0u8 {
        Err(ErrorKind::InvalidInput)
    } else if hi & 0x0Cu8 != 0 {
        Err(ErrorKind::InvalidInput)
    } else {
        Ok(((hi & 0x03u8) as int * 256 + lo as int) as u16)
    }
}

/// Prepends `front` to a successful sequence; an error passes unchanged.
pub open spec fn prepend<T>(front: Seq<T>, r: Result<Seq<T>>) -> Result<Seq<T>> {
    match r {
        Ok(rest) => Ok(front + rest),
        Err(e) => Err(e),
    }
}

/// A descriptor at the start of `s`: tag, length, then that many data bytes;
/// with the number of bytes it takes.
pub open spec fn spec_descriptor(s: Seq<u8>) -> Result<(DescriptorView, int)> {
    if s.len() < 2 || s.len() < 2 + s[1] {
        Err(ErrorKind::Truncated)
    } else {
        Ok((DescriptorView { tag: s[0], data: s.subrange(2, 2 + s[1]) }, 2 + s[1]))
    }
}

/// The descriptors that fill `s` exactly.
pub open spec fn spec_descriptors(s: Seq<u8>) -> Result<Seq<DescriptorView>>
    decreases s.len(),
{
    if s.len() == 0 {
        Ok(Seq::empty())
    } else {
        match spec_descriptor(s) {
            Err(e) => Err(e),
            Ok((d, n)) => prepend(seq![d], spec_descriptors(s.subrange(n, s.len() as int))),
        }
    }
}

/// Program or elementary stream descriptor.
#[derive(Debug, Clone, PartialEq, Eq)]
pub struct Descriptor {
    pub tag: u8,
    pub data: Vec<u8>,
}

impl View for Descriptor {
    type V = DescriptorView;

    open spec fn view(&self) -> DescriptorView {
        DescriptorView { tag: self.tag, data: self.data@ }
    }
}

/// The view of what a reader returned: the value's view and the bytes it took.
pub open spec fn read_view<T: View>(r: Result<(T, usize)>) -> Result<(T::V, int)> {
    match r {
        Ok((v, n)) => Ok((v@, n as int)),
        Err(e) => Err(e),
    }
}

/// The view of a list that a reader returned, each item mapped by `f`.
pub open spec fn seq_view<T, V>(r: Result<Vec<T>>, f: spec_fn(T) -> V) -> Result<Seq<V>> {
    match r {
        Ok(v) => Ok(v@.map_values(f)),
        Err(e) => Err(e),
    }
}

/// The views of a sequence of descriptors.
pub open spec fn descriptor_views(v: Seq<Descriptor>) -> Seq<DescriptorView> {
    v.map_values(|d: Descriptor| d@)
}

impl Descriptor {
    /// Reads one descriptor from the start of `bytes`; returns it with the
    /// number of bytes it took. A length past the end is `Truncated`.
    pub fn read_from(bytes: &[u8]) -> (r: Result<(Descriptor, usize)>)
        ensures
            read_view(r) == spec_descriptor(bytes@),
    {
        if bytes.len() < 2 {
            return Err(ErrorKind::Truncated);
        }
        let tag = bytes[0];
        let len = bytes[1] as usize;
        if bytes.len() - 2 < len {
            return Err(ErrorKind::Truncated);
        }
        let data = vstd::slice::slice_to_vec(vstd::slice::slice_subrange(bytes, 2, 2 + len));
        Ok((Descriptor { tag, data }, 2 + len))
    }
}

/// Reads descriptors until `bytes` is used up exactly.
fn read_descriptors(bytes: &[u8]) -> (r: Result<Vec<Descriptor>>)
    ensures
        seq_view(r, |d: Descriptor| d@) == spec_descriptors(bytes@),
{
    let mut out: Vec<Descriptor> = Vec::new();
    let mut pos: usize = 0;
    proof {
        assert(bytes@.subrange(0, bytes@.len() as int) =~= bytes@);
        match spec_descriptors(bytes@) {
            Ok(ds) => {
                assert(descriptor_views(out@) + ds =~= ds);
            },
            Err(_) => {},
        }
    }
    while pos < bytes.len()
        invariant
            pos <= bytes@.len(),
            spec_descriptors(bytes@) == prepend(
                descriptor_views(out@),
                spec_descriptors(bytes@.subrange(pos as int, bytes@.len() as int)),
            ),
        decreases bytes@.len() - pos,
    {
        let rest = vstd::slice::slice_subrange(bytes, pos, bytes.len());
        let ghost before = out@;
        match Descriptor::read_from(rest) {
            Err(e) => {
                return Err(e);
            },
            Ok((d, n)) => {
                proof {
                    assert(rest@.subrange(n as int, rest@.len() as int) =~= bytes@.subrange(
                        pos + n,
                        bytes@.len() as int,
                    ));
                    let tail = spec_descriptors(bytes@.subrange(pos + n, bytes@.len() as int));
                    assert(descriptor_views(before.push(d)) =~= descriptor_views(before) + seq![d@]);
                    match tail {
                        Ok(ts) => {
                            assert(descriptor_views(before) + (seq![d@] + ts) =~= (
                            descriptor_views(before) + seq![d@]) + ts);
                        },
                        Err(_) => {},
                    }
                }
                out.push(d);
                pos = pos + n;
            },
        }
    }
    proof {
        assert(bytes@.subrange(pos as int, bytes@.len() as int) =~= Seq::<u8>::empty());
        assert(descriptor_views(out@) + Seq::<DescriptorView>::empty() =~= descriptor_views(out@));
    }
    Ok(out)
}

/// An elementary stream entry at the start of `s`: stream type, PID field,
/// ES-info length field, then descriptors that fill exactly that length; with
/// the number of bytes it takes. Descriptors that do not fill the declared
/// length exactly are `InvalidInput`.
pub open spec fn spec_es_info(s: Seq<u8>) -> Result<(EsInfoView, int)> {
    if s.len() < 1 {
        Err(ErrorKind::Truncated)
    } else {
        match stream_type_of(s[0]) {
            None => Err(ErrorKind::InvalidInput),
            Some(t) => if s.len() < 5 {
                Err(ErrorKind::Truncated)
            } else {
                match pid_field(s[1], s[2]) {
                Err(e) => Err(e),
                Ok(pid) => match length_field(s[3], s[4]) {
                    Err(e) => Err(e),
                    Ok(len) => if s.len() < 5 + len {
                        Err(ErrorKind::Truncated)
                    } else {
                        match spec_descriptors(s.subrange(5, 5 + len)) {
                            Err(_) => Err(ErrorKind::InvalidInput),
                            Ok(ds) => Ok(
                                (
                                    EsInfoView { stream_type: t, elementary_pid: pid, descriptors: ds },
                                    5 + len,
                                ),
                            ),
                        }
                    },
                },
            }},
        }
    }
}

/// The elementary stream entries that fill `s` exactly.
pub open spec fn spec_es_infos(s: Seq<u8>) -> Result<Seq<EsInfoView>>
    decreases s.len(),
{
    if s.len() == 0 {
        Ok(Seq::empty())
    } else {
        match spec_es_info(s) {
            Err(e) => Err(e),
            Ok((d, n)) => prepend(seq![d], spec_es_infos(s.subrange(n, s.len() as int))),
        }
    }
}

/// Reads a PID field at `hi`, `lo`.
pub(crate) fn read_pid(hi: u8, lo: u8) -> (r: Result<Pid>)
    ensures
        match r {
            Ok(p) => pid_field(hi, lo) == Ok::<u16, ErrorKind>(p.spec_value()),
            Err(e) => pid_field(hi, lo) == Err::<u16, ErrorKind>(e),
        },
{
    if hi & 0xE0u8 != 0xE0u8 {
        return Err(ErrorKind::InvalidInput);
    }
    let v: u16 = (hi & 0x1Fu8) as u16 * 256 + lo as u16;
    assert((hi & 0x1Fu8) < 32) by (bit_vector);
    match Pid::new(v) {
        Some(p) => Ok(p),
        None => Err(ErrorKind::InvalidInput),
    }
}

/// Reads a length field at `hi`, `lo`.
fn read_length(hi: u8, lo: u8) -> (r: Result<u16>)
    ensures
        r == length_field(hi, lo),
        r matches Ok(n) ==> n < 1024,
{
    if hi & 0xF0u8 != 0xF0u8 {
        return Err(ErrorKind::InvalidInput);
    }
    if hi & 0x0Cu8 != 0 {
        return Err(ErrorKind::InvalidInput);
    }
    assert((hi & 0x03u8) < 4) by (bit_vector);
    Ok((hi & 0x03u8) as u16 * 256 + lo as u16)
}

/// Elementary stream information.
#[derive(Debug, Clone, PartialEq, Eq)]
pub struct EsInfo {
    pub stream_type: StreamType,
    /// The packet identifier that carries the stream.
    pub elementary_pid: Pid,
    pub descriptors: Vec<Descriptor>,
}

impl View for EsInfo {
    type V = EsInfoView;

    open spec fn view(&self) -> EsInfoView {
        EsInfoView {
            stream_type: self.stream_type,
            elementary_pid: self.elementary_pid.spec_value(),
            descriptors: descriptor_views(self.descriptors@),
        }
    }
}

/// The views of a sequence of elementary stream entries.
pub open spec fn es_info_views(v: Seq<EsInfo>) -> Seq<EsInfoView> {
    v.map_values(|e: EsInfo| e@)
}

impl EsInfo {
    /// Reads one elementary stream entry from the start of `bytes`; returns it
    /// with the number of bytes it took.
    pub fn read_from(bytes: &[u8]) -> (r: Result<(EsInfo, usize)>)
        ensures
            read_view(r) == spec_es_info(bytes@),
    {
        if bytes.len() < 1 {
            return Err(ErrorKind::Truncated);
        }
        let stream_type = StreamType::from_u8(bytes[0])?;
        if bytes.len() < 5 {
            return Err(ErrorKind::Truncated);
        }
        let elementary_pid = read_pid(bytes[1], bytes[2])?;
        let len = read_length(bytes[3], bytes[4])? as usize;
        if bytes.len() - 5 < len {
            return Err(ErrorKind::Truncated);
        }
        let descriptors = match read_descriptors(vstd::slice::slice_subrange(bytes, 5, 5 + len)) {
            Ok(ds) => ds,
            Err(_) => {
                return Err(ErrorKind::InvalidInput);
            },
        };
        Ok((EsInfo { stream_type, elementary_pid, descriptors }, 5 + len))
    }
}

/// Reads elementary stream entries until `bytes` is used up exactly.
fn read_es_infos(bytes: &[u8]) -> (r: Result<Vec<EsInfo>>)
    ensures
        seq_view(r, |e: EsInfo| e@) == spec_es_infos(bytes@),
{
    let mut out: Vec<EsInfo> = Vec::new();
    let mut pos: usize = 0;
    proof {
        assert(bytes@.subrange(0, bytes@.len() as int) =~= bytes@);
        match spec_es_infos(bytes@) {
            Ok(ds) => {
                assert(es_info_views(out@) + ds =~= ds);
            },
            Err(_) => {},
        }
    }
    while pos < bytes.len()
        invariant
            pos <= bytes@.len(),
            spec_es_infos(bytes@) == prepend(
                es_info_views(out@),
                spec_es_infos(bytes@.subrange(pos as int, bytes@.len() as int)),
            ),
        decreases bytes@.len() - pos,
    {
        let rest = vstd::slice::slice_subrange(bytes, pos, bytes.len());
        let ghost before = out@;
        match EsInfo::read_from(rest) {
            Err(e) => {
                return Err(e);
            },
            Ok((d, n)) => {
                proof {
                    assert(rest@.subrange(n as int, rest@.len() as int) =~= bytes@.subrange(
                        pos + n,
                        bytes@.len() as int,
                    ));
                    let tail = spec_es_infos(bytes@.subrange(pos + n, bytes@.len() as int));
                    assert(es_info_views(before.push(d)) =~= es_info_views(before) + seq![d@]);
                    match tail {
                        Ok(ts) => {
                            assert(es_info_views(before) + (seq![d@] + ts) =~= (es_info_views(
                                before,
                            ) + seq![d@]) + ts);
                        },
                        Err(_) => {},
                    }
                }
                out.push(d);
                pos = pos + n;
            },
        }
    }
    proof {
        assert(bytes@.subrange(pos as int, bytes@.len() as int) =~= Seq::<u8>::empty());
        assert(es_info_views(out@) + Seq::<EsInfoView>::empty() =~= es_info_views(out@));
    }
    Ok(out)
}

/// The table id of a program map section.
pub const PMT_TABLE_ID: u8 = 2;

/// The table data of a PMT section: the PCR PID (the null PID meaning none),
/// the program-info length (which must be zero), then elementary stream
/// entries that fill the rest exactly.
pub open spec fn spec_pmt_data(d: Seq<u8>) -> Result<(Option<u16>, Seq<EsInfoView>)> {
    if d.len() < 4 {
        Err(ErrorKind::Truncated)
    } else {
        match pid_field(d[0], d[1]) {
            Err(e) => Err(e),
            Ok(pcr) => match length_field(d[2], d[3]) {
                Err(e) => Err(e),
                Ok(info_len) => if info_len != 0 {
                    Err(ErrorKind::Unsupported)
                } else {
                    match spec_es_infos(d.subrange(4, d.len() as int)) {
                        Err(e) => Err(e),
                        Ok(infos) => Ok(
                            (
                                if pcr == 0x1FFF {
                                    None
                                } else {
                                    Some(pcr)
                                },
                                infos,
                            ),
                        ),
                    }
                },
            },
        }
    }
}

/// The program map table that the sections `tables` give: exactly one section,
/// with the PMT table id, no private bit, a syntax part that is current, and
/// section numbers 0 of 0. A later last section number is `Unsupported`, as are
/// several sections.
pub open spec fn spec_pmt_of(tables: Seq<TableView>) -> Result<PmtView> {
    if tables.len() == 0 {
        Err(ErrorKind::InvalidInput)
    } else if tables.len() > 1 {
        Err(ErrorKind::Unsupported)
    } else if tables[0].table_id != 2 || tables[0].private_bit {
        Err(ErrorKind::InvalidInput)
    } else {
        match tables[0].syntax {
            None => Err(ErrorKind::InvalidInput),
            Some(sx) => if sx.last_section_number != 0 {
                Err(ErrorKind::Unsupported)
            } else if sx.section_number != 0 || !sx.current_next_indicator {
                Err(ErrorKind::InvalidInput)
            } else {
                match spec_pmt_data(sx.table_data) {
                    Err(e) => Err(e),
                    Ok((pcr_pid, table)) => Ok(
                        PmtView {
                            program_num: sx.table_id_extension,
                            pcr_pid,
                            version_number: sx.version_number,
                            table,
                        },
                    ),
                }
            },
        }
    }
}

/// The program map table that a PSI payload `s` carries.
pub open spec fn spec_pmt(s: Seq<u8>) -> Result<PmtView> {
    match spec_psi(s) {
        Err(e) => Err(e),
        Ok(tables) => spec_pmt_of(tables),
    }
}

/// Program Map Table.
#[derive(Debug, Clone, PartialEq, Eq)]
pub struct Pmt {
    pub program_num: u16,
    /// The packet identifier that carries the program clock reference (PCR).
    pub pcr_pid: Option<Pid>,
    pub version_number: VersionNumber,
    pub table: Vec<EsInfo>,
}

impl View for Pmt {
    type V = PmtView;

    open spec fn view(&self) -> PmtView {
        PmtView {
            program_num: self.program_num,
            pcr_pid: match self.pcr_pid {
                Some(p) => Some(p.spec_value()),
                None => None,
            },
            version_number: self.version_number.spec_value(),
            table: es_info_views(self.table@),
        }
    }
}

/// Decodes the table data of a PMT section.
fn read_pmt_data(d: &[u8]) -> (r: Result<(Option<Pid>, Vec<EsInfo>)>)
    ensures
        match r {
            Ok((pcr, infos)) => spec_pmt_data(d@) == Ok::<_, ErrorKind>(
                (
                    match pcr {
                        Some(p) => Some(p.spec_value()),
                        None => None::<u16>,
                    },
                    es_info_views(infos@),
                ),
            ),
            Err(e) => spec_pmt_data(d@) == Err::<(Option<u16>, Seq<EsInfoView>), ErrorKind>(e),
        },
{
    if d.len() < 4 {
        return Err(ErrorKind::Truncated);
    }
    let pcr = read_pid(d[0], d[1])?;
    let info_len = read_length(d[2], d[3])?;
    if info_len != 0 {
        return Err(ErrorKind::Unsupported);
    }
    let infos = read_es_infos(vstd::slice::slice_subrange(d, 4, d.len()))?;
    let pcr_pid = if pcr.as_u16() == NULL_PID {
        None
    } else {
        Some(pcr)
    };
    Ok((pcr_pid, infos))
}

impl Pmt {
    /// Decodes the program map table of a PSI payload that starts with a
    /// pointer field.
    pub fn read_from(bytes: &[u8]) -> (r: Result<Pmt>)
        ensures
            match r {
                Ok(p) => spec_pmt(bytes@) == Ok::<PmtView, ErrorKind>(p@),
                Err(e) => spec_pmt(bytes@) == Err::<PmtView, ErrorKind>(e),
            },
    {
        let psi = Psi::read_from(bytes)?;
        let ghost tv = table_views(psi.tables@);
        if psi.tables.len() == 0 {
            return Err(ErrorKind::InvalidInput);
        }
        if psi.tables.len() > 1 {
            return Err(ErrorKind::Unsupported);
        }
        let table = &psi.tables[0];
        assert(tv[0] == table@);
        if table.header.table_id != PMT_TABLE_ID || table.header.private_bit {
            return Err(ErrorKind::InvalidInput);
        }
        let syntax = match &table.syntax {
            Some(sx) => sx,
            None => {
                return Err(ErrorKind::InvalidInput);
            },
        };
        if syntax.last_section_number != 0 {
            return Err(ErrorKind::Unsupported);
        }
        if syntax.section_number != 0 || !syntax.current_next_indicator {
            return Err(ErrorKind::InvalidInput);
        }
        let (pcr_pid, es) = read_pmt_data(syntax.table_data.as_slice())?;
        Ok(
            Pmt {
                program_num: syntax.table_id_extension,
                pcr_pid,
                version_number: syntax.version_number,
                table: es,
            },
        )
    }
}

/// The syntax byte that carries version `v`, current, with its reserved ones.
pub open spec fn version_byte(v: u8) -> u8 {
    0xC1u8 | ((v & 0x1Fu8) << 1u8)
}

/// A PSI payload with one PMT section: pointer field 0, program `program_num`,
/// version `v`, last section number `lsn`, no PCR PID, program-info length
/// byte pair (`pil_hi`, 0), one elementary stream entry of type `st` on `pid`
/// with ES-info length byte pair (`es_hi`, 0), and the four CRC bytes `crc`.
pub open spec fn one_stream_pmt_payload(
    program_num: u16,
    v: u8,
    lsn: u8,
    pil_hi: u8,
    st: StreamType,
    pid: u16,
    es_hi: u8,
    crc: Seq<u8>,
) -> Seq<u8> {
    seq![0x00u8] + one_stream_pmt_section(program_num, v, lsn, pil_hi, st, pid, es_hi) + crc
}

/// The section of `one_stream_pmt_payload` without its pointer field and CRC.
pub open spec fn one_stream_pmt_section(
    program_num: u16,
    v: u8,
    lsn: u8,
    pil_hi: u8,
    st: StreamType,
    pid: u16,
    es_hi: u8,
) -> Seq<u8> {
    seq![
        0x02u8, 0xB0u8, 18u8,
        (program_num / 256) as u8, (program_num % 256) as u8,
        version_byte(v), 0x00u8, lsn,
        0xFFu8, 0xFFu8, pil_hi, 0x00u8,
        stream_type_code(st), (0xE0u16 + pid / 256) as u8, (pid % 256) as u8, es_hi, 0x00u8,
    ]
}

proof fn lemma_version_byte(v: u8)
    ensures
        version_byte(v) & 0xC0u8 == 0xC0u8,
        version_byte(v) & 0x01u8 != 0,
        v < 32 ==> (version_byte(v) >> 1u8) & 0x1Fu8 == v,
{
    assert(version_byte(v) & 0xC0u8 == 0xC0u8) by (bit_vector);
    assert(version_byte(v) & 0x01u8 != 0) by (bit_vector);
    assert(v < 32 ==> (version_byte(v) >> 1u8) & 0x1Fu8 == v) by (bit_vector);
}

proof fn lemma_pid_bytes(pid: u16)
    requires
        pid < 8192,
    ensures
        pid_field((0xE0u16 + pid / 256) as u8, (pid % 256) as u8) == Ok::<u16, ErrorKind>(pid),
{
    let hi = (0xE0u16 + pid / 256) as u8;
    let lo = (pid % 256) as u8;
    assert(hi == (0xE0u16 + pid / 256) as u8);
    assert(hi & 0xE0u8 == 0xE0u8 && (hi & 0x1Fu8) as u16 == pid / 256) by (bit_vector)
        requires
            hi == (0xE0u16 + pid / 256) as u8,
            pid < 8192,
    ;
}

/// How `spec_pmt` reads the one-stream payload whose CRC is right: the program
/// map table, or the first violation it meets.
proof fn lemma_one_stream_pmt(
    program_num: u16,
    v: u8,
    lsn: u8,
    pil_hi: u8,
    st: StreamType,
    pid: u16,
    es_hi: u8,
    crc: Seq<u8>,
)
    requires
        v < 32,
        pid < 8192,
        crc.len() == 4,
        crc32_of(one_stream_pmt_section(program_num, v, lsn, pil_hi, st, pid, es_hi) + crc) == 0,
    ensures
        spec_pmt(one_stream_pmt_payload(program_num, v, lsn, pil_hi, st, pid, es_hi, crc)) == if lsn
            != 0 {
            Err(ErrorKind::Unsupported)
        } else {
            match length_field(pil_hi, 0) {
                Err(e) => Err(e),
                Ok(n) => if n != 0 {
                    Err(ErrorKind::Unsupported)
                } else {
                    match length_field(es_hi, 0) {
                        Err(_) => Err(ErrorKind::InvalidInput),
                        Ok(m) => if m != 0 {
                            Err(ErrorKind::Truncated)
                        } else {
                            Ok(
                                PmtView {
                                    program_num,
                                    pcr_pid: None,
                                    version_number: v,
                                    table: seq![
                                        EsInfoView {
                                            stream_type: st,
                                            elementary_pid: pid,
                                            descriptors: Seq::empty(),
                                        },
                                    ],
                                },
                            )
                        },
                    }
                },
            }
        },
{
    let sec = one_stream_pmt_section(program_num, v, lsn, pil_hi, st, pid, es_hi) + crc;
    let payload = one_stream_pmt_payload(program_num, v, lsn, pil_hi, st, pid, es_hi, crc);
    lemma_version_byte(v);
    lemma_pid_bytes(pid);
    lemma_stream_type_of_code(st);
    assert(0xB0u8 & 0x30u8 == 0x30u8 && 0xB0u8 & 0x0Cu8 == 0 && 0xB0u8 & 0x03u8 == 0
        && 0xB0u8 & 0x80u8 != 0 && 0xB0u8 & 0x40u8 == 0) by (bit_vector);
    assert(0xFFu8 & 0xE0u8 == 0xE0u8 && 0xFFu8 & 0x1Fu8 == 0x1Fu8) by (bit_vector);
    assert(payload.subrange(1 + payload[0], payload.len() as int) =~= sec);
    assert(sec.subrange(0, 21) =~= sec);
    assert(sec.subrange(21, 21) =~= Seq::<u8>::empty());
    let data = sec.subrange(8, 17);
    let es = data.subrange(4, 9);
    assert(es.subrange(5, 5) =~= Seq::<u8>::empty());
    assert(program_num / 256 * 256 + program_num % 256 == program_num);
    assert(section_length_field(0xB0u8, 18u8) == Ok::<u16, ErrorKind>(18));
    let sx = SyntaxView {
        table_id_extension: program_num,
        version_number: v,
        current_next_indicator: true,
        section_number: 0,
        last_section_number: lsn,
        table_data: data,
        crc32: be32(sec, 17) as u32,
    };
    assert(spec_syntax(sec, 21) == Ok::<SyntaxView, ErrorKind>(sx));
    let tv = TableView { table_id: 2, private_bit: false, syntax: Some(sx) };
    assert(spec_section(sec) == Ok::<(TableView, int), ErrorKind>((tv, 21)));
    assert(spec_sections(sec.subrange(21, 21)) == Ok::<Seq<TableView>, ErrorKind>(Seq::empty()));
    assert(seq![tv] + Seq::<TableView>::empty() =~= seq![tv]);
    assert(spec_sections(sec) == Ok::<Seq<TableView>, ErrorKind>(seq![tv]));
    assert(spec_psi(payload) == Ok::<Seq<TableView>, ErrorKind>(seq![tv]));
    assert(data[0] == 0xFFu8 && data[1] == 0xFFu8 && data[2] == pil_hi && data[3] == 0);
    assert(data.subrange(4, 9) =~= es);
    if lsn == 0 {
        if length_field(pil_hi, 0) == Ok::<u16, ErrorKind>(0) {
            assert(spec_descriptors(Seq::<u8>::empty()) == Ok::<Seq<DescriptorView>, ErrorKind>(
                Seq::empty(),
            ));
            assert(es.subrange(5, es.len() as int) =~= Seq::<u8>::empty());
            assert(spec_es_infos(es.subrange(5, es.len() as int)) == Ok::<
                Seq<EsInfoView>,
                ErrorKind,
            >(Seq::empty()));
            match length_field(es_hi, 0) {
                Ok(m) => {
                    if m == 0 {
                        let e = EsInfoView {
                            stream_type: st,
                            elementary_pid: pid,
                            descriptors: Seq::empty(),
                        };
                        assert(spec_es_info(es) == Ok::<(EsInfoView, int), ErrorKind>((e, 5)));
                        assert(seq![e] + Seq::<EsInfoView>::empty() =~= seq![e]);
                    }
                },
                Err(_) => {},
            }
        }
    }
}

/// Decoding a one-section PMT with no program descriptors, no PCR PID, one
/// elementary stream and no ES descriptors, whose CRC is right, gives back the
/// values it was built from.
pub proof fn lemma_pmt_round_trip(program_num: u16, v: u8, st: StreamType, pid: u16, crc: Seq<u8>)
    requires
        v < 32,
        pid < 8192,
        crc.len() == 4,
        crc32_of(one_stream_pmt_section(program_num, v, 0, 0xF0, st, pid, 0xF0) + crc) == 0,
    ensures
        spec_pmt(one_stream_pmt_payload(program_num, v, 0, 0xF0, st, pid, 0xF0, crc)) == Ok::<
            PmtView,
            ErrorKind,
        >(
            PmtView {
                program_num,
                pcr_pid: None,
                version_number: v,
                table: seq![
                    EsInfoView { stream_type: st, elementary_pid: pid, descriptors: Seq::empty() },
                ],
            },
        ),
{
    lemma_one_stream_pmt(program_num, v, 0, 0xF0, st, pid, 0xF0, crc);
    assert(0xF0u8 & 0xF0u8 == 0xF0u8 && 0xF0u8 & 0x0Cu8 == 0 && 0xF0u8 & 0x03u8 == 0) by (bit_vector);
}

/// A reserved bit of the program-info length or of the ES-info length flipped
/// in an otherwise valid one-section PMT, CRC recomputed, is `InvalidInput`.
pub proof fn lemma_pmt_reserved_bit_flip(
    program_num: u16,
    v: u8,
    st: StreamType,
    pid: u16,
    in_es_info: bool,
    bit: u8,
    crc: Seq<u8>,
)
    requires
        v < 32,
        pid < 8192,
        crc.len() == 4,
        bit == 0x80 || bit == 0x40 || bit == 0x20 || bit == 0x10 || bit == 0x08 || bit == 0x04,
        crc32_of(
            one_stream_pmt_section(
                program_num,
                v,
                0,
                if in_es_info { 0xF0u8 } else { 0xF0u8 ^ bit },
                st,
                pid,
                if in_es_info { 0xF0u8 ^ bit } else { 0xF0u8 },
            ) + crc,
        ) == 0,
    ensures
        spec_pmt(
            one_stream_pmt_payload(
                program_num,
                v,
                0,
                if in_es_info { 0xF0u8 } else { 0xF0u8 ^ bit },
                st,
                pid,
                if in_es_info { 0xF0u8 ^ bit } else { 0xF0u8 },
                crc,
            ),
        ) == Err::<PmtView, ErrorKind>(ErrorKind::InvalidInput),
{
    let pil_hi = if in_es_info { 0xF0u8 } else { 0xF0u8 ^ bit };
    let es_hi = if in_es_info { 0xF0u8 ^ bit } else { 0xF0u8 };
    lemma_one_stream_pmt(program_num, v, 0, pil_hi, st, pid, es_hi, crc);
    assert(0xF0u8 & 0xF0u8 == 0xF0u8 && 0xF0u8 & 0x0Cu8 == 0 && 0xF0u8 & 0x03u8 == 0) by (bit_vector);
    assert((0xF0u8 ^ bit) & 0xF0u8 != 0xF0u8 || (0xF0u8 ^ bit) & 0x0Cu8 != 0) by (bit_vector)
        requires
            bit == 0x80 || bit == 0x40 || bit == 0x20 || bit == 0x10 || bit == 0x08 || bit == 0x04,
    ;
}

/// A one-section PMT whose last section number is not zero is `Unsupported`,
/// whatever else it holds.
pub proof fn lemma_pmt_multi_section_unsupported(
    program_num: u16,
    v: u8,
    lsn: u8,
    pil_hi: u8,
    st: StreamType,
    pid: u16,
    es_hi: u8,
    crc: Seq<u8>,
)
    requires
        v < 32,
        pid < 8192,
        lsn > 0,
        crc.len() == 4,
        crc32_of(one_stream_pmt_section(program_num, v, lsn, pil_hi, st, pid, es_hi) + crc) == 0,
    ensures
        spec_pmt(one_stream_pmt_payload(program_num, v, lsn, pil_hi, st, pid, es_hi, crc))
            == Err::<PmtView, ErrorKind>(ErrorKind::Unsupported),
{
    lemma_one_stream_pmt(program_num, v, lsn, pil_hi, st, pid, es_hi, crc);
}

/// Any PMT section whose syntax part has a nonzero last section number is
/// `Unsupported`: no table is decoded from it.
pub proof fn lemma_multi_section_unsupported(tables: Seq<TableView>)
    requires
        tables.len() == 1,
        tables[0].table_id == 2,
        !tables[0].private_bit,
        tables[0].syntax matches Some(sx) && sx.last_section_number > 0,
    ensures
        spec_pmt_of(tables) == Err::<PmtView, ErrorKind>(ErrorKind::Unsupported),
{
}

/// A descriptor whose declared length runs past the bytes there are is
/// `Truncated`; a decoded descriptor always holds exactly the declared number
/// of data bytes.
pub proof fn lemma_descriptor_length(s: Seq<u8>)
    ensures
        s.len() >= 2 && s[1] > s.len() - 2 ==> spec_descriptor(s) == Err::<
            (DescriptorView, int),
            ErrorKind,
        >(ErrorKind::Truncated),
        spec_descriptor(s) matches Ok((d, n)) ==> d.data.len() == s[1] && n == 2 + s[1],
{
}

/// An entry read from `a` reads the same with any bytes after it.
pub proof fn lemma_es_info_prefix(a: Seq<u8>, b: Seq<u8>)
    requires
        spec_es_info(a) is Ok,
    ensures
        spec_es_info(a + b) == spec_es_info(a),
{
    let ab = a + b;
    assert(ab[0] == a[0] && ab[1] == a[1] && ab[2] == a[2] && ab[3] == a[3] && ab[4] == a[4]);
    let len = length_field(a[3], a[4])->Ok_0;
    assert(ab.subrange(5, 5 + len) =~= a.subrange(5, 5 + len));
}

/// Entries that fill `a` exactly, followed by the bytes `b`: the entries of `a`
/// come first, in order, then those of `b`.
pub proof fn lemma_es_infos_append(a: Seq<u8>, b: Seq<u8>)
    requires
        spec_es_infos(a) is Ok,
    ensures
        spec_es_infos(a + b) == prepend(spec_es_infos(a)->Ok_0, spec_es_infos(b)),
    decreases a.len(),
{
    if a.len() == 0 {
        assert(a + b =~= b);
        match spec_es_infos(b) {
            Ok(es) => {
                assert(Seq::<EsInfoView>::empty() + es =~= es);
            },
            Err(_) => {},
        }
    } else {
        let (e, n) = spec_es_info(a)->Ok_0;
        let rest = a.subrange(n, a.len() as int);
        lemma_es_info_prefix(a, b);
        assert((a + b).subrange(n, (a + b).len() as int) =~= rest + b);
        lemma_es_infos_append(rest, b);
        let es = spec_es_infos(rest)->Ok_0;
        match spec_es_infos(b) {
            Ok(bs) => {
                assert(seq![e] + (es + bs) =~= (seq![e] + es) + bs);
            },
            Err(_) => {},
        }
    }
}

/// Entries encoded one after another, each reading back as its own view,
/// decode to those views in the same order.
pub proof fn lemma_es_infos_in_order(encs: Seq<Seq<u8>>, views: Seq<EsInfoView>)
    requires
        encs.len() == views.len(),
        forall|i: int|
            0 <= i < encs.len() ==> spec_es_info(#[trigger] encs[i]) == Ok::<(EsInfoView, int), ErrorKind>(
                (views[i], encs[i].len() as int),
            ),
    ensures
        spec_es_infos(encs.flatten()) == Ok::<Seq<EsInfoView>, ErrorKind>(views),
    decreases encs.len(),
{
    if encs.len() == 0 {
        assert(views =~= Seq::<EsInfoView>::empty());
    } else {
        let first = encs[0];
        assert(spec_es_info(encs[0]) == Ok::<(EsInfoView, int), ErrorKind>(
            (views[0], first.len() as int),
        ));
        assert(first.len() > 0);
        assert(spec_es_infos(Seq::<u8>::empty()) == Ok::<Seq<EsInfoView>, ErrorKind>(Seq::empty()));
        assert(first.subrange(first.len() as int, first.len() as int) =~= Seq::<u8>::empty());
        assert(seq![views[0]] + Seq::<EsInfoView>::empty() =~= seq![views[0]]);
        assert(spec_es_infos(first) == Ok::<Seq<EsInfoView>, ErrorKind>(seq![views[0]]));
        let rest = encs.drop_first();
        assert forall|i: int| 0 <= i < rest.len() implies spec_es_info(#[trigger] rest[i]) == Ok::<
            (EsInfoView, int),
            ErrorKind,
        >((views.drop_first()[i], rest[i].len() as int)) by {
            assert(rest[i] == encs[i + 1]);
        }
        lemma_es_infos_in_order(rest, views.drop_first());
        lemma_es_infos_append(first, rest.flatten());
        assert(seq![views[0]] + views.drop_first() =~= views);
    }
}

/// A PMT section that is otherwise acceptable but whose program-info length
/// field breaks its reserved or unused bits is `InvalidInput`, never
/// `Unsupported` nor a table. (A stale CRC is `InvalidInput` already in the
/// section parser.)
pub proof fn lemma_program_info_reserved_bits(tables: Seq<TableView>)
    requires
        tables.len() == 1,
        tables[0].table_id == 2,
        !tables[0].private_bit,
        tables[0].syntax matches Some(sx) && sx.last_section_number == 0 && sx.section_number == 0
            && sx.current_next_indicator && sx.table_data.len() >= 4
            && pid_field(sx.table_data[0], sx.table_data[1]) is Ok
            && length_field(sx.table_data[2], sx.table_data[3]) is Err,
    ensures
        spec_pmt_of(tables) == Err::<PmtView, ErrorKind>(ErrorKind::InvalidInput),
{
}

/// In the table data of a PMT, an entry whose ES-info length field breaks its
/// reserved or unused bits makes the whole table `InvalidInput`, wherever it
/// stands: `before` holds the entries in front of it, `entry` starts with it.
pub proof fn lemma_es_info_reserved_bits(head: Seq<u8>, before: Seq<u8>, entry: Seq<u8>)
    requires
        head.len() == 4,
        pid_field(head[0], head[1]) is Ok,
        length_field(head[2], head[3]) == Ok::<u16, ErrorKind>(0),
        spec_es_infos(before) is Ok,
        entry.len() >= 5,
        stream_type_of(entry[0]) is Some,
        pid_field(entry[1], entry[2]) is Ok,
        length_field(entry[3], entry[4]) is Err,
    ensures
        spec_pmt_data(head + before + entry) == Err::<(Option<u16>, Seq<EsInfoView>), ErrorKind>(
            ErrorKind::InvalidInput,
        ),
{
    let d = head + before + entry;
    assert(d.subrange(4, d.len() as int) =~= before + entry);
    assert(d[0] == head[0] && d[1] == head[1] && d[2] == head[2] && d[3] == head[3]);
    lemma_es_infos_append(before, entry);
}

} // verus!
