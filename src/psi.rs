use vstd::prelude::*;
use crate::crc::{crc32, crc32_of};
use crate::error::{ErrorKind, Result};
use crate::pmt::{be16, prepend, seq_view};
use crate::ts::{TsPacket, TsPacketView};
use crate::types::{Pid, VersionNumber};

verus! {

/// The byte that pads a packet after its last section.
pub const STUFFING_BYTE: u8 = 0xFF;

/// What the syntax part of a section holds.
pub struct SyntaxView {
    pub table_id_extension: u16,
    pub version_number: u8,
    pub current_next_indicator: bool,
    pub section_number: u8,
    pub last_section_number: u8,
    pub table_data: Seq<u8>,
    pub crc32: u32,
}

/// What a section holds.
pub struct TableView {
    pub table_id: u8,
    pub private_bit: bool,
    pub syntax: Option<SyntaxView>,
}

/// A 32-bit big-endian field at `s[i..i + 4]`.
pub open spec fn be32(s: Seq<u8>, i: int) -> int {
    be16(s[i], s[i + 1]) * 65536 + be16(s[i + 2], s[i + 3])
}

/// The 12-bit section length field: two reserved ones, two zeros, ten bits of
/// length.
pub open spec fn section_length_field(hi: u8, lo: u8) -> Result<u16> {
    if hi & 0x30u8 != 0x30u8 {
        Err(ErrorKind::InvalidInput)
    } else if hi & 0x0Cu8 != 0 {
        Err(ErrorKind::InvalidInput)
    } else {
        Ok(((hi & 0x03u8) as int * 256 + lo as int) as u16)
    }
}

/// The syntax part of a section `s` of `total` bytes that carries one. Its CRC
/// runs over the whole section and must give zero.
pub open spec fn spec_syntax(s: Seq<u8>, total: int) -> Result<SyntaxView> {
    if total < 12 {
        Err(ErrorKind::InvalidInput)
    } else if crc32_of(s.subrange(0, total)) != 0 {
        Err(ErrorKind::InvalidInput)
    } else if s[5] & 0xC0u8 != 0xC0u8 {
        Err(ErrorKind::InvalidInput)
    } else {
        Ok(
            SyntaxView {
                table_id_extension: be16(s[3], s[4]) as u16,
                version_number: (s[5] >> 1u8) & 0x1Fu8,
                current_next_indicator: s[5] & 0x01u8 != 0,
                section_number: s[6],
                last_section_number: s[7],
                table_data: s.subrange(8, total - 4),
                crc32: be32(s, total - 4) as u32,
            },
        )
    }
}

/// A section at the start of `s`, with the number of bytes it takes.
pub open spec fn spec_section(s: Seq<u8>) -> Result<(TableView, int)> {
    if s.len() < 3 {
        Err(ErrorKind::Truncated)
    } else {
        match section_length_field(s[1], s[2]) {
            Err(e) => Err(e),
            Ok(len) => if s.len() < 3 + len {
                Err(ErrorKind::Truncated)
            } else if s[1] & 0x80u8 == 0 {
                Ok(
                    (
                        TableView { table_id: s[0], private_bit: s[1] & 0x40u8 != 0, syntax: None },
                        3 + len,
                    ),
                )
            } else {
                match spec_syntax(s, 3 + len) {
                    Err(e) => Err(e),
                    Ok(sx) => Ok(
                        (
                            TableView {
                                table_id: s[0],
                                private_bit: s[1] & 0x40u8 != 0,
                                syntax: Some(sx),
                            },
                            3 + len,
                        ),
                    ),
                }
            },
        }
    }
}

/// The sections of `s`, up to its end or to a stuffing byte where a section
/// would start.
pub open spec fn spec_sections(s: Seq<u8>) -> Result<Seq<TableView>>
    decreases s.len(),
{
    if s.len() == 0 || s[0] == 0xFFu8 {
        Ok(Seq::empty())
    } else {
        match spec_section(s) {
            Err(e) => Err(e),
            Ok((t, n)) => prepend(seq![t], spec_sections(s.subrange(n, s.len() as int))),
        }
    }
}

/// A PSI payload: a pointer field, the bytes it skips, then sections.
pub open spec fn spec_psi(s: Seq<u8>) -> Result<Seq<TableView>> {
    if s.len() < 1 || s.len() < 1 + s[0] {
        Err(ErrorKind::Truncated)
    } else {
        spec_sections(s.subrange(1 + s[0], s.len() as int))
    }
}

/// The fixed header of a section.
#[derive(Debug, Clone, Copy, PartialEq, Eq, Structural)]
pub struct PsiTableHeader {
    pub table_id: u8,
    pub section_syntax_indicator: bool,
    pub private_bit: bool,
}

/// The syntax part of a section.
#[derive(Debug, Clone, PartialEq, Eq)]
pub struct PsiTableSyntax {
    pub table_id_extension: u16,
    pub version_number: VersionNumber,
    pub current_next_indicator: bool,
    pub section_number: u8,
    pub last_section_number: u8,
    pub table_data: Vec<u8>,
    pub crc32: u32,
}

impl View for PsiTableSyntax {
    type V = SyntaxView;

    open spec fn view(&self) -> SyntaxView {
        SyntaxView {
            table_id_extension: self.table_id_extension,
            version_number: self.version_number.spec_value(),
            current_next_indicator: self.current_next_indicator,
            section_number: self.section_number,
            last_section_number: self.last_section_number,
            table_data: self.table_data@,
            crc32: self.crc32,
        }
    }
}

/// One section: its header and, where the header says so, its syntax part.
#[derive(Debug, Clone, PartialEq, Eq)]
pub struct PsiTable {
    pub header: PsiTableHeader,
    pub syntax: Option<PsiTableSyntax>,
}

impl View for PsiTable {
    type V = TableView;

    open spec fn view(&self) -> TableView {
        TableView {
            table_id: self.header.table_id,
            private_bit: self.header.private_bit,
            syntax: match self.syntax {
                Some(sx) => Some(sx@),
                None => None,
            },
        }
    }
}

/// The views of a sequence of sections.
pub open spec fn table_views(v: Seq<PsiTable>) -> Seq<TableView> {
    v.map_values(|t: PsiTable| t@)
}

/// The sections of one PSI payload.
#[derive(Debug, Clone, PartialEq, Eq)]
pub struct Psi {
    pub tables: Vec<PsiTable>,
}

fn read_syntax(s: &[u8], total: usize) -> (r: Result<PsiTableSyntax>)
    requires
        12 <= total <= s@.len(),
    ensures
        match r {
            Ok(sx) => spec_syntax(s@, total as int) == Ok::<SyntaxView, ErrorKind>(sx@),
            Err(e) => spec_syntax(s@, total as int) == Err::<SyntaxView, ErrorKind>(e),
        },
{
    if crc32(vstd::slice::slice_subrange(s, 0, total)) != 0 {
        return Err(ErrorKind::InvalidInput);
    }
    let b5 = s[5];
    if b5 & 0xC0u8 != 0xC0u8 {
        return Err(ErrorKind::InvalidInput);
    }
    let v = (b5 >> 1u8) & 0x1Fu8;
    assert(((b5 >> 1u8) & 0x1Fu8) < 32) by (bit_vector);
    let version_number = match VersionNumber::new(v) {
        Some(vn) => vn,
        None => {
            return Err(ErrorKind::InvalidInput);
        },
    };
    let table_data = vstd::slice::slice_to_vec(vstd::slice::slice_subrange(s, 8, total - 4));
    let c: u32 = ((s[total - 4] as u32) * 256 + s[total - 3] as u32) * 65536 + ((
    s[total - 2] as u32) * 256 + s[total - 1] as u32);
    Ok(
        PsiTableSyntax {
            table_id_extension: s[3] as u16 * 256 + s[4] as u16,
            version_number,
            current_next_indicator: b5 & 0x01u8 != 0,
            section_number: s[6],
            last_section_number: s[7],
            table_data,
            crc32: c,
        },
    )
}

impl PsiTable {
    /// Reads one section from the start of `bytes`; returns it with the number
    /// of bytes it took.
    pub fn read_from(bytes: &[u8]) -> (r: Result<(PsiTable, usize)>)
        ensures
            crate::pmt::read_view(r) == spec_section(bytes@),
    {
        if bytes.len() < 3 {
            return Err(ErrorKind::Truncated);
        }
        let b1 = bytes[1];
        if b1 & 0x30u8 != 0x30u8 {
            return Err(ErrorKind::InvalidInput);
        }
        if b1 & 0x0Cu8 != 0 {
            return Err(ErrorKind::InvalidInput);
        }
        assert((b1 & 0x03u8) < 4) by (bit_vector);
        let len: usize = (b1 & 0x03u8) as usize * 256 + bytes[2] as usize;
        if bytes.len() - 3 < len {
            return Err(ErrorKind::Truncated);
        }
        let total = 3 + len;
        let header = PsiTableHeader {
            table_id: bytes[0],
            section_syntax_indicator: b1 & 0x80u8 != 0,
            private_bit: b1 & 0x40u8 != 0,
        };
        if b1 & 0x80u8 == 0 {
            return Ok((PsiTable { header, syntax: None }, total));
        }
        if total < 12 {
            return Err(ErrorKind::InvalidInput);
        }
        let syntax = read_syntax(bytes, total)?;
        Ok((PsiTable { header, syntax: Some(syntax) }, total))
    }
}

fn read_sections(bytes: &[u8]) -> (r: Result<Vec<PsiTable>>)
    ensures
        seq_view(r, |t: PsiTable| t@) == spec_sections(bytes@),
{
    let mut out: Vec<PsiTable> = Vec::new();
    let mut pos: usize = 0;
    proof {
        assert(bytes@.subrange(0, bytes@.len() as int) =~= bytes@);
        match spec_sections(bytes@) {
            Ok(ts) => {
                assert(table_views(out@) + ts =~= ts);
            },
            Err(_) => {},
        }
    }
    while pos < bytes.len() && bytes[pos] != STUFFING_BYTE
        invariant
            pos <= bytes@.len(),
            spec_sections(bytes@) == prepend(
                table_views(out@),
                spec_sections(bytes@.subrange(pos as int, bytes@.len() as int)),
            ),
        decreases bytes@.len() - pos,
    {
        let rest = vstd::slice::slice_subrange(bytes, pos, bytes.len());
        let ghost before = out@;
        match PsiTable::read_from(rest) {
            Err(e) => {
                return Err(e);
            },
            Ok((t, n)) => {
                proof {
                    assert(rest@.subrange(n as int, rest@.len() as int) =~= bytes@.subrange(
                        pos + n,
                        bytes@.len() as int,
                    ));
                    let tail = spec_sections(bytes@.subrange(pos + n, bytes@.len() as int));
                    assert(table_views(before.push(t)) =~= table_views(before) + seq![t@]);
                    match tail {
                        Ok(ts) => {
                            assert(table_views(before) + (seq![t@] + ts) =~= (table_views(before)
                                + seq![t@]) + ts);
                        },
                        Err(_) => {},
                    }
                }
                out.push(t);
                pos = pos + n;
            },
        }
    }
    proof {
        let rest = bytes@.subrange(pos as int, bytes@.len() as int);
        assert(rest.len() == 0 || rest[0] == 0xFFu8);
        assert(table_views(out@) + Seq::<TableView>::empty() =~= table_views(out@));
    }
    Ok(out)
}

impl Psi {
    /// Reads the sections of a PSI payload that starts with a pointer field.
    pub fn read_from(bytes: &[u8]) -> (r: Result<Psi>)
        ensures
            match r {
                Ok(p) => spec_psi(bytes@) == Ok::<Seq<TableView>, ErrorKind>(table_views(p.tables@)),
                Err(e) => spec_psi(bytes@) == Err::<Seq<TableView>, ErrorKind>(e),
            },
    {
        if bytes.len() < 1 {
            return Err(ErrorKind::Truncated);
        }
        let ptr = bytes[0] as usize;
        if bytes.len() - 1 < ptr {
            return Err(ErrorKind::Truncated);
        }
        let tables = read_sections(vstd::slice::slice_subrange(bytes, 1 + ptr, bytes.len()))?;
        Ok(Psi { tables })
    }
}

/// Whether the buffered payload `b` (pointer field first) holds its first
/// section whole, by the ten bits of that section's length field (the section
/// parser rejects a field whose other bits are wrong).
pub open spec fn first_section_complete(b: Seq<u8>) -> bool {
    b.len() >= 1 && b.len() >= 1 + b[0] + 3 && b.len() >= 1 + b[0] + 3 + (b[1 + b[0] + 1]
        & 0x03u8) as int * 256 + b[1 + b[0] + 2] as int
}

/// What a section assembler holds: whether a section is under way, and the
/// payload bytes gathered for it.
pub struct AssemblerView {
    pub pid: u16,
    pub active: bool,
    pub buf: Seq<u8>,
}

/// The assembler after packet `p`, with the payload it completes. Packets of
/// other PIDs and packets without payload pass by; a unit start begins a new
/// payload, and one that arrives while a section is under way is
/// `Truncated`; other packets extend the payload under way, or pass by when
/// none is. Once the first section is whole, the payload is handed out.
pub open spec fn spec_section_push(st: AssemblerView, p: TsPacketView) -> Result<
    (AssemblerView, Option<Seq<u8>>),
> {
    if p.pid != st.pid || !p.has_payload {
        Ok((st, None))
    } else if p.payload_unit_start_indicator && st.active {
        Err(ErrorKind::Truncated)
    } else if !p.payload_unit_start_indicator && !st.active {
        Ok((st, None))
    } else {
        let buf = if p.payload_unit_start_indicator {
            p.payload
        } else {
            st.buf + p.payload
        };
        if first_section_complete(buf) {
            Ok((AssemblerView { pid: st.pid, active: false, buf: Seq::empty() }, Some(buf)))
        } else {
            Ok((AssemblerView { pid: st.pid, active: true, buf }, None))
        }
    }
}

/// Gathers the payloads of one PID's packets until a whole section is there.
pub struct SectionAssembler {
    pid: Pid,
    active: bool,
    buf: Vec<u8>,
}

fn section_complete(b: &Vec<u8>) -> (r: bool)
    ensures
        r == first_section_complete(b@),
{
    if b.len() < 1 {
        return false;
    }
    let ptr = b[0] as usize;
    if b.len() < 1 + ptr + 3 {
        return false;
    }
    let hi = b[1 + ptr + 1];
    assert((hi & 0x03u8) < 4) by (bit_vector);
    let len = (hi & 0x03u8) as usize * 256 + b[1 + ptr + 2] as usize;
    b.len() - (1 + ptr + 3) >= len
}

impl SectionAssembler {
    /// The assembler's state.
    pub closed spec fn view_state(self) -> AssemblerView {
        AssemblerView { pid: self.pid.spec_value(), active: self.active, buf: self.buf@ }
    }

    /// An assembler for the sections of PID `pid`, with nothing gathered.
    pub fn new(pid: Pid) -> (r: SectionAssembler)
        ensures
            r.view_state() == (AssemblerView { pid: pid.spec_value(), active: false, buf: Seq::empty() }),
    {
        SectionAssembler { pid, active: false, buf: Vec::new() }
    }

    /// Gives packet `p` to the assembler; returns the payload, pointer field
    /// first, once its first section is whole.
    pub fn push(&mut self, p: &TsPacket) -> (r: Result<Option<Vec<u8>>>)
        ensures
            match r {
                Ok(out) => spec_section_push(old(self).view_state(), p@) == Ok::<_, ErrorKind>(
                    (
                        final(self).view_state(),
                        match out {
                            Some(v) => Some(v@),
                            None => None::<Seq<u8>>,
                        },
                    ),
                ),
                Err(e) => spec_section_push(old(self).view_state(), p@) == Err::<
                    (AssemblerView, Option<Seq<u8>>),
                    ErrorKind,
                >(e),
            },
    {
        if p.pid.as_u16() != self.pid.as_u16() || !p.has_payload {
            return Ok(None);
        }
        if p.payload_unit_start_indicator && self.active {
            return Err(ErrorKind::Truncated);
        }
        if !p.payload_unit_start_indicator && !self.active {
            return Ok(None);
        }
        let mut buf = if p.payload_unit_start_indicator {
            Vec::new()
        } else {
            let mut b = Vec::new();
            core::mem::swap(&mut b, &mut self.buf);
            b
        };
        let mut more = vstd::slice::slice_to_vec(p.payload.as_slice());
        buf.append(&mut more);
        if section_complete(&buf) {
            self.active = false;
            self.buf = Vec::new();
            Ok(Some(buf))
        } else {
            self.active = true;
            self.buf = buf;
            Ok(None)
        }
    }
}

} // verus!
