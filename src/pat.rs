use vstd::prelude::*;
use crate::error::{ErrorKind, Result};
use crate::pmt::{be16, pid_field, prepend, read_pid};
use crate::psi::{spec_psi, table_views, Psi, TableView};
use crate::types::{Pid, VersionNumber};

verus! {

/// The table id of a program association section.
pub const PAT_TABLE_ID: u8 = 0;

/// What a program association entry holds: a program number and the PID of
/// its program map table (of the network information table for program 0).
pub struct ProgramAssociationView {
    pub program_num: u16,
    pub program_map_pid: u16,
}

/// What a program association table holds.
pub struct PatView {
    pub transport_stream_id: u16,
    pub version_number: u8,
    pub table: Seq<ProgramAssociationView>,
}

/// The four-byte program association entries that fill `d` exactly.
pub open spec fn spec_pat_entries(d: Seq<u8>) -> Result<Seq<ProgramAssociationView>>
    decreases d.len(),
{
    if d.len() == 0 {
        Ok(Seq::empty())
    } else if d.len() < 4 {
        Err(ErrorKind::Truncated)
    } else {
        match pid_field(d[2], d[3]) {
            Err(e) => Err(e),
            Ok(pid) => prepend(
                seq![ProgramAssociationView { program_num: be16(d[0], d[1]) as u16, program_map_pid: pid }],
                spec_pat_entries(d.subrange(4, d.len() as int)),
            ),
        }
    }
}

/// The program association table that the sections `tables` give: exactly
/// one current section 0 of 0 with the PAT table id and no private bit.
pub open spec fn spec_pat_of(tables: Seq<TableView>) -> Result<PatView> {
    if tables.len() == 0 {
        Err(ErrorKind::InvalidInput)
    } else if tables.len() > 1 {
        Err(ErrorKind::Unsupported)
    } else if tables[0].table_id != 0 || tables[0].private_bit {
        Err(ErrorKind::InvalidInput)
    } else {
        match tables[0].syntax {
            None => Err(ErrorKind::InvalidInput),
            Some(sx) => if sx.last_section_number != 0 {
                Err(ErrorKind::Unsupported)
            } else if sx.section_number != 0 || !sx.current_next_indicator {
                Err(ErrorKind::InvalidInput)
            } else {
                match spec_pat_entries(sx.table_data) {
                    Err(e) => Err(e),
                    Ok(table) => Ok(
                        PatView {
                            transport_stream_id: sx.table_id_extension,
                            version_number: sx.version_number,
                            table,
                        },
                    ),
                }
            },
        }
    }
}

/// The program association table that a PSI payload `s` carries.
pub open spec fn spec_pat(s: Seq<u8>) -> Result<PatView> {
    match spec_psi(s) {
        Err(e) => Err(e),
        Ok(tables) => spec_pat_of(tables),
    }
}

/// One entry of a program association table.
#[derive(Debug, Clone, Copy, PartialEq, Eq, Structural)]
pub struct ProgramAssociation {
    pub program_num: u16,
    pub program_map_pid: Pid,
}

impl View for ProgramAssociation {
    type V = ProgramAssociationView;

    open spec fn view(&self) -> ProgramAssociationView {
        ProgramAssociationView {
            program_num: self.program_num,
            program_map_pid: self.program_map_pid.spec_value(),
        }
    }
}

/// The views of a sequence of program association entries.
pub open spec fn association_views(v: Seq<ProgramAssociation>) -> Seq<ProgramAssociationView> {
    v.map_values(|a: ProgramAssociation| a@)
}

/// Program Association Table.
#[derive(Debug, Clone, PartialEq, Eq)]
pub struct Pat {
    pub transport_stream_id: u16,
    pub version_number: VersionNumber,
    pub table: Vec<ProgramAssociation>,
}

impl View for Pat {
    type V = PatView;

    open spec fn view(&self) -> PatView {
        PatView {
            transport_stream_id: self.transport_stream_id,
            version_number: self.version_number.spec_value(),
            table: association_views(self.table@),
        }
    }
}

fn read_entries(d: &[u8]) -> (r: Result<Vec<ProgramAssociation>>)
    ensures
        crate::pmt::seq_view(r, |a: ProgramAssociation| a@) == spec_pat_entries(d@),
{
    let mut out: Vec<ProgramAssociation> = Vec::new();
    let mut pos: usize = 0;
    proof {
        assert(d@.subrange(0, d@.len() as int) =~= d@);
        match spec_pat_entries(d@) {
            Ok(es) => {
                assert(association_views(out@) + es =~= es);
            },
            Err(_) => {},
        }
    }
    while pos < d.len()
        invariant
            pos <= d@.len(),
            spec_pat_entries(d@) == prepend(
                association_views(out@),
                spec_pat_entries(d@.subrange(pos as int, d@.len() as int)),
            ),
        decreases d@.len() - pos,
    {
        let ghost rest = d@.subrange(pos as int, d@.len() as int);
        if d.len() - pos < 4 {
            return Err(ErrorKind::Truncated);
        }
        assert(rest[2] == d@[pos + 2] && rest[3] == d@[pos + 3]);
        let pid = read_pid(d[pos + 2], d[pos + 3])?;
        let a = ProgramAssociation {
            program_num: d[pos] as u16 * 256 + d[pos + 1] as u16,
            program_map_pid: pid,
        };
        proof {
            assert(rest.subrange(4, rest.len() as int) =~= d@.subrange(pos + 4, d@.len() as int));
            let before = out@;
            assert(association_views(before.push(a)) =~= association_views(before) + seq![a@]);
            match spec_pat_entries(d@.subrange(pos + 4, d@.len() as int)) {
                Ok(ts) => {
                    assert(association_views(before) + (seq![a@] + ts) =~= (association_views(
                        before,
                    ) + seq![a@]) + ts);
                },
                Err(_) => {},
            }
        }
        out.push(a);
        pos = pos + 4;
    }
    proof {
        assert(d@.subrange(pos as int, d@.len() as int) =~= Seq::<u8>::empty());
        assert(association_views(out@) + Seq::<ProgramAssociationView>::empty() =~= association_views(
            out@,
        ));
    }
    Ok(out)
}

impl Pat {
    /// Decodes the program association table of a PSI payload that starts
    /// with a pointer field.
    pub fn read_from(bytes: &[u8]) -> (r: Result<Pat>)
        ensures
            match r {
                Ok(p) => spec_pat(bytes@) == Ok::<PatView, ErrorKind>(p@),
                Err(e) => spec_pat(bytes@) == Err::<PatView, ErrorKind>(e),
            },
    {
        let psi = Psi::read_from(bytes)?;
        let ghost tv = table_views(psi.tables@);
        if psi.tables.len() == 0 {
            return Err(ErrorKind::InvalidInput);
        }
        if psi.tables.len() > 1 {
            return Err(ErrorKind::Unsupported);
        }
        let table = &psi.tables[0];
        assert(tv[0] == table@);
        if table.header.table_id != PAT_TABLE_ID || table.header.private_bit {
            return Err(ErrorKind::InvalidInput);
        }
        let syntax = match &table.syntax {
            Some(sx) => sx,
            None => {
                return Err(ErrorKind::InvalidInput);
            },
        };
        if syntax.last_section_number != 0 {
            return Err(ErrorKind::Unsupported);
        }
        if syntax.section_number != 0 || !syntax.current_next_indicator {
            return Err(ErrorKind::InvalidInput);
        }
        let table = read_entries(syntax.table_data.as_slice())?;
        Ok(
            Pat {
                transport_stream_id: syntax.table_id_extension,
                version_number: syntax.version_number,
                table,
            },
        )
    }
}

} // verus!
