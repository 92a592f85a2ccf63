//! Decoding of a whole tpr file.

use vstd::prelude::*;

use crate::coordinates::Coordinates;
use crate::errors::{eof, ParseTprError};
use crate::ffparams::FFParams;
use crate::header::{header_error, marker, occurs};
use crate::structures::{Precision, SimBox, TprFile, TprHeader, TprTopology};
use crate::symtab::SymTable;
use crate::topology::{lemma_fill, lemma_fill_view, topology_ok, topology_step};
use crate::coordinates::coordinates_step;
use crate::ffparams::{ffparams_step, InteractionType};
use crate::header::{header_step, header_view, HeaderModel};
use crate::moltypes::{atoms_view, AtomModel};
use crate::simbox::simbox_step;
use crate::symtab::symbol_step;
use crate::structures::{Bond, Real};
use crate::xdr::{count_of, i32_step, real_width, skip_step, string4_step, strings_step, Step, XdrFile};

verus! {

/// A decoded file as plain values.
pub struct FileModel {
    pub header: HeaderModel,
    pub system_name: Seq<char>,
    pub simbox: Option<SimBox>,
    pub atoms: Seq<AtomModel>,
    pub bonds: Seq<Bond>,
}

/// The plain values of a decoded file.
pub open spec fn file_view(f: TprFile) -> FileModel {
    FileModel {
        header: header_view(f.header),
        system_name: f.system_name@,
        simbox: f.simbox,
        atoms: atoms_view(f.topology.atoms@),
        bonds: f.topology.bonds@,
    }
}

/// The simulation box at `p`, present when the header flags it.
pub open spec fn box_step(b: Seq<u8>, p: int, h: HeaderModel) -> Step<Option<SimBox>> {
    if h.has_box {
        match simbox_step(b, p, h.precision) {
            Ok((sb, e)) => Ok((Some(sb), e)),
            Err(e) => Err(e),
        }
    } else {
        Ok((None, p))
    }
}

/// The symbol table at `p`: a count, then that many strings.
pub open spec fn symtab_step(b: Seq<u8>, p: int, version: i32) -> Step<Seq<Seq<char>>> {
    match i32_step(b, p) {
        Ok((n, q)) => strings_step(b, q, version, count_of(n)),
        Err(e) => Err(e),
    }
}

/// Atoms with the coordinates of the blocks merged on, index for index.
pub open spec fn with_coordinates(
    atoms: Seq<AtomModel>,
    ps: Seq<[Real; 3]>,
    vs: Seq<[Real; 3]>,
    fs: Seq<[Real; 3]>,
) -> Seq<AtomModel> {
    Seq::new(
        atoms.len(),
        |i: int|
            AtomModel {
                atom_name: atoms[i].atom_name,
                atom_number: atoms[i].atom_number,
                residue_name: atoms[i].residue_name,
                residue_number: atoms[i].residue_number,
                mass: atoms[i].mass,
                charge: atoms[i].charge,
                element: atoms[i].element,
                position: if i < ps.len() {
                    Some(ps[i])
                } else {
                    atoms[i].position
                },
                velocity: if i < vs.len() {
                    Some(vs[i])
                } else {
                    atoms[i].velocity
                },
                force: if i < fs.len() {
                    Some(fs[i])
                } else {
                    atoms[i].force
                },
            },
    )
}

/// The part of a file before the topology: the header, the box, the
/// former temperature-coupling data (skipped), the symbol table, the
/// system name and the interaction-type registry.
pub open spec fn preamble_step(b: Seq<u8>) -> Step<
    (HeaderModel, Option<SimBox>, Seq<Seq<char>>, Seq<char>, Seq<InteractionType>),
> {
    match header_step(b, 0) {
        Err(e) => Err(e),
        Ok((h, q)) => match box_step(b, q, h) {
            Err(e) => Err(e),
            Ok((sb, q1)) => match skip_step(b, q1, real_width(h.precision) * h.n_coupling_groups) {
                Err(e) => Err(e),
                Ok((_, q2)) => match symtab_step(b, q2, h.tpr_version) {
                    Err(e) => Err(e),
                    Ok((symbols, q3)) => match symbol_step(b, q3, symbols) {
                        Err(e) => Err(e),
                        Ok((name, q4)) => match ffparams_step(b, q4, h.precision, h.tpr_version) {
                            Err(e) => Err(e),
                            Ok((types, q5)) => Ok(((h, sb, symbols, name, types), q5)),
                        },
                    },
                },
            },
        },
    }
}

/// The file that the bytes hold, with the position where its last block
/// ends, or the error that decoding them meets first.
pub open spec fn file_step(b: Seq<u8>) -> Step<FileModel> {
    match preamble_step(b) {
        Err(e) => Err(e),
        Ok(((h, sb, symbols, name, types), q)) => match topology_step(
            b,
            q,
            h.precision,
            h.tpr_version,
            symbols,
            types,
            h.n_atoms,
        ) {
            Err(e) => Err(e),
            Ok(((atoms, bonds), q1)) => match coordinates_step(
                b,
                q1,
                h.precision,
                h.n_atoms,
                h.has_positions,
                h.has_velocities,
                h.has_forces,
            ) {
                Err(e) => Err(e),
                Ok(((ps, vs, fs), e)) => Ok(
                    (
                        FileModel {
                            header: h,
                            system_name: name,
                            simbox: sb,
                            atoms: with_coordinates(atoms, ps, vs, fs),
                            bonds,
                        },
                        e,
                    ),
                ),
            },
        },
    }
}

/// The file that the bytes hold, or the error that decoding them meets
/// first.  Bytes after the last block are ignored.
pub open spec fn file_model(b: Seq<u8>) -> Result<FileModel, ParseTprError> {
    match file_step(b) {
        Ok((m, _)) => Ok(m),
        Err(e) => Err(e),
    }
}

/// `r` is what decoding the bytes `b` gives.
pub open spec fn parse_result(b: Seq<u8>, r: Result<TprFile, ParseTprError>) -> bool {
    match file_model(b) {
        Ok(m) => r matches Ok(f) && file_view(f) == m,
        Err(e) => r == Err::<TprFile, ParseTprError>(e),
    }
}

/// Decoding is deterministic: any two results that `TprFile::parse` gives
/// for the same bytes agree, the same error or files equal in every field
/// (header, system name, box, atoms in order, bonds).
pub proof fn lemma_decoding_deterministic(
    b: Seq<u8>,
    r1: Result<TprFile, ParseTprError>,
    r2: Result<TprFile, ParseTprError>,
)
    requires
        parse_result(b, r1),
        parse_result(b, r2),
    ensures
        match (r1, r2) {
            (Ok(f1), Ok(f2)) => file_view(f1) == file_view(f2),
            (Err(e1), Err(e2)) => e1 == e2,
            _ => false,
        },
{
}

/// An input too short to hold the leading string's two length words (in
/// particular an empty one) is rejected by `TprFile::parse` with a read
/// error.
pub proof fn lemma_short_input_rejected(b: Seq<u8>)
    requires
        b.len() < 8,
    ensures
        header_error(b, 0) == Some(eof()),
{
}

/// An input whose leading string does not hold the marker "VERSION" is
/// rejected by `TprFile::parse` as not a tpr file.
pub proof fn lemma_missing_marker_rejected(b: Seq<u8>)
    requires
        string4_step(b, 0) matches Ok((s, _)) && !occurs(marker(), s),
    ensures
        header_error(b, 0) == Some(ParseTprError::NotTpr),
{
}

impl TprFile {
    /// Decode a Gromacs tpr file from its bytes: the header, the simulation
    /// box (if present), the symbol table, the name of the system, the
    /// interaction-type registry, the topology, and the positions,
    /// velocities and forces (if present), which are merged onto the atoms.
    ///
    /// Only files of version 103 or later are supported.  Force-field and
    /// simulation parameters are skipped, not decoded.
    #[verifier::rlimit(40)]
    pub fn parse(bytes: &[u8]) -> (r: Result<TprFile, ParseTprError>)
        ensures
            parse_result(bytes@, r),
            header_error(bytes@, 0) matches Some(e) ==> r == Err::<TprFile, ParseTprError>(e),
            r matches Ok(f) ==> {
                &&& header_error(bytes@, 0) is None
                &&& f.simbox is Some == f.header.has_box
                &&& f.topology.atoms@.len() == f.header.n_atoms
                &&& topology_ok(f.topology)
                &&& forall|i: int|
                    0 <= i < f.topology.atoms@.len() ==> {
                        &&& (#[trigger] f.topology.atoms@[i]).position is Some == f.header.has_positions
                        &&& f.topology.atoms@[i].velocity is Some == f.header.has_velocities
                        &&& f.topology.atoms@[i].force is Some == f.header.has_forces
                    }
            },
    {
        let mut xdrfile = XdrFile::new(bytes);

        let header = match TprHeader::parse(&mut xdrfile) {
            Ok(h) => h,
            Err(e) => return Err(e),
        };

        let simbox = if header.has_box {
            match SimBox::parse(&mut xdrfile, header.precision) {
                Ok(sb) => Some(sb),
                Err(e) => return Err(e),
            }
        } else {
            None
        };

        // what used to be temperature-coupling data
        let width: i64 = match header.precision {
            Precision::Single => 4,
            Precision::Double => 8,
        };
        match xdrfile.jump(width * header.n_coupling_groups as i64) {
            Ok(()) => {},
            Err(e) => return Err(e),
        }

        let symtab = match SymTable::parse(&mut xdrfile, header.tpr_version) {
            Ok(t) => t,
            Err(e) => return Err(e),
        };
        let system_name = match symtab.symstring(&mut xdrfile) {
            Ok(s) => s,
            Err(e) => return Err(e),
        };
        let ffparams = match FFParams::parse(&mut xdrfile, header.precision, header.tpr_version) {
            Ok(ff) => ff,
            Err(e) => return Err(e),
        };
        let mut topology = match TprTopology::parse(
            &mut xdrfile,
            header.precision,
            header.tpr_version,
            &symtab,
            &ffparams,
            header.n_atoms,
        ) {
            Ok(t) => t,
            Err(e) => return Err(e),
        };
        let coordinates = match Coordinates::parse(&mut xdrfile, &header) {
            Ok(c) => c,
            Err(e) => return Err(e),
        };
        let ghost before = topology;
        let ghost c = coordinates;
        topology.fill_with_coordinates(coordinates);
        proof {
            lemma_fill(before, topology, c);
            lemma_fill_view(before.atoms@, topology.atoms@, c);
        }
        Ok(TprFile { header, system_name, simbox, topology })
    }
}

} // verus!
