//! The system topology: molecule types and blocks, intermolecular
//! interactions, and their assembly into a flat list of atoms and bonds.

use vstd::prelude::*;

use crate::coordinates::Coordinates;
use crate::errors::{eof, ParseTprError, ReadError};
use crate::ffparams::FFParams;
use crate::interactions::{
    base, bonds_of, bonds_within, consecutive, kinds_step, lemma_bonds_within, model, plain, read_interactions,
    Interaction,
};
use crate::ffparams::{shown, InteractionType, N_KINDS};
use crate::molblocks::{block_model, block_step, run_ok, MolBlock};
use crate::moltypes::{
    atoms_view, bare, lemma_matches_view, moltype_step, mt_view, numbered_from, AtomModel, MoleculeType,
    MoleculeTypeModel,
};
use crate::structures::{Atom, Bond, Precision, TprTopology};
use crate::symtab::{texts, SymTable};
use crate::xdr::{count_of, i32_step, i64_step, outcome, real_width, skip_step, uchar_step, uchar_width, Step, XdrFile};

verus! {

/// Number of group types (temperature coupling, energy output, acceleration, ...).
pub const NR_GROUP_TYPES: usize = 10;

/// Atoms numbered `1..=n` in order, with residue numbers that start at 1
/// and advance by 0 or 1 from one atom to the next.
pub open spec fn well_numbered(atoms: Seq<Atom>) -> bool {
    &&& forall|i: int| 0 <= i < atoms.len() ==> #[trigger] atoms[i].atom_number == i + 1
    &&& atoms.len() > 0 ==> atoms[0].residue_number == 1
    &&& forall|i: int|
        0 < i < atoms.len() ==> #[trigger] atoms[i].residue_number == atoms[i - 1].residue_number
            || atoms[i].residue_number == atoms[i - 1].residue_number + 1
}

/// Both atoms of every bond are valid indices into the atoms.
pub open spec fn bonds_in_range(t: TprTopology) -> bool {
    forall|i: int|
        0 <= i < t.bonds@.len() ==> (#[trigger] t.bonds@[i]).atom1 < t.atoms@.len() && t.bonds@[i].atom2
            < t.atoms@.len()
}

/// An assembled topology: numbered atoms and bonds between them.
pub open spec fn topology_ok(t: TprTopology) -> bool {
    well_numbered(t.atoms@) && bonds_in_range(t)
}

/// `new` is `old` with the coordinates of atom `i` filled in from `c`
/// where `c` has them.
pub open spec fn filled(new: Atom, old: Atom, c: Coordinates, i: int) -> bool {
    &&& new.atom_name == old.atom_name
    &&& new.atom_number == old.atom_number
    &&& new.residue_name == old.residue_name
    &&& new.residue_number == old.residue_number
    &&& new.mass == old.mass
    &&& new.charge == old.charge
    &&& new.element == old.element
    &&& new.position == if i < c.positions@.len() {
        Some(c.positions@[i])
    } else {
        old.position
    }
    &&& new.velocity == if i < c.velocities@.len() {
        Some(c.velocities@[i])
    } else {
        old.velocity
    }
    &&& new.force == if i < c.forces@.len() {
        Some(c.forces@[i])
    } else {
        old.force
    }
}

/// The molecule blocks as plain values: molecule type index and number of molecules.
pub open spec fn blocks_view(blocks: Seq<MolBlock>) -> Seq<(i32, i32)> {
    blocks.map_values(|bl: MolBlock| (bl.molecule_type, bl.n_molecules))
}

/// The molecule types as plain values.
pub open spec fn moltypes_view(mts: Seq<MoleculeType>) -> Seq<MoleculeTypeModel> {
    mts.map_values(|mt: MoleculeType| mt_view(mt))
}

/// The intermolecular interactions as plain values.
pub open spec fn inter_view(inter: Option<Vec<Interaction>>) -> Option<Seq<(InteractionType, Seq<i32>)>> {
    match inter {
        Some(its) => Some(model(its@)),
        None => None,
    }
}

/// The atoms and bonds of the first `k` blocks, numbered from atom 1 and
/// residue 1, with the counters after them.
pub open spec fn blocks_model(ms: Seq<MoleculeTypeModel>, blocks: Seq<(i32, i32)>, k: int) -> Result<
    (Seq<AtomModel>, Seq<Bond>, int, int),
    ParseTprError,
>
    decreases k,
{
    if k <= 0 {
        Ok((seq![], seq![], 1, 0))
    } else {
        match blocks_model(ms, blocks, k - 1) {
            Err(e) => Err(e),
            Ok((atoms, bonds, ac, rc)) => {
                let t = blocks[k - 1].0;
                if !(0 <= t < ms.len()) {
                    Err(ParseTprError::CouldNotConstructTopology)
                } else {
                    match block_model(ms[t as int], blocks[k - 1].1 as int, ac, rc) {
                        Ok((a2, b2, ac2, rc2)) => Ok((atoms + a2, bonds + b2, ac2, rc2)),
                        Err(e) => Err(e),
                    }
                }
            },
        }
    }
}

pub proof fn lemma_blocks_fail(ms: Seq<MoleculeTypeModel>, blocks: Seq<(i32, i32)>, k: int, n: int)
    requires
        0 <= k <= n,
        blocks_model(ms, blocks, k) is Err,
    ensures
        blocks_model(ms, blocks, n) == blocks_model(ms, blocks, k),
    decreases n - k,
{
    if k < n {
        lemma_blocks_fail(ms, blocks, k, n - 1);
    }
}

/// The assembled topology: the blocks expanded in order, then the bonds of
/// the intermolecular interactions, whose atom indices are global.
pub open spec fn assemble(
    ms: Seq<MoleculeTypeModel>,
    blocks: Seq<(i32, i32)>,
    inter: Option<Seq<(InteractionType, Seq<i32>)>>,
) -> Result<(Seq<AtomModel>, Seq<Bond>), ParseTprError> {
    match blocks_model(ms, blocks, blocks.len() as int) {
        Err(e) => Err(e),
        Ok((atoms, bonds, _, _)) => match inter {
            None => Ok((atoms, bonds)),
            Some(its) => match bonds_of(its, 0, atoms.len() as int) {
                Ok(bs) => Ok((atoms, bonds + bs)),
                Err(e) => Err(e),
            },
        },
    }
}

/// Filling in coordinates keeps an assembled topology assembled, and an
/// atom without coordinates gets those of its index.
pub proof fn lemma_fill(before: TprTopology, after: TprTopology, c: Coordinates)
    requires
        topology_ok(before),
        bare(before.atoms@),
        after.bonds == before.bonds,
        after.atoms@.len() == before.atoms@.len(),
        forall|i: int|
            0 <= i < before.atoms@.len() ==> filled(#[trigger] after.atoms@[i], before.atoms@[i], c, i),
    ensures
        topology_ok(after),
        forall|i: int|
            0 <= i < after.atoms@.len() ==> {
                &&& (#[trigger] after.atoms@[i]).position is Some == (i < c.positions@.len())
                &&& after.atoms@[i].velocity is Some == (i < c.velocities@.len())
                &&& after.atoms@[i].force is Some == (i < c.forces@.len())
            },
{
    let a = after.atoms@;
    let a0 = before.atoms@;
    assert forall|i: int| 0 <= i < a.len() implies #[trigger] a[i].atom_number == i + 1 by {
        assert(filled(a[i], a0[i], c, i));
    }
    assert forall|i: int| 0 < i < a.len() implies #[trigger] a[i].residue_number == a[i - 1].residue_number
        || a[i].residue_number == a[i - 1].residue_number + 1 by {
        assert(filled(a[i], a0[i], c, i));
        assert(filled(a[i - 1], a0[i - 1], c, i - 1));
    }
    if a.len() > 0 {
        assert(filled(a[0], a0[0], c, 0));
    }
    assert forall|i: int| 0 <= i < a.len() implies {
        &&& (#[trigger] a[i]).position is Some == (i < c.positions@.len())
        &&& a[i].velocity is Some == (i < c.velocities@.len())
        &&& a[i].force is Some == (i < c.forces@.len())
    } by {
        assert(filled(a[i], a0[i], c, i));
    }
}

/// `n` consecutive molecule types at `p`.
pub open spec fn moltypes_step(
    b: Seq<u8>,
    p: int,
    precision: Precision,
    version: i32,
    symbols: Seq<Seq<char>>,
    types: Seq<InteractionType>,
    n: int,
) -> Step<Seq<MoleculeTypeModel>>
    decreases n,
{
    if n <= 0 {
        Ok((seq![], p))
    } else {
        match moltypes_step(b, p, precision, version, symbols, types, n - 1) {
            Ok((ms, q)) => match moltype_step(b, q, precision, version, symbols, types) {
                Ok((m, e)) => Ok((ms.push(m), e)),
                Err(e) => Err(e),
            },
            Err(e) => Err(e),
        }
    }
}

pub proof fn lemma_moltypes_fail(
    b: Seq<u8>,
    p: int,
    precision: Precision,
    version: i32,
    symbols: Seq<Seq<char>>,
    types: Seq<InteractionType>,
    k: int,
    n: int,
)
    requires
        0 <= k <= n,
        moltypes_step(b, p, precision, version, symbols, types, k) is Err,
    ensures
        moltypes_step(b, p, precision, version, symbols, types, n) == moltypes_step(
            b,
            p,
            precision,
            version,
            symbols,
            types,
            k,
        ),
    decreases n - k,
{
    if k < n {
        lemma_moltypes_fail(b, p, precision, version, symbols, types, k, n - 1);
    }
}

/// `n` consecutive molecule blocks at `p`.
pub open spec fn blocks_step(b: Seq<u8>, p: int, precision: Precision, n: int) -> Step<Seq<(i32, i32)>>
    decreases n,
{
    if n <= 0 {
        Ok((seq![], p))
    } else {
        match blocks_step(b, p, precision, n - 1) {
            Ok((bs, q)) => match block_step(b, q, precision) {
                Ok((x, e)) => Ok((bs.push(x), e)),
                Err(e) => Err(e),
            },
            Err(e) => Err(e),
        }
    }
}

pub proof fn lemma_blocks_step_fail(b: Seq<u8>, p: int, precision: Precision, k: int, n: int)
    requires
        0 <= k <= n,
        blocks_step(b, p, precision, k) is Err,
    ensures
        blocks_step(b, p, precision, n) == blocks_step(b, p, precision, k),
    decreases n - k,
{
    if k < n {
        lemma_blocks_step_fail(b, p, precision, k, n - 1);
    }
}

/// The intermolecular interactions at `p`, present when `flag` is set.
#[verifier::opaque]
pub open spec fn inter_step(b: Seq<u8>, p: int, version: i32, types: Seq<InteractionType>, flag: bool) -> Step<
    Option<Seq<(InteractionType, Seq<i32>)>>,
> {
    if flag {
        match kinds_step(b, p, version, types, N_KINDS as int) {
            Ok((its, e)) => Ok((Some(its), e)),
            Err(e) => Err(e),
        }
    } else {
        Ok((None, p))
    }
}

/// With the intermolecular flag unset, nothing of an intermolecular block
/// is read: the interactions are absent and the position stays.
pub proof fn lemma_no_intermolecular_block(b: Seq<u8>, p: int, version: i32, types: Seq<InteractionType>)
    ensures
        inter_step(b, p, version, types, false) == Ok::<(Option<Seq<(InteractionType, Seq<i32>)>>, int), ParseTprError>(
            (None, p),
        ),
{
    reveal(inter_step);
}

/// With the intermolecular flag set, the interactions are read as an
/// interaction list.
pub proof fn lemma_intermolecular_block(b: Seq<u8>, p: int, version: i32, types: Seq<InteractionType>)
    ensures
        inter_step(b, p, version, types, true) == match kinds_step(b, p, version, types, N_KINDS as int) {
            Ok((its, e)) => Ok::<(Option<Seq<(InteractionType, Seq<i32>)>>, int), ParseTprError>((Some(its), e)),
            Err(e) => Err(e),
        },
{
    reveal(inter_step);
}

/// The molecule blocks, the atom count and the intermolecular interactions
/// (behind a flag) at `p`.
pub open spec fn blocks_part_step(b: Seq<u8>, p: int, precision: Precision, version: i32, types: Seq<InteractionType>) -> Step<
    (Seq<(i32, i32)>, i32, Option<Seq<(InteractionType, Seq<i32>)>>),
> {
    match i32_step(b, p) {
        Err(e) => Err(e),
        Ok((n_blocks, q2)) => match blocks_step(b, q2, precision, count_of(n_blocks)) {
            Err(e) => Err(e),
            Ok((bs, q3)) => match i32_step(b, q3) {
                Err(e) => Err(e),
                Ok((n_atoms, q4)) => match uchar_step(b, q4, version) {
                    Err(e) => Err(e),
                    Ok((flag, q5)) => match inter_step(b, q5, version, types, flag != 0) {
                        Err(e) => Err(e),
                        Ok((inter, q6)) => Ok(((bs, n_atoms, inter), q6)),
                    },
                },
            },
        },
    }
}

/// The part of the topology section that is read before assembly: the
/// molecule types, the molecule blocks, the atom count, and the
/// intermolecular interactions (behind a flag).
pub open spec fn topology_head_step(
    b: Seq<u8>,
    p: int,
    precision: Precision,
    version: i32,
    symbols: Seq<Seq<char>>,
    types: Seq<InteractionType>,
) -> Step<(Seq<MoleculeTypeModel>, Seq<(i32, i32)>, i32, Option<Seq<(InteractionType, Seq<i32>)>>)> {
    match i32_step(b, p) {
        Err(e) => Err(e),
        Ok((n_moltypes, q0)) => match moltypes_step(b, q0, precision, version, symbols, types, count_of(n_moltypes)) {
            Err(e) => Err(e),
            Ok((ms, q1)) => match blocks_part_step(b, q1, precision, version, types) {
                Err(e) => Err(e),
                Ok(((bs, n_atoms, inter), q6)) => Ok(((ms, bs, n_atoms, inter), q6)),
            },
        },
    }
}

/// The atom types (before version 128; with five reals each before 113).
#[verifier::opaque]
pub open spec fn atomtypes_step(b: Seq<u8>, p: int, precision: Precision, version: i32) -> Step<()> {
    if version < 128 {
        match i32_step(b, p) {
            Err(e) => Err(e),
            Ok((n, q)) => if version < 113 {
                match skip_step(b, q, 5 * n * real_width(precision)) {
                    Err(e) => Err(e),
                    Ok((_, q1)) => skip_step(b, q1, 4 * n),
                }
            } else {
                skip_step(b, q, 4 * n)
            },
        }
    } else {
        Ok(((), p))
    }
}

/// The dihedral correction maps: a number of grids and a grid spacing, then
/// four reals per grid cell.
#[verifier::opaque]
pub open spec fn cmap_step(b: Seq<u8>, p: int, precision: Precision) -> Step<()> {
    match i32_step(b, p) {
        Err(e) => Err(e),
        Ok((n_grids, q)) => match i32_step(b, q) {
            Err(e) => Err(e),
            Ok((spacing, q1)) => {
                let cells = 4 * (n_grids * (spacing * spacing));
                if cells < 0 {
                    Err(ParseTprError::CouldNotRead(ReadError::NegativeSkip))
                } else if cells > i64::MAX {
                    Err(eof())
                } else {
                    skip_step(b, q1, cells * real_width(precision))
                }
            },
        },
    }
}

/// `k` lists of 4-byte items, each after its length.
pub open spec fn groups_step(b: Seq<u8>, p: int, k: int) -> Step<()>
    decreases k,
{
    if k <= 0 {
        Ok(((), p))
    } else {
        match groups_step(b, p, k - 1) {
            Err(e) => Err(e),
            Ok((_, q)) => match i32_step(b, q) {
                Err(e) => Err(e),
                Ok((n, q1)) => skip_step(b, q1, 4 * n),
            },
        }
    }
}

/// `k` lists of unsigned chars of the file body, each after its length.
pub open spec fn group_numbers_step(b: Seq<u8>, p: int, version: i32, k: int) -> Step<()>
    decreases k,
{
    if k <= 0 {
        Ok(((), p))
    } else {
        match group_numbers_step(b, p, version, k - 1) {
            Err(e) => Err(e),
            Ok((_, q)) => match i32_step(b, q) {
                Err(e) => Err(e),
                Ok((n, q1)) => skip_step(b, q1, n * uchar_width(version)),
            },
        }
    }
}

/// The intermolecular exclusion group (from version 120 on): a size, which
/// must not be negative, then that many 4-byte items.
#[verifier::opaque]
pub open spec fn exclusions_step(b: Seq<u8>, p: int, version: i32) -> Step<()> {
    if version >= 120 {
        match i64_step(b, p) {
            Err(e) => Err(e),
            Ok((size, q)) => if size < 0 {
                Err(ParseTprError::InvalidIntermolecularExclusionGroupSize(size))
            } else if size > i64::MAX / 4 {
                Err(eof())
            } else {
                skip_step(b, q, 4 * size)
            },
        }
    } else {
        Ok(((), p))
    }
}

/// The records that follow the topology (skipped): atom types, dihedral
/// correction maps, atom groups, group names, group numbers and the
/// intermolecular exclusion group.
pub open spec fn trailer_step(b: Seq<u8>, p: int, precision: Precision, version: i32) -> Step<()> {
    match atomtypes_step(b, p, precision, version) {
        Err(e) => Err(e),
        Ok((_, q)) => match cmap_step(b, q, precision) {
            Err(e) => Err(e),
            Ok((_, q1)) => match groups_step(b, q1, NR_GROUP_TYPES as int) {
                Err(e) => Err(e),
                Ok((_, q2)) => match groups_step(b, q2, 1) {
                    Err(e) => Err(e),
                    Ok((_, q3)) => match group_numbers_step(b, q3, version, NR_GROUP_TYPES as int) {
                        Err(e) => Err(e),
                        Ok((_, q4)) => exclusions_step(b, q4, version),
                    },
                },
            },
        },
    }
}

/// The topology section at `p`: assembled atoms and bonds.  The atom count
/// stored in the section must equal `expected` and the number of assembled
/// atoms.
pub open spec fn topology_step(
    b: Seq<u8>,
    p: int,
    precision: Precision,
    version: i32,
    symbols: Seq<Seq<char>>,
    types: Seq<InteractionType>,
    expected: i32,
) -> Step<(Seq<AtomModel>, Seq<Bond>)> {
    match topology_head_step(b, p, precision, version, symbols, types) {
        Err(e) => Err(e),
        Ok(((ms, bs, n_atoms, inter), q)) => match assemble(ms, bs, inter) {
            Err(e) => Err(e),
            Ok((atoms, bonds)) => if n_atoms != expected {
                Err(ParseTprError::InconsistentNumberOfAtoms(expected, n_atoms))
            } else if n_atoms != atoms.len() {
                Err(ParseTprError::InconsistentNumberOfAtoms(expected, shown(atoms.len() as int)))
            } else {
                match trailer_step(b, q, precision, version) {
                    Err(e) => Err(e),
                    Ok((_, e)) => Ok(((atoms, bonds), e)),
                }
            },
        },
    }
}

pub proof fn lemma_groups_fail(b: Seq<u8>, p: int, k: int, n: int)
    requires
        0 <= k <= n,
        groups_step(b, p, k) is Err,
    ensures
        groups_step(b, p, n) == groups_step(b, p, k),
    decreases n - k,
{
    if k < n {
        lemma_groups_fail(b, p, k, n - 1);
    }
}

pub proof fn lemma_group_numbers_fail(b: Seq<u8>, p: int, version: i32, k: int, n: int)
    requires
        0 <= k <= n,
        group_numbers_step(b, p, version, k) is Err,
    ensures
        group_numbers_step(b, p, version, n) == group_numbers_step(b, p, version, k),
    decreases n - k,
{
    if k < n {
        lemma_group_numbers_fail(b, p, version, k, n - 1);
    }
}

/// Filling in coordinates, seen as plain values.
pub proof fn lemma_fill_view(before: Seq<Atom>, after: Seq<Atom>, c: Coordinates)
    requires
        after.len() == before.len(),
        forall|i: int| 0 <= i < before.len() ==> filled(#[trigger] after[i], before[i], c, i),
    ensures
        atoms_view(after) == crate::tpr::with_coordinates(
            atoms_view(before),
            c.positions@,
            c.velocities@,
            c.forces@,
        ),
{
    let w = crate::tpr::with_coordinates(atoms_view(before), c.positions@, c.velocities@, c.forces@);
    assert forall|i: int| 0 <= i < after.len() implies #[trigger] atoms_view(after)[i] == w[i] by {
        assert(filled(after[i], before[i], c, i));
    }
    assert(atoms_view(after) =~= w);
}

impl TprTopology {
    /// Get the system topology from the tpr file: the molecule types, the
    /// molecule blocks, the atom count, the intermolecular interactions (if
    /// flagged), then the records that follow the topology (skipped).  The
    /// atom count must agree with `expected_n_atoms` and with the assembled
    /// atoms.
    #[verifier::rlimit(60)]
    pub fn parse(
        xdrfile: &mut XdrFile,
        precision: Precision,
        tpr_version: i32,
        symbol_table: &SymTable,
        ffparams: &FFParams,
        expected_n_atoms: i32,
    ) -> (r: Result<Self, ParseTprError>)
        ensures
            final(xdrfile).bytes() == old(xdrfile).bytes(),
            r matches Ok(t) ==> topology_ok(t) && bare(t.atoms@) && t.atoms@.len() == expected_n_atoms,
            match topology_step(
                old(xdrfile).bytes(),
                old(xdrfile).at(),
                precision,
                tpr_version,
                texts(symbol_table.symbols@),
                ffparams.interaction_types@,
                expected_n_atoms,
            ) {
                Ok(((atoms, bonds), e)) => (r matches Ok(t) && atoms_view(t.atoms@) == atoms && t.bonds@ == bonds)
                    && final(xdrfile).at() == e,
                Err(e) => r == Err::<Self, ParseTprError>(e),
            },
    {
        let ghost b = xdrfile.bytes();
        let ghost p = xdrfile.at();
        let ghost symbols = texts(symbol_table.symbols@);
        let ghost types = ffparams.interaction_types@;
        let n_moltypes = match xdrfile.read_i32() {
            Ok(n) => n,
            Err(e) => return Err(e),
        };
        let ghost q0 = xdrfile.at();
        let mut molecule_types: Vec<MoleculeType> = Vec::new();
        proof {
            assert(moltypes_view(molecule_types@) =~= seq![]);
        }
        let mut i: i32 = 0;
        while i < n_moltypes
            invariant
                xdrfile.bytes() == b,
                b == old(xdrfile).bytes(),
                p == old(xdrfile).at(),
                symbols == texts(symbol_table.symbols@),
                types == ffparams.interaction_types@,
                i32_step(b, p) == Ok::<(i32, int), ParseTprError>((n_moltypes, q0)),
                0 <= i,
                i <= n_moltypes || (i == 0 && n_moltypes < 0),
                moltypes_step(b, q0, precision, tpr_version, symbols, types, i as int) == Ok::<
                    (Seq<MoleculeTypeModel>, int),
                    ParseTprError,
                >((moltypes_view(molecule_types@), xdrfile.at())),
            decreases n_moltypes - i,
        {
            let ghost before = molecule_types@;
            match MoleculeType::parse(xdrfile, precision, tpr_version, symbol_table, ffparams) {
                Ok(mt) => {
                    proof {
                        let m = moltype_step(b, moltypes_step(b, q0, precision, tpr_version, symbols, types, i as int)->Ok_0.1, precision, tpr_version, symbols, types)->Ok_0.0;
                        lemma_matches_view(mt, m);
                    }
                    molecule_types.push(mt);
                    proof {
                        assert(moltypes_view(molecule_types@) =~= moltypes_view(before).push(mt_view(molecule_types@.last())));
                    }
                },
                Err(e) => {
                    proof {
                        lemma_moltypes_fail(b, q0, precision, tpr_version, symbols, types, i + 1, count_of(n_moltypes));
                    }
                    return Err(e);
                },
            }
            i = i + 1;
        }
        let ghost q1 = xdrfile.at();

        let n_molblocks = match xdrfile.read_i32() {
            Ok(n) => n,
            Err(e) => return Err(e),
        };
        let ghost q2 = xdrfile.at();
        let mut molecule_blocks: Vec<MolBlock> = Vec::new();
        proof {
            assert(blocks_view(molecule_blocks@) =~= seq![]);
        }
        let mut i: i32 = 0;
        while i < n_molblocks
            invariant
                xdrfile.bytes() == b,
                b == old(xdrfile).bytes(),
                p == old(xdrfile).at(),
                symbols == texts(symbol_table.symbols@),
                types == ffparams.interaction_types@,
                i32_step(b, p) == Ok::<(i32, int), ParseTprError>((n_moltypes, q0)),
                moltypes_step(b, q0, precision, tpr_version, symbols, types, count_of(n_moltypes)) == Ok::<
                    (Seq<MoleculeTypeModel>, int),
                    ParseTprError,
                >((moltypes_view(molecule_types@), q1)),
                i32_step(b, q1) == Ok::<(i32, int), ParseTprError>((n_molblocks, q2)),
                0 <= i,
                i <= n_molblocks || (i == 0 && n_molblocks < 0),
                blocks_step(b, q2, precision, i as int) == Ok::<(Seq<(i32, i32)>, int), ParseTprError>(
                    (blocks_view(molecule_blocks@), xdrfile.at()),
                ),
            decreases n_molblocks - i,
        {
            let ghost before = molecule_blocks@;
            match MolBlock::parse(xdrfile, precision) {
                Ok(block) => {
                    molecule_blocks.push(block);
                    proof {
                        assert(blocks_view(molecule_blocks@) =~= blocks_view(before).push(
                            (molecule_blocks@.last().molecule_type, molecule_blocks@.last().n_molecules),
                        ));
                    }
                },
                Err(e) => {
                    proof {
                        lemma_blocks_step_fail(b, q2, precision, i + 1, count_of(n_molblocks));
                    }
                    return Err(e);
                },
            }
            i = i + 1;
        }

        // the number of atoms, for a consistency check
        let n_atoms = match xdrfile.read_i32() {
            Ok(n) => n,
            Err(e) => return Err(e),
        };

        let has_intermolecular = match xdrfile.read_bool_body(tpr_version) {
            Ok(flag) => flag,
            Err(e) => return Err(e),
        };
        let ghost q5 = xdrfile.at();
        proof {
            lemma_no_intermolecular_block(b, q5, tpr_version, types);
            lemma_intermolecular_block(b, q5, tpr_version, types);
        }
        let intermolecular = if has_intermolecular {
            match read_interactions(xdrfile, tpr_version, ffparams) {
                Ok(list) => Some(list),
                Err(e) => return Err(e),
            }
        } else {
            None
        };
        let ghost q6 = xdrfile.at();
        proof {
            assert(topology_head_step(b, p, precision, tpr_version, symbols, types) == Ok::<
                (
                    (Seq<MoleculeTypeModel>, Seq<(i32, i32)>, i32, Option<Seq<(InteractionType, Seq<i32>)>>),
                    int,
                ),
                ParseTprError,
            >(
                (
                    (
                        moltypes_view(molecule_types@),
                        blocks_view(molecule_blocks@),
                        n_atoms,
                        inter_view(intermolecular),
                    ),
                    q6,
                ),
            ));
        }

        let topology = match TprTopology::construct_topology(molecule_blocks, molecule_types, intermolecular) {
            Ok(t) => t,
            Err(e) => return Err(e),
        };

        if n_atoms != expected_n_atoms {
            return Err(ParseTprError::InconsistentNumberOfAtoms(expected_n_atoms, n_atoms));
        }
        if n_atoms < 0 || n_atoms as usize != topology.atoms.len() {
            let got: i32 = if topology.atoms.len() > i32::MAX as usize {
                i32::MAX
            } else {
                topology.atoms.len() as i32
            };
            return Err(ParseTprError::InconsistentNumberOfAtoms(expected_n_atoms, got));
        }

        match Self::skip_trailer(xdrfile, precision, tpr_version) {
            Ok(()) => {},
            Err(e) => return Err(e),
        }
        Ok(topology)
    }

    /// Skip the records that follow the topology: atom types, dihedral
    /// correction maps, atom groups and (from version 120 on) the
    /// intermolecular exclusion group, whose size must not be negative.
    #[verifier::rlimit(40)]
    fn skip_trailer(xdrfile: &mut XdrFile, precision: Precision, tpr_version: i32) -> (r: Result<(), ParseTprError>)
        ensures
            final(xdrfile).bytes() == old(xdrfile).bytes(),
            outcome(r, final(xdrfile).at(), trailer_step(old(xdrfile).bytes(), old(xdrfile).at(), precision, tpr_version)),
    {
        reveal(atomtypes_step);
        reveal(cmap_step);
        reveal(exclusions_step);
        let ghost b = xdrfile.bytes();
        let ghost p = xdrfile.at();
        // atom types
        if tpr_version < 128 {
            let n_types = match xdrfile.read_i32() {
                Ok(n) => n,
                Err(e) => return Err(e),
            };
            if tpr_version < 113 {
                match xdrfile.skip_multiple_reals(precision, 5 * n_types as i64) {
                    Ok(()) => {},
                    Err(e) => return Err(e),
                }
            }
            match xdrfile.jump(4 * n_types as i64) {
                Ok(()) => {},
                Err(e) => return Err(e),
            }
        }
        let ghost q = xdrfile.at();
        assert(atomtypes_step(b, p, precision, tpr_version) == Ok::<((), int), ParseTprError>(((), q)));

        // dihedral correction maps
        let n_grids = match xdrfile.read_i32() {
            Ok(n) => n,
            Err(e) => return Err(e),
        };
        let grid_spacing = match xdrfile.read_i32() {
            Ok(n) => n,
            Err(e) => return Err(e),
        };
        let g = grid_spacing as i64;
        assert(0 <= g * g <= 0x4000_0000_0000_0000) by (nonlinear_arith)
            requires
                -0x8000_0000 <= g <= 0x7fff_ffff,
        ;
        let square: i64 = g * g;
        let n = n_grids as i128;
        let s = square as i128;
        assert(-0x8000_0000 * 0x4000_0000_0000_0000 <= n * s <= 0x7fff_ffff * 0x4000_0000_0000_0000) by (nonlinear_arith)
            requires
                -0x8000_0000 <= n <= 0x7fff_ffff,
                0 <= s <= 0x4000_0000_0000_0000,
        ;
        let cells: i128 = 4 * (n * s);
        if cells < 0 {
            return Err(ParseTprError::CouldNotRead(ReadError::NegativeSkip));
        }
        if cells > i64::MAX as i128 {
            return Err(ParseTprError::CouldNotRead(ReadError::UnexpectedEnd));
        }
        match xdrfile.skip_multiple_reals(precision, cells as i64) {
            Ok(()) => {},
            Err(e) => return Err(e),
        }
        let ghost q1 = xdrfile.at();
        assert(cmap_step(b, q, precision) == Ok::<((), int), ParseTprError>(((), q1)));

        // atom groups
        let mut k: usize = 0;
        while k < NR_GROUP_TYPES
            invariant
                xdrfile.bytes() == b,
                b == old(xdrfile).bytes(),
                p == old(xdrfile).at(),
                atomtypes_step(b, p, precision, tpr_version) == Ok::<((), int), ParseTprError>(((), q)),
                cmap_step(b, q, precision) == Ok::<((), int), ParseTprError>(((), q1)),
                k <= NR_GROUP_TYPES,
                groups_step(b, q1, k as int) == Ok::<((), int), ParseTprError>(((), xdrfile.at())),
            decreases NR_GROUP_TYPES - k,
        {
            let group_size = match xdrfile.read_i32() {
                Ok(n) => n,
                Err(e) => {
                    proof {
                        lemma_groups_fail(b, q1, k + 1, NR_GROUP_TYPES as int);
                    }
                    return Err(e);
                },
            };
            match xdrfile.jump(4 * group_size as i64) {
                Ok(()) => {},
                Err(e) => {
                    proof {
                        lemma_groups_fail(b, q1, k + 1, NR_GROUP_TYPES as int);
                    }
                    return Err(e);
                },
            }
            k = k + 1;
        }
        let ghost q2 = xdrfile.at();
        assert(groups_step(b, q2, 0) == Ok::<((), int), ParseTprError>(((), q2)));

        let n_group_names = match xdrfile.read_i32() {
            Ok(n) => n,
            Err(e) => {
                assert(groups_step(b, q2, 1) == Err::<((), int), ParseTprError>(e));
                return Err(e);
            },
        };
        match xdrfile.jump(4 * n_group_names as i64) {
            Ok(()) => {},
            Err(e) => {
                assert(groups_step(b, q2, 1) == Err::<((), int), ParseTprError>(e));
                return Err(e);
            },
        }
        let ghost q3 = xdrfile.at();
        assert(groups_step(b, q2, 1) == Ok::<((), int), ParseTprError>(((), q3)));

        let mut k: usize = 0;
        while k < NR_GROUP_TYPES
            invariant
                xdrfile.bytes() == b,
                b == old(xdrfile).bytes(),
                p == old(xdrfile).at(),
                atomtypes_step(b, p, precision, tpr_version) == Ok::<((), int), ParseTprError>(((), q)),
                cmap_step(b, q, precision) == Ok::<((), int), ParseTprError>(((), q1)),
                groups_step(b, q1, NR_GROUP_TYPES as int) == Ok::<((), int), ParseTprError>(((), q2)),
                groups_step(b, q2, 1) == Ok::<((), int), ParseTprError>(((), q3)),
                k <= NR_GROUP_TYPES,
                group_numbers_step(b, q3, tpr_version, k as int) == Ok::<((), int), ParseTprError>(
                    ((), xdrfile.at()),
                ),
            decreases NR_GROUP_TYPES - k,
        {
            let n_group_numbers = match xdrfile.read_i32() {
                Ok(n) => n,
                Err(e) => {
                    proof {
                        lemma_group_numbers_fail(b, q3, tpr_version, k + 1, NR_GROUP_TYPES as int);
                    }
                    return Err(e);
                },
            };
            match xdrfile.skip_multiple_uchars_body(tpr_version, n_group_numbers as i64) {
                Ok(()) => {},
                Err(e) => {
                    proof {
                        lemma_group_numbers_fail(b, q3, tpr_version, k + 1, NR_GROUP_TYPES as int);
                    }
                    return Err(e);
                },
            }
            k = k + 1;
        }

        // intermolecular exclusions
        if tpr_version >= 120 {
            let size = match xdrfile.read_i64() {
                Ok(n) => n,
                Err(e) => return Err(e),
            };
            if size < 0 {
                return Err(ParseTprError::InvalidIntermolecularExclusionGroupSize(size));
            }
            if size > i64::MAX / 4 {
                return Err(ParseTprError::CouldNotRead(ReadError::UnexpectedEnd));
            }
            match xdrfile.jump(4 * size) {
                Ok(()) => {},
                Err(e) => return Err(e),
            }
        }
        Ok(())
    }

    /// Construct the final topology from molecule blocks, molecule types and
    /// intermolecular interactions: the blocks are expanded in order, atoms
    /// and residues are numbered from 1, and the intermolecular interactions
    /// add their bonds, their atom indices being global.
    #[verifier::rlimit(60)]
    pub fn construct_topology(
        molecule_blocks: Vec<MolBlock>,
        molecule_types: Vec<MoleculeType>,
        intermolecular: Option<Vec<Interaction>>,
    ) -> (r: Result<TprTopology, ParseTprError>)
        ensures
            r matches Ok(t) ==> topology_ok(t) && bare(t.atoms@),
            match assemble(
                moltypes_view(molecule_types@),
                blocks_view(molecule_blocks@),
                inter_view(intermolecular),
            ) {
                Ok((atoms, bonds)) => r matches Ok(t) && atoms_view(t.atoms@) == atoms && t.bonds@ == bonds,
                Err(e) => r == Err::<TprTopology, ParseTprError>(e),
            },
    {
        let ghost ms = moltypes_view(molecule_types@);
        let ghost bs = blocks_view(molecule_blocks@);
        let mut atoms: Vec<Atom> = Vec::new();
        let mut bonds: Vec<Bond> = Vec::new();
        let mut atom_counter: i32 = 1;
        let mut residue_counter: i32 = 0;
        proof {
            assert(atoms_view(atoms@) =~= seq![]);
            assert(bonds@ =~= seq![]);
        }

        let mut i: usize = 0;
        while i < molecule_blocks.len()
            invariant
                i <= molecule_blocks@.len(),
                ms == moltypes_view(molecule_types@),
                bs == blocks_view(molecule_blocks@),
                blocks_model(ms, bs, i as int) == Ok::<(Seq<AtomModel>, Seq<Bond>, int, int), ParseTprError>(
                    (atoms_view(atoms@), bonds@, atom_counter as int, residue_counter as int),
                ),
                1 <= atom_counter,
                0 <= residue_counter < atom_counter,
                run_ok(atoms@, bonds@, 1, 0, atom_counter as int, residue_counter as int),
            decreases molecule_blocks@.len() - i,
        {
            let ghost ac1 = atom_counter as int;
            let ghost rc1 = residue_counter as int;
            proof {
                assert(bs[i as int] == (molecule_blocks@[i as int].molecule_type, molecule_blocks@[i as int].n_molecules));
                let t = molecule_blocks@[i as int].molecule_type;
                if 0 <= t < molecule_types@.len() {
                    assert(ms[t as int] == mt_view(molecule_types@[t as int]));
                }
            }
            let (mut new_atoms, mut new_bonds) = match molecule_blocks[i].unpack2molecules(
                molecule_types.as_slice(),
                &mut atom_counter,
                &mut residue_counter,
            ) {
                Ok(x) => x,
                Err(e) => {
                    proof {
                        lemma_blocks_fail(ms, bs, i + 1, bs.len() as int);
                    }
                    return Err(e);
                },
            };
            proof {
                crate::molblocks::lemma_atoms_view_append(atoms@, new_atoms@);
                crate::molblocks::lemma_join_runs(
                    atoms@,
                    bonds@,
                    new_atoms@,
                    new_bonds@,
                    1,
                    0,
                    ac1,
                    rc1,
                    atom_counter as int,
                    residue_counter as int,
                );
            }
            atoms.append(&mut new_atoms);
            bonds.append(&mut new_bonds);
            i = i + 1;
        }

        // convert intermolecular interactions to bonds
        let ghost n = atoms@.len() as int;
        proof {
            assert(bs.len() == molecule_blocks@.len());
            assert(atoms_view(atoms@).len() == atoms@.len());
            assert(consecutive(atoms@));
            if n == 0 {
                if intermolecular is Some {
                    crate::moltypes::lemma_bonds_of_no_atoms(model(intermolecular->Some_0@), base(atoms@), 0);
                }
            }
        }
        let ghost before = bonds@;
        let ghost iv = inter_view(intermolecular);
        match intermolecular {
            Some(inter) => {
                assert(iv == Some(model(inter@)));
                let mut k: usize = 0;
                while k < inter.len()
                    invariant
                        atoms@.len() == n,
                        numbered_from(atoms@, 1),
                        bare(atoms@),
                        consecutive(atoms@),
                        base(atoms@) == 0,
                        bonds_within(before, 0, n),
                        iv == Some(model(inter@)),
                        iv == inter_view(intermolecular),
                        ms == moltypes_view(molecule_types@),
                        bs == blocks_view(molecule_blocks@),
                        blocks_model(ms, bs, bs.len() as int) matches Ok((a, b, _, _)) && a == atoms_view(atoms@)
                            && b == before,
                        k <= inter@.len(),
                        bonds_of(model(inter@).take(k as int), 0, n) matches Ok(s) && bonds@ == before + s,
                    decreases inter@.len() - k,
                {
                    proof {
                        assert(model(inter@).take(k + 1).drop_last() =~= model(inter@).take(k as int));
                        assert(model(inter@).take(k + 1).last() == plain(inter@[k as int]));
                    }
                    match inter[k].push_bonds(atoms.as_slice(), &mut bonds) {
                        Ok(()) => {},
                        Err(e) => {
                            proof {
                                assert(bonds_of(model(inter@).take(k + 1), 0, n) == Err::<Seq<Bond>, ParseTprError>(e));
                                crate::moltypes::lemma_bonds_prefix(model(inter@), 0, n, k + 1);
                                assert(atoms_view(atoms@).len() == n);
                            }
                            return Err(e);
                        },
                    }
                    k = k + 1;
                }
                proof {
                    assert(model(inter@).take(k as int) =~= model(inter@));
                    let s = bonds_of(model(inter@), 0, n)->Ok_0;
                    lemma_bonds_within(model(inter@), 0, n);
                    assert(bonds@.subrange(bonds@.len() - s.len(), bonds@.len() as int) =~= s);
                    assert forall|j: int| 0 <= j < bonds@.len() implies (#[trigger] bonds@[j]).atom1 < n
                        && bonds@[j].atom2 < n by {
                        if j < before.len() {
                            assert(bonds@[j] == before[j]);
                        } else {
                            assert(bonds@[j] == s[j - before.len()]);
                        }
                    }
                }
            },
            None => {},
        }
        Ok(TprTopology { atoms, bonds })
    }

    /// Fill in positions, velocities and forces of the atoms from the
    /// coordinate blocks, index for index; an empty block leaves the atoms'
    /// values as they are.
    pub fn fill_with_coordinates(&mut self, coordinates: Coordinates)
        ensures
            final(self).bonds == old(self).bonds,
            final(self).atoms@.len() == old(self).atoms@.len(),
            forall|i: int|
                0 <= i < old(self).atoms@.len() ==> filled(
                    #[trigger] final(self).atoms@[i],
                    old(self).atoms@[i],
                    coordinates,
                    i,
                ),
    {
        let ghost initial = self.atoms@;
        let n_atoms = self.atoms.len();
        let ghost n = initial.len() as int;
        let mut source: Vec<Atom> = Vec::new();
        std::mem::swap(&mut self.atoms, &mut source);
        // first pass: the atoms in reverse order
        let mut reversed: Vec<Atom> = Vec::new();
        while source.len() > 0
            invariant
                n == initial.len(),
                source@ == initial.take(source@.len() as int),
                reversed@.len() == n - source@.len(),
                forall|k: int| 0 <= k < reversed@.len() ==> #[trigger] reversed@[k] == initial[n - 1 - k],
            decreases source@.len(),
        {
            let atom = source.pop().unwrap();
            reversed.push(atom);
            assert(source@ =~= initial.take(source@.len() as int));
        }
        // second pass: back in order, with the coordinates filled in
        let mut atoms: Vec<Atom> = Vec::new();
        let mut i: usize = 0;
        while reversed.len() > 0
            invariant
                n == initial.len(),
                n == n_atoms,
                i == n - reversed@.len(),
                atoms@.len() == i,
                forall|k: int| 0 <= k < reversed@.len() ==> #[trigger] reversed@[k] == initial[n - 1 - k],
                forall|k: int| 0 <= k < i ==> filled(#[trigger] atoms@[k], initial[k], coordinates, k),
            decreases reversed@.len(),
        {
            let mut atom = reversed.pop().unwrap();
            assert(atom == initial[i as int]);
            if i < coordinates.positions.len() {
                atom.position = Some(coordinates.positions[i]);
            }
            if i < coordinates.velocities.len() {
                atom.velocity = Some(coordinates.velocities[i]);
            }
            if i < coordinates.forces.len() {
                atom.force = Some(coordinates.forces[i]);
            }
            atoms.push(atom);
            i = i + 1;
        }
        self.atoms = atoms;
    }
}

} // verus!
