//! Molecule types: the atoms, residues and interactions of one species, and
//! their expansion into numbered atoms and bonds.

use vstd::prelude::*;

use crate::elements::{element_for, from_atom_number};
use crate::errors::{eof, ParseTprError};
use crate::ffparams::{FFParams, InteractionType, N_KINDS};
use crate::interactions::{base, bonds_of, consecutive, kinds_step, model, plain, read_interactions, Interaction};
use crate::structures::{Atom, Bond, Precision, Real};
use crate::symtab::{lemma_symbols_fail, symbol_step, symbols_step, texts, SymTable};
use crate::xdr::{be_i32, count_of, i32_step, real_at, real_width, skip_step, uchar_step, ushort_width, Step, XdrFile};

verus! {

/// Structure representing Molecule Type.
pub struct MoleculeType {
    pub atoms: Vec<MoleculeTypeAtom>,
    pub residues: Vec<MoleculeTypeResidue>,
    pub interactions: Vec<Interaction>,
}

/// Structure representing an atom of a Molecule Type.
pub struct MoleculeTypeAtom {
    pub name: String,
    pub mass: Real,
    pub charge: Real,
    pub residue_index: i32,
    pub element: Option<mendeleev::Element>,
}

/// Structure representing a residue of a Molecule Type.
pub struct MoleculeTypeResidue {
    pub name: String,
    pub number: i32,
}

/// Every atom of the molecule type refers to one of its residues.
pub open spec fn residues_valid(mt: MoleculeType) -> bool {
    forall|j: int|
        0 <= j < mt.atoms@.len() ==> 0 <= #[trigger] mt.atoms@[j].residue_index < mt.residues@.len()
}

/// The residue number (as stored in the molecule type) of atom `j`.
pub open spec fn local_residue(mt: MoleculeType, j: int) -> i32 {
    mt.residues@[mt.atoms@[j].residue_index as int].number
}

/// Does atom `j` open a residue: it is the first atom, or its residue number
/// differs from that of the atom before it.
pub open spec fn opens_residue(mt: MoleculeType, j: int) -> bool {
    j == 0 || local_residue(mt, j) != local_residue(mt, j - 1)
}

/// Number of atoms among the first `n` that open a residue.
pub open spec fn residue_advances(mt: MoleculeType, n: int) -> int
    decreases n,
{
    if n <= 0 {
        0
    } else {
        residue_advances(mt, n - 1) + if opens_residue(mt, n - 1) {
            1int
        } else {
            0int
        }
    }
}

/// `a` is atom `j` of the molecule type, with the given atom and residue numbers.
pub open spec fn expanded_atom(a: Atom, mt: MoleculeType, j: int, number: int, residue_number: int) -> bool {
    let m = mt.atoms@[j];
    &&& a.atom_number == number
    &&& a.residue_number == residue_number
    &&& a.atom_name@ == m.name@
    &&& a.residue_name@ == mt.residues@[m.residue_index as int].name@
    &&& a.mass == m.mass
    &&& a.charge == m.charge
    &&& a.element == m.element
    &&& a.position is None
    &&& a.velocity is None
    &&& a.force is None
}

/// An atom as plain values.
pub struct AtomModel {
    pub atom_name: Seq<char>,
    pub atom_number: int,
    pub residue_name: Seq<char>,
    pub residue_number: int,
    pub mass: Real,
    pub charge: Real,
    pub element: Option<mendeleev::Element>,
    pub position: Option<[Real; 3]>,
    pub velocity: Option<[Real; 3]>,
    pub force: Option<[Real; 3]>,
}

/// The plain values of an atom.
pub open spec fn atom_view(a: Atom) -> AtomModel {
    AtomModel {
        atom_name: a.atom_name@,
        atom_number: a.atom_number as int,
        residue_name: a.residue_name@,
        residue_number: a.residue_number as int,
        mass: a.mass,
        charge: a.charge,
        element: a.element,
        position: a.position,
        velocity: a.velocity,
        force: a.force,
    }
}

/// The plain values of atoms.
pub open spec fn atoms_view(atoms: Seq<Atom>) -> Seq<AtomModel> {
    atoms.map_values(|a: Atom| atom_view(a))
}

/// Every atom of the modelled molecule type refers to one of its residues.
pub open spec fn valid_model(m: MoleculeTypeModel) -> bool {
    forall|j: int| 0 <= j < m.records.len() ==> 0 <= #[trigger] m.records[j].2 < m.residues.len()
}

/// The residue number (as stored in the molecule type) of atom `j`.
pub open spec fn model_residue(m: MoleculeTypeModel, j: int) -> i32 {
    m.residues[m.records[j].2 as int].1
}

/// Number of atoms among the first `n` that open a residue: the first atom,
/// and each atom whose residue number differs from the atom before it.
pub open spec fn model_advances(m: MoleculeTypeModel, n: int) -> int
    decreases n,
{
    if n <= 0 {
        0
    } else {
        model_advances(m, n - 1) + if n - 1 == 0 || model_residue(m, n - 1) != model_residue(m, n - 2) {
            1int
        } else {
            0int
        }
    }
}

/// Atom `j` of the modelled molecule type, numbered from the counters
/// `ac` (next atom number) and `rc` (last residue number).
pub open spec fn molecule_atom(m: MoleculeTypeModel, j: int, ac: int, rc: int) -> AtomModel {
    AtomModel {
        atom_name: m.names[j],
        atom_number: ac + j,
        residue_name: m.residues[m.records[j].2 as int].0,
        residue_number: rc + model_advances(m, j + 1),
        mass: m.records[j].0,
        charge: m.records[j].1,
        element: m.records[j].3,
        position: None,
        velocity: None,
        force: None,
    }
}

/// The atoms of one molecule of the modelled type.
pub open spec fn molecule_model(m: MoleculeTypeModel, ac: int, rc: int) -> Seq<AtomModel> {
    Seq::new(m.records.len(), |j: int| molecule_atom(m, j, ac, rc))
}

/// A molecule type as plain values.
pub open spec fn mt_view(mt: MoleculeType) -> MoleculeTypeModel {
    MoleculeTypeModel {
        records: mt.atoms@.map_values(
            |a: MoleculeTypeAtom| (a.mass, a.charge, a.residue_index, a.element),
        ),
        names: mt.atoms@.map_values(|a: MoleculeTypeAtom| a.name@),
        residues: residue_model(mt.residues@),
        interactions: model(mt.interactions@),
    }
}

/// A molecule type that matches a model has that model as its view.
pub proof fn lemma_matches_view(mt: MoleculeType, m: MoleculeTypeModel)
    requires
        moltype_matches(mt, m),
    ensures
        mt_view(mt) == m,
{
    let v = mt_view(mt);
    assert forall|j: int| 0 <= j < m.records.len() implies v.records[j] == m.records[j] && v.names[j] == m.names[j] by {
        assert(holds_record(mt.atoms@[j], m.records[j], m.names[j]));
    }
    assert(v.records =~= m.records);
    assert(v.names =~= m.names);
}

/// The view of a molecule type is valid exactly when the type is.
pub proof fn lemma_view_valid(mt: MoleculeType)
    ensures
        residues_valid(mt) == valid_model(mt_view(mt)),
{
    let v = mt_view(mt);
    if residues_valid(mt) {
        assert forall|j: int| 0 <= j < v.records.len() implies 0 <= #[trigger] v.records[j].2 < v.residues.len() by {
            assert(0 <= mt.atoms@[j].residue_index < mt.residues@.len());
        }
    }
    if valid_model(v) {
        assert forall|j: int| 0 <= j < mt.atoms@.len() implies 0 <= #[trigger] mt.atoms@[j].residue_index
            < mt.residues@.len() by {
            assert(0 <= v.records[j].2 < v.residues.len());
        }
    }
}

/// Residue counting agrees between a valid molecule type and its view.
pub proof fn lemma_view_advances(mt: MoleculeType, n: int)
    requires
        residues_valid(mt),
        n <= mt.atoms@.len(),
    ensures
        residue_advances(mt, n) == model_advances(mt_view(mt), n),
    decreases n,
{
    if n > 0 {
        lemma_view_advances(mt, n - 1);
        let v = mt_view(mt);
        assert(local_residue(mt, n - 1) == model_residue(v, n - 1));
        if n >= 2 {
            assert(local_residue(mt, n - 2) == model_residue(v, n - 2));
        }
    }
}

/// Expanded atoms, as plain values, are the model's molecule.
pub proof fn lemma_expanded_view(mt: MoleculeType, atoms: Seq<Atom>, ac: int, rc: int)
    requires
        residues_valid(mt),
        atoms.len() == mt.atoms@.len(),
        forall|j: int|
            0 <= j < atoms.len() ==> expanded_atom(
                #[trigger] atoms[j],
                mt,
                j,
                ac + j,
                rc + residue_advances(mt, j + 1),
            ),
    ensures
        atoms_view(atoms) == molecule_model(mt_view(mt), ac, rc),
        residue_advances(mt, atoms.len() as int) == model_advances(mt_view(mt), atoms.len() as int),
{
    let v = mt_view(mt);
    assert forall|j: int| 0 <= j < atoms.len() implies #[trigger] atoms_view(atoms)[j] == molecule_model(v, ac, rc)[j] by {
        assert(expanded_atom(atoms[j], mt, j, ac + j, rc + residue_advances(mt, j + 1)));
        lemma_view_advances(mt, j + 1);
    }
    assert(atoms_view(atoms) =~= molecule_model(v, ac, rc));
    lemma_view_advances(mt, atoms.len() as int);
}

/// No atom has a position, a velocity or a force yet.
pub open spec fn bare(atoms: Seq<Atom>) -> bool {
    forall|i: int|
        0 <= i < atoms.len() ==> (#[trigger] atoms[i]).position is None && atoms[i].velocity is None
            && atoms[i].force is None
}

/// The atoms are numbered `start`, `start + 1`, ... in order.
pub open spec fn numbered_from(atoms: Seq<Atom>, start: int) -> bool {
    forall|i: int| 0 <= i < atoms.len() ==> #[trigger] atoms[i].atom_number == start + i
}

/// Residue numbers continue a count that stood at `start` and end at `end`:
/// the first atom opens residue `start + 1`, and each further atom stays in
/// the residue of the atom before it or opens the next one.
pub open spec fn residues_step(atoms: Seq<Atom>, start: int, end: int) -> bool {
    &&& atoms.len() == 0 ==> end == start
    &&& atoms.len() > 0 ==> atoms[0].residue_number == start + 1 && atoms.last().residue_number == end
    &&& forall|i: int|
        0 < i < atoms.len() ==> #[trigger] atoms[i].residue_number == atoms[i - 1].residue_number
            || atoms[i].residue_number == atoms[i - 1].residue_number + 1
}

pub proof fn lemma_advances_bound(mt: MoleculeType, n: int)
    requires
        n >= 0,
    ensures
        0 <= residue_advances(mt, n) <= n,
        n > 0 ==> residue_advances(mt, n) >= 1,
    decreases n,
{
    if n > 0 {
        lemma_advances_bound(mt, n - 1);
    }
}

/// Joining two runs of atoms keeps the numbering and the residue steps.
pub proof fn lemma_join(a: Seq<Atom>, b: Seq<Atom>, start: int, s0: int, s1: int, s2: int)
    requires
        numbered_from(a, start),
        numbered_from(b, start + a.len()),
        residues_step(a, s0, s1),
        residues_step(b, s1, s2),
        bare(a),
        bare(b),
    ensures
        numbered_from(a + b, start),
        residues_step(a + b, s0, s2),
        bare(a + b),
{
    let c = a + b;
    assert forall|i: int| 0 <= i < c.len() implies (#[trigger] c[i]).position is None && c[i].velocity is None
        && c[i].force is None by {
        if i < a.len() {
            assert(c[i] == a[i]);
        } else {
            assert(c[i] == b[i - a.len()]);
        }
    }
    assert forall|i: int| 0 <= i < c.len() implies #[trigger] c[i].atom_number == start + i by {
        if i < a.len() {
            assert(c[i] == a[i]);
        } else {
            assert(c[i] == b[i - a.len()]);
        }
    }
    assert forall|i: int| 0 < i < c.len() implies #[trigger] c[i].residue_number == c[i - 1].residue_number
        || c[i].residue_number == c[i - 1].residue_number + 1 by {
        if i < a.len() {
            assert(c[i] == a[i]);
            assert(c[i - 1] == a[i - 1]);
        } else if i == a.len() {
            assert(c[i] == b[0]);
            assert(c[i - 1] == a.last());
        } else {
            assert(c[i] == b[i - a.len()]);
            assert(c[i - 1] == b[i - 1 - a.len()]);
        }
    }
    if c.len() > 0 {
        if a.len() > 0 {
            assert(c[0] == a[0]);
        } else {
            assert(c[0] == b[0]);
        }
        if b.len() > 0 {
            assert(c.last() == b.last());
        } else {
            assert(c.last() == a.last());
        }
    }
}

/// With no atoms to refer to, the offset plays no part in the bonds.
pub proof fn lemma_bonds_of_no_atoms(its: Seq<(InteractionType, Seq<i32>)>, o1: int, o2: int)
    ensures
        bonds_of(its, o1, 0) == bonds_of(its, o2, 0),
    decreases its.len(),
{
    if its.len() > 0 {
        lemma_bonds_of_no_atoms(its.drop_last(), o1, o2);
    }
}

/// Bytes of one atom record.
pub open spec fn record_size(precision: Precision, version: i32) -> int {
    4 * real_width(precision) + 2 * ushort_width(version) + 12
}

/// The fields of the atom record at `p` that are kept: mass, charge,
/// residue index and atomic number.
pub open spec fn record_at(b: Seq<u8>, p: int, precision: Precision, version: i32) -> (
    Real,
    Real,
    i32,
    Option<mendeleev::Element>,
) {
    let q = p + 4 * real_width(precision) + 2 * ushort_width(version) + 4;
    (
        real_at(b, p, precision),
        real_at(b, p + real_width(precision), precision),
        be_i32(b, q) as i32,
        element_for(be_i32(b, q + 4) as i32),
    )
}

/// `a` holds the atom record `r` and the name `name`.
pub open spec fn holds_record(a: MoleculeTypeAtom, r: (Real, Real, i32, Option<mendeleev::Element>), name: Seq<char>) -> bool {
    &&& a.mass == r.0
    &&& a.charge == r.1
    &&& a.residue_index == r.2
    &&& a.element == r.3
    &&& a.name@ == name
}

/// `n` consecutive residue records at `p`.
pub open spec fn residue_records_step(b: Seq<u8>, p: int, version: i32, symbols: Seq<Seq<char>>, n: int) -> Step<
    Seq<(Seq<char>, i32)>,
>
    decreases n,
{
    if n <= 0 {
        Ok((seq![], p))
    } else {
        match residue_records_step(b, p, version, symbols, n - 1) {
            Ok((rs, q)) => match residue_step(b, q, version, symbols) {
                Ok((x, e)) => Ok((rs.push(x), e)),
                Err(e) => Err(e),
            },
            Err(e) => Err(e),
        }
    }
}

pub proof fn lemma_residues_fail(b: Seq<u8>, p: int, version: i32, symbols: Seq<Seq<char>>, k: int, n: int)
    requires
        0 <= k <= n,
        residue_records_step(b, p, version, symbols, k) is Err,
    ensures
        residue_records_step(b, p, version, symbols, n) == residue_records_step(b, p, version, symbols, k),
    decreases n - k,
{
    if k < n {
        lemma_residues_fail(b, p, version, symbols, k, n - 1);
    }
}

/// The residues as plain values: name and number.
pub open spec fn residue_model(rs: Seq<MoleculeTypeResidue>) -> Seq<(Seq<char>, i32)> {
    rs.map_values(|r: MoleculeTypeResidue| (r.name@, r.number))
}

/// The block indices and exclusions that close a molecule type (skipped).
pub open spec fn tail_step(b: Seq<u8>, p: int) -> Step<()> {
    match i32_step(b, p) {
        Err(e) => Err(e),
        Ok((n_blocks, q)) => match skip_step(b, q, 4 * (n_blocks + 1)) {
            Err(e) => Err(e),
            Ok((_, q1)) => match i32_step(b, q1) {
                Err(e) => Err(e),
                Ok((n_exclusions, q2)) => match i32_step(b, q2) {
                    Err(e) => Err(e),
                    Ok((n_excluded, q3)) => match skip_step(b, q3, 4 * n_exclusions + 4) {
                        Err(e) => Err(e),
                        Ok((_, q4)) => skip_step(b, q4, 4 * n_excluded),
                    },
                },
            },
        },
    }
}

/// A molecule type as plain values: atom records, atom names, residues and
/// interactions.
pub struct MoleculeTypeModel {
    pub records: Seq<(Real, Real, i32, Option<mendeleev::Element>)>,
    pub names: Seq<Seq<char>>,
    pub residues: Seq<(Seq<char>, i32)>,
    pub interactions: Seq<(InteractionType, Seq<i32>)>,
}

/// `mt` is the molecule type that the model describes.
pub open spec fn moltype_matches(mt: MoleculeType, m: MoleculeTypeModel) -> bool {
    &&& mt.atoms@.len() == m.records.len()
    &&& m.names.len() == m.records.len()
    &&& forall|j: int|
        0 <= j < mt.atoms@.len() ==> holds_record(#[trigger] mt.atoms@[j], m.records[j], m.names[j])
    &&& residue_model(mt.residues@) == m.residues
    &&& model(mt.interactions@) == m.interactions
}

/// The start of a molecule type at `p`: a valid name index, then the
/// numbers of atoms and residues.
pub open spec fn moltype_head(b: Seq<u8>, p: int, symbols: Seq<Seq<char>>, n_atoms: i32, n_residues: i32) -> bool {
    &&& symbol_step(b, p, symbols) matches Ok((_, e)) && e == p + 4
    &&& i32_step(b, p + 4) == Ok::<(i32, int), ParseTprError>((n_atoms, p + 8))
    &&& i32_step(b, p + 8) == Ok::<(i32, int), ParseTprError>((n_residues, p + 12))
}

/// The molecule type at `p`: its name (a symbol, checked and dropped), the
/// numbers of atoms and residues, the atom records, the atom names, the
/// names and B-state names of the atom types (checked and dropped), the
/// residues, the interactions, and the block indices and exclusions.
#[verifier::opaque]
pub open spec fn moltype_step(
    b: Seq<u8>,
    p: int,
    precision: Precision,
    version: i32,
    symbols: Seq<Seq<char>>,
    types: Seq<InteractionType>,
) -> Step<MoleculeTypeModel> {
    match symbol_step(b, p, symbols) {
        Err(e) => Err(e),
        Ok((_, q)) => match i32_step(b, q) {
            Err(e) => Err(e),
            Ok((n_atoms, q1)) => match i32_step(b, q1) {
                Err(e) => Err(e),
                Ok((n_residues, q2)) => {
                    let n = count_of(n_atoms);
                    let size = record_size(precision, version);
                    if q2 + n * size > b.len() {
                        Err(eof())
                    } else {
                        let records = Seq::new(n as nat, |j: int| record_at(b, q2 + j * size, precision, version));
                        match symbols_step(b, q2 + n * size, symbols, n) {
                            Err(e) => Err(e),
                            Ok((names, q3)) => match symbols_step(b, q3, symbols, 2 * n) {
                                Err(e) => Err(e),
                                Ok((_, q4)) => match residue_records_step(b, q4, version, symbols, count_of(n_residues)) {
                                    Err(e) => Err(e),
                                    Ok((residues, q5)) => match kinds_step(b, q5, version, types, N_KINDS as int) {
                                        Err(e) => Err(e),
                                        Ok((interactions, q6)) => match tail_step(b, q6) {
                                            Err(e) => Err(e),
                                            Ok((_, q7)) => Ok(
                                                (
                                                    MoleculeTypeModel { records, names, residues, interactions },
                                                    q7,
                                                ),
                                            ),
                                        },
                                    },
                                },
                            },
                        }
                    }
                },
            },
        },
    }
}

impl MoleculeType {
    /// Get `MoleculeType` from `XdrFile`.
    #[verifier::rlimit(60)]
    pub fn parse(
        xdrfile: &mut XdrFile,
        precision: Precision,
        tpr_version: i32,
        symbol_table: &SymTable,
        ffparams: &FFParams,
    ) -> (r: Result<Self, ParseTprError>)
        ensures
            final(xdrfile).bytes() == old(xdrfile).bytes(),
            match moltype_step(
                old(xdrfile).bytes(),
                old(xdrfile).at(),
                precision,
                tpr_version,
                texts(symbol_table.symbols@),
                ffparams.interaction_types@,
            ) {
                Ok((m, e)) => (r matches Ok(mt) && moltype_matches(mt, m)) && final(xdrfile).at() == e,
                Err(e) => r == Err::<Self, ParseTprError>(e),
            },
    {
        reveal(moltype_step);
        let ghost b = xdrfile.bytes();
        let ghost p = xdrfile.at();
        let ghost symbols = texts(symbol_table.symbols@);
        // the name of the molecule type is not needed
        match symbol_table.symstring(xdrfile) {
            Ok(_) => {},
            Err(e) => return Err(e),
        }
        let n_atoms = match xdrfile.read_i32() {
            Ok(n) => n,
            Err(e) => return Err(e),
        };
        let n_residues = match xdrfile.read_i32() {
            Ok(n) => n,
            Err(e) => return Err(e),
        };
        let ghost q2 = xdrfile.at();
        let ghost n = count_of(n_atoms);
        let ghost size = record_size(precision, tpr_version);

        // atom records, with their names still to come
        let mut records: Vec<MoleculeTypeAtom> = Vec::new();
        let mut i: i32 = 0;
        while i < n_atoms
            invariant
                xdrfile.bytes() == b,
                b == old(xdrfile).bytes(),
                p == old(xdrfile).at(),
                symbols == texts(symbol_table.symbols@),
                moltype_head(b, p, symbols, n_atoms, n_residues),
                q2 == p + 12,
                n == count_of(n_atoms),
                size == record_size(precision, tpr_version),
                size >= 0,
                0 <= i,
                i <= n_atoms || (i == 0 && n_atoms < 0),
                records@.len() == i,
                xdrfile.at() == q2 + i * size,
                q2 + i * size <= b.len(),
                forall|j: int|
                    0 <= j < i ==> holds_record(
                        #[trigger] records@[j],
                        record_at(b, q2 + j * size, precision, tpr_version),
                        records@[j].name@,
                    ),
            decreases n_atoms - i,
        {
            reveal(moltype_step);
            proof {
                assert((i + 1) * size == i * size + size) by (nonlinear_arith);
                assert((i + 1) * size <= n * size) by (nonlinear_arith)
                    requires
                        i + 1 <= n,
                        size >= 0,
                ;
            }
            match MoleculeTypeAtom::parse(xdrfile, precision, tpr_version) {
                Ok(a) => records.push(a),
                Err(e) => return Err(e),
            }
            i = i + 1;
        }
        let ghost q3 = xdrfile.at();
        let ghost recs = Seq::new(n as nat, |j: int| record_at(b, q2 + j * size, precision, tpr_version));

        // atom names, in a second pass over the atoms
        let mut atoms: Vec<MoleculeTypeAtom> = Vec::new();
        let mut k: usize = 0;
        while k < records.len()
            invariant
                xdrfile.bytes() == b,
                b == old(xdrfile).bytes(),
                p == old(xdrfile).at(),
                symbols == texts(symbol_table.symbols@),
                moltype_head(b, p, symbols, n_atoms, n_residues),
                q2 == p + 12,
                n == count_of(n_atoms),
                size == record_size(precision, tpr_version),
                q2 + n * size <= b.len(),
                q3 == q2 + n * size,
                records@.len() == n,
                recs == Seq::new(n as nat, |j: int| record_at(b, q2 + j * size, precision, tpr_version)),
                forall|j: int|
                    0 <= j < n ==> holds_record(
                        #[trigger] records@[j],
                        record_at(b, q2 + j * size, precision, tpr_version),
                        records@[j].name@,
                    ),
                k <= records@.len(),
                atoms@.len() == k,
                symbols_step(b, q3, symbols, k as int) matches Ok((names, e)) && xdrfile.at() == e && names.len()
                    == k && forall|j: int| 0 <= j < k ==> holds_record(#[trigger] atoms@[j], recs[j], names[j]),
            decreases records@.len() - k,
        {
            reveal(moltype_step);
            let ghost names = symbols_step(b, q3, symbols, k as int)->Ok_0.0;
            let name = match symbol_table.symstring(xdrfile) {
                Ok(s) => s,
                Err(e) => {
                    proof {
                        lemma_symbols_fail(b, q3, symbols, k + 1, n);
                    }
                    return Err(e);
                },
            };
            let ghost text = name@;
            let rec = &records[k];
            atoms.push(
                MoleculeTypeAtom {
                    name,
                    mass: rec.mass,
                    charge: rec.charge,
                    residue_index: rec.residue_index,
                    element: rec.element,
                },
            );
            proof {
                let names1 = names.push(text);
                assert(symbols_step(b, q3, symbols, k + 1) matches Ok((ns, e)) && ns == names1);
                assert forall|j: int| 0 <= j < k + 1 implies holds_record(#[trigger] atoms@[j], recs[j], names1[j]) by {
                    if j < k {
                        assert(names1[j] == names[j]);
                    }
                }
            }
            k = k + 1;
        }
        let ghost q4 = xdrfile.at();
        let ghost names = symbols_step(b, q3, symbols, n)->Ok_0.0;

        // names and B-state names of the atom types are not needed
        let mut k: usize = 0;
        while k < atoms.len()
            invariant
                xdrfile.bytes() == b,
                b == old(xdrfile).bytes(),
                p == old(xdrfile).at(),
                symbols == texts(symbol_table.symbols@),
                moltype_head(b, p, symbols, n_atoms, n_residues),
                q2 == p + 12,
                n == count_of(n_atoms),
                size == record_size(precision, tpr_version),
                q2 + n * size <= b.len(),
                q3 == q2 + n * size,
                symbols_step(b, q3, symbols, n) == Ok::<(Seq<Seq<char>>, int), ParseTprError>((names, q4)),
                atoms@.len() == n,
                k <= atoms@.len(),
                symbols_step(b, q4, symbols, 2 * k) matches Ok((_, e)) && xdrfile.at() == e,
            decreases atoms@.len() - k,
        {
            reveal(moltype_step);
            match symbol_table.symstring(xdrfile) {
                Ok(_) => {},
                Err(e) => {
                    proof {
                        lemma_symbols_fail(b, q4, symbols, 2 * k + 1, 2 * n);
                    }
                    return Err(e);
                },
            }
            match symbol_table.symstring(xdrfile) {
                Ok(_) => {},
                Err(e) => {
                    proof {
                        lemma_symbols_fail(b, q4, symbols, 2 * k + 2, 2 * n);
                    }
                    return Err(e);
                },
            }
            k = k + 1;
        }
        let ghost q5 = xdrfile.at();

        let mut residues: Vec<MoleculeTypeResidue> = Vec::new();
        proof {
            assert(residue_model(residues@) =~= seq![]);
        }
        let mut i: i32 = 0;
        while i < n_residues
            invariant
                xdrfile.bytes() == b,
                b == old(xdrfile).bytes(),
                p == old(xdrfile).at(),
                symbols == texts(symbol_table.symbols@),
                moltype_head(b, p, symbols, n_atoms, n_residues),
                q2 == p + 12,
                n == count_of(n_atoms),
                size == record_size(precision, tpr_version),
                q2 + n * size <= b.len(),
                q3 == q2 + n * size,
                symbols_step(b, q3, symbols, n) == Ok::<(Seq<Seq<char>>, int), ParseTprError>((names, q4)),
                symbols_step(b, q4, symbols, 2 * n) matches Ok((_, e)) && e == q5,
                0 <= i,
                i <= n_residues || (i == 0 && n_residues < 0),
                residue_records_step(b, q5, tpr_version, symbols, i as int) matches Ok((rs, e)) && xdrfile.at() == e
                    && residue_model(residues@) == rs,
            decreases n_residues - i,
        {
            reveal(moltype_step);
            let ghost before = residues@;
            match MoleculeTypeResidue::parse(xdrfile, tpr_version, symbol_table) {
                Ok(res) => residues.push(res),
                Err(e) => {
                    proof {
                        lemma_residues_fail(b, q5, tpr_version, symbols, i + 1, count_of(n_residues));
                    }
                    return Err(e);
                },
            }
            proof {
                assert(residue_model(residues@) =~= residue_model(before).push(
                    (residues@.last().name@, residues@.last().number),
                ));
            }
            i = i + 1;
        }

        let interactions = match read_interactions(xdrfile, tpr_version, ffparams) {
            Ok(list) => list,
            Err(e) => return Err(e),
        };

        // block indices are not needed
        let n_blocks = match xdrfile.read_i32() {
            Ok(n) => n,
            Err(e) => return Err(e),
        };
        match xdrfile.jump(4 * (n_blocks as i64 + 1)) {
            Ok(()) => {},
            Err(e) => return Err(e),
        }

        // exclusions are not needed
        let n_exclusions = match xdrfile.read_i32() {
            Ok(n) => n,
            Err(e) => return Err(e),
        };
        let n_excluded = match xdrfile.read_i32() {
            Ok(n) => n,
            Err(e) => return Err(e),
        };
        match xdrfile.jump(4 * n_exclusions as i64 + 4) {
            Ok(()) => {},
            Err(e) => return Err(e),
        }
        match xdrfile.jump(4 * n_excluded as i64) {
            Ok(()) => {},
            Err(e) => return Err(e),
        }
        let mt = MoleculeType { atoms, residues, interactions };
        proof {
            assert(recs.len() == n);
        }
        Ok(mt)
    }

    /// Unpack `MoleculeType` to a molecule: its atoms, numbered on from the
    /// counters, and its bonds.
    pub fn unpack2molecule(&self, atom_counter: &mut i32, residue_counter: &mut i32) -> (r: Result<
        (Vec<Atom>, Vec<Bond>),
        ParseTprError,
    >)
        requires
            1 <= *old(atom_counter),
            0 <= *old(residue_counter),
            *old(atom_counter) + self.atoms@.len() <= i32::MAX,
            *old(residue_counter) + self.atoms@.len() <= i32::MAX,
        ensures
            !residues_valid(*self) ==> r == Err::<(Vec<Atom>, Vec<Bond>), ParseTprError>(
                ParseTprError::CouldNotConstructTopology,
            ),
            residues_valid(*self) ==> match bonds_of(
                model(self.interactions@),
                *old(atom_counter) - 1,
                self.atoms@.len() as int,
            ) {
                Ok(s) => {
                    &&& r matches Ok((atoms, bonds))
                    &&& atoms@.len() == self.atoms@.len()
                    &&& forall|j: int|
                        0 <= j < atoms@.len() ==> expanded_atom(
                            #[trigger] atoms@[j],
                            *self,
                            j,
                            *old(atom_counter) + j,
                            *old(residue_counter) + residue_advances(*self, j + 1),
                        )
                    &&& bonds@ == s
                    &&& *final(atom_counter) == *old(atom_counter) + self.atoms@.len()
                    &&& *final(residue_counter) == *old(residue_counter) + residue_advances(
                        *self,
                        self.atoms@.len() as int,
                    )
                },
                Err(e) => r == Err::<(Vec<Atom>, Vec<Bond>), ParseTprError>(e),
            },
    {
        let ghost ac0 = *atom_counter;
        let ghost rc0 = *residue_counter;
        let n = self.atoms.len();
        let mut atoms: Vec<Atom> = Vec::new();
        let mut previous_residue_number: Option<i32> = None;
        let mut j: usize = 0;
        while j < n
            invariant
                n == self.atoms@.len(),
                ac0 == *old(atom_counter),
                rc0 == *old(residue_counter),
                1 <= ac0,
                0 <= rc0,
                ac0 + n <= i32::MAX,
                rc0 + n <= i32::MAX,
                j <= n,
                atoms@.len() == j,
                *atom_counter == ac0 + j,
                *residue_counter == rc0 + residue_advances(*self, j as int),
                forall|m: int| 0 <= m < j ==> 0 <= #[trigger] self.atoms@[m].residue_index < self.residues@.len(),
                j == 0 ==> previous_residue_number is None,
                j > 0 ==> previous_residue_number == Some(local_residue(*self, j - 1)),
                forall|m: int|
                    0 <= m < j ==> expanded_atom(
                        #[trigger] atoms@[m],
                        *self,
                        m,
                        ac0 + m,
                        rc0 + residue_advances(*self, m + 1),
                    ),
            decreases n - j,
        {
            proof {
                lemma_advances_bound(*self, j as int);
            }
            let atom = match self.atoms[j].convert2atom(
                self.residues.as_slice(),
                atom_counter,
                residue_counter,
                &mut previous_residue_number,
            ) {
                Ok(a) => a,
                Err(e) => return Err(e),
            };
            atoms.push(atom);
            j = j + 1;
        }
        proof {
            lemma_advances_bound(*self, n as int);
            assert(residues_valid(*self));
            assert(consecutive(atoms@));
            if n > 0 {
                assert(base(atoms@) == ac0 - 1);
            } else {
                lemma_bonds_of_no_atoms(model(self.interactions@), ac0 - 1, 0);
            }
        }
        let ghost its = model(self.interactions@);
        let mut bonds: Vec<Bond> = Vec::new();
        let mut k: usize = 0;
        while k < self.interactions.len()
            invariant
                n == self.atoms@.len(),
                atoms@.len() == n,
                ac0 == *old(atom_counter),
                residues_valid(*self),
                consecutive(atoms@),
                bonds_of(its, base(atoms@), n as int) == bonds_of(its, ac0 - 1, n as int),
                k <= self.interactions@.len(),
                its == model(self.interactions@),
                bonds_of(its.take(k as int), base(atoms@), n as int) == Ok::<Seq<Bond>, ParseTprError>(bonds@),
                bonds_of(its, base(atoms@), n as int) is Ok ==> bonds_of(
                    its.take(k as int),
                    base(atoms@),
                    n as int,
                ) is Ok,
            decreases self.interactions@.len() - k,
        {
            proof {
                assert(its.take(k + 1).drop_last() =~= its.take(k as int));
                assert(its.take(k + 1).last() == plain(self.interactions@[k as int]));
                lemma_bonds_prefix(its, base(atoms@), n as int, k as int + 1);
            }
            match self.interactions[k].push_bonds(atoms.as_slice(), &mut bonds) {
                Ok(()) => {},
                Err(e) => {
                    return Err(e);
                },
            }
            k = k + 1;
        }
        proof {
            assert(its.take(k as int) =~= its);
        }
        Ok((atoms, bonds))
    }
}

/// A failure among the first `k` interactions is the failure of the whole list.
pub proof fn lemma_bonds_prefix(its: Seq<(InteractionType, Seq<i32>)>, offset: int, n: int, k: int)
    requires
        0 <= k <= its.len(),
    ensures
        bonds_of(its.take(k), offset, n) matches Err(e) ==> bonds_of(its, offset, n) == Err::<
            Seq<Bond>,
            ParseTprError,
        >(e),
    decreases its.len() - k,
{
    if k < its.len() {
        lemma_bonds_prefix(its, offset, n, k + 1);
        assert(its.take(k + 1).drop_last() =~= its.take(k));
    } else {
        assert(its.take(k) =~= its);
    }
}

impl MoleculeTypeAtom {
    /// Get `MoleculeTypeAtom` from an `XdrFile`: mass, charge, B-state mass
    /// and charge (skipped), two atom type indices (skipped), the particle
    /// type (skipped), the residue index and the atomic number.
    pub fn parse(xdrfile: &mut XdrFile, precision: Precision, tpr_version: i32) -> (r: Result<Self, ParseTprError>)
        ensures
            final(xdrfile).bytes() == old(xdrfile).bytes(),
            ({
                let b = old(xdrfile).bytes();
                let p = old(xdrfile).at();
                let w = real_width(precision);
                let q = p + 4 * w + 2 * ushort_width(tpr_version) + 4;
                if q + 8 <= b.len() {
                    &&& r matches Ok(a)
                    &&& a.mass == real_at(b, p, precision)
                    &&& a.charge == real_at(b, p + w, precision)
                    &&& a.residue_index == be_i32(b, q)
                    &&& a.element == element_for(be_i32(b, q + 4) as i32)
                    &&& final(xdrfile).at() == q + 8
                } else {
                    r == Err::<Self, ParseTprError>(eof())
                }
            }),
    {
        let mass = match xdrfile.read_real(precision) {
            Ok(v) => v,
            Err(e) => return Err(e),
        };
        let charge = match xdrfile.read_real(precision) {
            Ok(v) => v,
            Err(e) => return Err(e),
        };
        // B-state mass and charge
        match xdrfile.skip_multiple_reals(precision, 2) {
            Ok(()) => {},
            Err(e) => return Err(e),
        }
        // both atom type indices
        match xdrfile.read_ushort_body(tpr_version) {
            Ok(_) => {},
            Err(e) => return Err(e),
        }
        match xdrfile.read_ushort_body(tpr_version) {
            Ok(_) => {},
            Err(e) => return Err(e),
        }
        // particle type
        match xdrfile.jump(4) {
            Ok(()) => {},
            Err(e) => return Err(e),
        }
        let residue_index = match xdrfile.read_i32() {
            Ok(v) => v,
            Err(e) => return Err(e),
        };
        let atomic_number = match xdrfile.read_i32() {
            Ok(v) => v,
            Err(e) => return Err(e),
        };
        let element = from_atom_number(atomic_number);
        Ok(MoleculeTypeAtom { name: String::new(), mass, charge, residue_index, element })
    }

    /// Convert `MoleculeTypeAtom` to an `Atom`, numbering it from the
    /// counters.  The residue counter advances when the atom's residue
    /// number differs from the previous atom's (or there is no previous atom).
    pub fn convert2atom(
        &self,
        residues: &[MoleculeTypeResidue],
        atom_counter: &mut i32,
        residue_counter: &mut i32,
        previous_residue_number: &mut Option<i32>,
    ) -> (r: Result<Atom, ParseTprError>)
        requires
            *old(atom_counter) < i32::MAX,
            *old(residue_counter) < i32::MAX,
        ensures
            !(0 <= self.residue_index < residues@.len()) ==> {
                &&& r == Err::<Atom, ParseTprError>(ParseTprError::CouldNotConstructTopology)
                &&& *final(atom_counter) == *old(atom_counter)
                &&& *final(residue_counter) == *old(residue_counter)
                &&& *final(previous_residue_number) == *old(previous_residue_number)
            },
            0 <= self.residue_index < residues@.len() ==> {
                let res = residues@[self.residue_index as int];
                let opens = *old(previous_residue_number) != Some(res.number);
                &&& *final(previous_residue_number) == Some(res.number)
                &&& *final(residue_counter) == *old(residue_counter) + if opens {
                    1int
                } else {
                    0int
                }
                &&& *final(atom_counter) == *old(atom_counter) + 1
                &&& r matches Ok(a)
                &&& a.atom_number == *old(atom_counter)
                &&& a.residue_number == *final(residue_counter)
                &&& a.atom_name@ == self.name@
                &&& a.residue_name@ == res.name@
                &&& a.mass == self.mass
                &&& a.charge == self.charge
                &&& a.element == self.element
                &&& a.position is None
                &&& a.velocity is None
                &&& a.force is None
            },
    {
        if self.residue_index < 0 || self.residue_index as usize >= residues.len() {
            return Err(ParseTprError::CouldNotConstructTopology);
        }
        let residue = &residues[self.residue_index as usize];

        // increase the residue counter, if a new residue is encountered
        let opens = match *previous_residue_number {
            Some(previous) => previous != residue.number,
            None => true,
        };
        if opens {
            *residue_counter = *residue_counter + 1;
            *previous_residue_number = Some(residue.number);
        }
        *atom_counter = *atom_counter + 1;

        Ok(
            Atom {
                atom_name: self.name.clone(),
                atom_number: *atom_counter - 1,
                residue_name: residue.name.clone(),
                residue_number: *residue_counter,
                mass: self.mass,
                charge: self.charge,
                element: self.element,
                position: None,
                velocity: None,
                force: None,
            },
        )
    }
}

/// A residue record at `p`: the name (a symbol index), the residue number
/// and the insertion code (ignored).
pub open spec fn residue_step(b: Seq<u8>, p: int, version: i32, symbols: Seq<Seq<char>>) -> Step<(Seq<char>, i32)> {
    match i32_step(b, p) {
        Err(e) => Err(e),
        Ok((index, q)) => if !(0 <= index < symbols.len()) {
            Err(ParseTprError::IndexNotInSymTable(index))
        } else {
            match i32_step(b, q) {
                Err(e) => Err(e),
                Ok((number, q2)) => match uchar_step(b, q2, version) {
                    Err(e) => Err(e),
                    Ok((_, q3)) => Ok(((symbols[index as int], number), q3)),
                },
            }
        },
    }
}

impl MoleculeTypeResidue {
    /// Get `MoleculeTypeResidue` from an `XdrFile`: the name (a symbol), the
    /// residue number and the insertion code (skipped).
    pub fn parse(xdrfile: &mut XdrFile, tpr_version: i32, symbol_table: &SymTable) -> (r: Result<
        Self,
        ParseTprError,
    >)
        ensures
            final(xdrfile).bytes() == old(xdrfile).bytes(),
            match residue_step(old(xdrfile).bytes(), old(xdrfile).at(), tpr_version, texts(symbol_table.symbols@)) {
                Ok(((name, number), e)) => (r matches Ok(res) && res.name@ == name && res.number == number)
                    && final(xdrfile).at() == e,
                Err(e) => r == Err::<Self, ParseTprError>(e),
            },
    {
        let name = match symbol_table.symstring(xdrfile) {
            Ok(s) => s,
            Err(e) => return Err(e),
        };
        let number = match xdrfile.read_i32() {
            Ok(v) => v,
            Err(e) => return Err(e),
        };
        // insertion code
        match xdrfile.read_uchar_body(tpr_version) {
            Ok(_) => {},
            Err(e) => return Err(e),
        }
        Ok(MoleculeTypeResidue { name, number })
    }
}

} // verus!
