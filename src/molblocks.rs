//! Molecule blocks: a molecule type replicated a number of times.

use vstd::prelude::*;

use crate::errors::ParseTprError;
use crate::ffparams::DIM;
use crate::interactions::{bonds_of, bonds_within, lemma_bonds_within};
use crate::moltypes::{
    atoms_view, lemma_expanded_view, lemma_view_valid, model_advances, molecule_model, mt_view, valid_model,
    AtomModel, MoleculeTypeModel, bare, lemma_advances_bound, lemma_join, numbered_from, residue_advances, residues_step, residues_valid,
    MoleculeType,
};
use crate::structures::{Atom, Bond, Precision};
use crate::xdr::{be_i32, i32_step, outcome, read_step, real_width, skip_step, Step, XdrFile};

verus! {

/// Structure representing a molecule block.
pub struct MolBlock {
    pub molecule_type: i32,
    pub n_molecules: i32,
}

/// The atoms and bonds of a run of molecules whose atom numbers start at
/// `ac0` and whose residue count stood at `rc0`; the counters end at
/// `ac1` and `rc1`.
pub open spec fn run_ok(atoms: Seq<Atom>, bonds: Seq<Bond>, ac0: int, rc0: int, ac1: int, rc1: int) -> bool {
    &&& atoms.len() == ac1 - ac0
    &&& numbered_from(atoms, ac0)
    &&& residues_step(atoms, rc0, rc1)
    &&& bare(atoms)
    &&& bonds_within(bonds, ac0 - 1, atoms.len() as int)
    &&& rc0 <= rc1 < ac1
}

/// Joining two runs gives a run.
pub proof fn lemma_join_runs(
    a: Seq<Atom>,
    ab: Seq<Bond>,
    b: Seq<Atom>,
    bb: Seq<Bond>,
    ac0: int,
    rc0: int,
    ac1: int,
    rc1: int,
    ac2: int,
    rc2: int,
)
    requires
        run_ok(a, ab, ac0, rc0, ac1, rc1),
        run_ok(b, bb, ac1, rc1, ac2, rc2),
    ensures
        run_ok(a + b, ab + bb, ac0, rc0, ac2, rc2),
{
    lemma_join(a, b, ac0, rc0, rc1, rc2);
    let c = ab + bb;
    let n = (a + b).len() as int;
    assert forall|i: int| 0 <= i < c.len() implies ac0 - 1 <= (#[trigger] c[i]).atom1 < ac0 - 1 + n && ac0 - 1
        <= c[i].atom2 < ac0 - 1 + n by {
        if i < ab.len() {
            assert(c[i] == ab[i]);
        } else {
            assert(c[i] == bb[i - ab.len()]);
        }
    }
}

/// A list of position restraints at `p`: a count, then three reals each.
pub open spec fn posres_step(b: Seq<u8>, p: int, precision: Precision) -> Step<()> {
    match i32_step(b, p) {
        Ok((n, q)) => skip_step(b, q, 3 * n * real_width(precision)),
        Err(e) => Err(e),
    }
}

/// A molecule block at `p`: its molecule type index and number of
/// molecules, the atoms per molecule (ignored) and two lists of position
/// restraints (skipped).
pub open spec fn block_step(b: Seq<u8>, p: int, precision: Precision) -> Step<(i32, i32)> {
    match read_step(b, p, 12, ()) {
        Err(e) => Err(e),
        Ok(_) => match posres_step(b, p + 12, precision) {
            Err(e) => Err(e),
            Ok((_, q1)) => match posres_step(b, q1, precision) {
                Err(e) => Err(e),
                Ok((_, q2)) => Ok(((be_i32(b, p) as i32, be_i32(b, p + 4) as i32), q2)),
            },
        },
    }
}

/// Skip a list of position restraints.
fn skip_posres(xdrfile: &mut XdrFile, precision: Precision) -> (r: Result<(), ParseTprError>)
    ensures
        final(xdrfile).bytes() == old(xdrfile).bytes(),
        outcome(r, final(xdrfile).at(), posres_step(old(xdrfile).bytes(), old(xdrfile).at(), precision)),
{
    let n_posres = match xdrfile.read_i32() {
        Ok(v) => v,
        Err(e) => return Err(e),
    };
    xdrfile.skip_multiple_reals(precision, DIM as i64 * n_posres as i64)
}

/// The atoms and bonds of `reps` molecules of the modelled type, numbered
/// from the counters `ac` (next atom number) and `rc` (last residue
/// number), with the counters after them.  A molecule whose atom numbers
/// would not fit an `i32`, or whose atoms refer to missing residues, cannot
/// be constructed.
pub open spec fn block_model(m: MoleculeTypeModel, reps: int, ac: int, rc: int) -> Result<
    (Seq<AtomModel>, Seq<Bond>, int, int),
    ParseTprError,
>
    decreases reps,
{
    if reps <= 0 {
        Ok((seq![], seq![], ac, rc))
    } else {
        match block_model(m, reps - 1, ac, rc) {
            Err(e) => Err(e),
            Ok((atoms, bonds, ac1, rc1)) => {
                let n = m.records.len() as int;
                if ac1 + n > i32::MAX {
                    Err(ParseTprError::CouldNotConstructTopology)
                } else if !valid_model(m) {
                    Err(ParseTprError::CouldNotConstructTopology)
                } else {
                    match bonds_of(m.interactions, ac1 - 1, n) {
                        Err(e) => Err(e),
                        Ok(bs) => Ok(
                            (
                                atoms + molecule_model(m, ac1, rc1),
                                bonds + bs,
                                ac1 + n,
                                rc1 + model_advances(m, n),
                            ),
                        ),
                    }
                }
            },
        }
    }
}

pub proof fn lemma_block_fail(m: MoleculeTypeModel, k: int, n: int, ac: int, rc: int)
    requires
        0 <= k <= n,
        block_model(m, k, ac, rc) is Err,
    ensures
        block_model(m, n, ac, rc) == block_model(m, k, ac, rc),
    decreases n - k,
{
    if k < n {
        lemma_block_fail(m, k, n - 1, ac, rc);
    }
}

/// The plain values of concatenated atoms are the concatenated values.
pub proof fn lemma_atoms_view_append(a: Seq<Atom>, b: Seq<Atom>)
    ensures
        atoms_view(a + b) == atoms_view(a) + atoms_view(b),
{
    assert(atoms_view(a + b) =~= atoms_view(a) + atoms_view(b));
}

impl MolBlock {
    /// Get `MolBlock` from `XdrFile`: the molecule type index, the number of
    /// molecules, the atoms per molecule (ignored) and the position
    /// restraints of states A and B (skipped).
    pub fn parse(xdrfile: &mut XdrFile, precision: Precision) -> (r: Result<Self, ParseTprError>)
        ensures
            final(xdrfile).bytes() == old(xdrfile).bytes(),
            match block_step(old(xdrfile).bytes(), old(xdrfile).at(), precision) {
                Ok(((t, n), e)) => (r matches Ok(block) && block.molecule_type == t && block.n_molecules == n)
                    && final(xdrfile).at() == e,
                Err(e) => r == Err::<Self, ParseTprError>(e),
            },
    {
        let molecule_type = match xdrfile.read_i32() {
            Ok(v) => v,
            Err(e) => return Err(e),
        };
        let n_molecules = match xdrfile.read_i32() {
            Ok(v) => v,
            Err(e) => return Err(e),
        };
        // number of atoms per molecule
        match xdrfile.jump(4) {
            Ok(()) => {},
            Err(e) => return Err(e),
        }
        match skip_posres(xdrfile, precision) {
            Ok(()) => {},
            Err(e) => return Err(e),
        }
        match skip_posres(xdrfile, precision) {
            Ok(()) => {},
            Err(e) => return Err(e),
        }
        Ok(MolBlock { molecule_type, n_molecules })
    }

    /// Unpack `MolBlock` to molecules: the atoms and bonds of each replica
    /// of its molecule type, numbered on from the counters.  Fails when the
    /// molecule type does not exist, when the atom numbers would not fit an
    /// `i32`, or when a replica cannot be unpacked.
    pub fn unpack2molecules(
        &self,
        molecule_types: &[MoleculeType],
        atom_counter: &mut i32,
        residue_counter: &mut i32,
    ) -> (r: Result<(Vec<Atom>, Vec<Bond>), ParseTprError>)
        requires
            1 <= *old(atom_counter),
            0 <= *old(residue_counter) < *old(atom_counter),
        ensures
            !(0 <= self.molecule_type < molecule_types@.len()) ==> r == Err::<(Vec<Atom>, Vec<Bond>), ParseTprError>(
                ParseTprError::CouldNotConstructTopology,
            ),
            0 <= self.molecule_type < molecule_types@.len() && self.n_molecules > 0 && !residues_valid(
                molecule_types@[self.molecule_type as int],
            ) ==> r is Err,
            0 <= self.molecule_type < molecule_types@.len() ==> match block_model(
                mt_view(molecule_types@[self.molecule_type as int]),
                self.n_molecules as int,
                *old(atom_counter) as int,
                *old(residue_counter) as int,
            ) {
                Ok((atoms, bonds, ac1, rc1)) => {
                    &&& r matches Ok((a, b))
                    &&& atoms_view(a@) == atoms
                    &&& b@ == bonds
                    &&& *final(atom_counter) == ac1
                    &&& *final(residue_counter) == rc1
                },
                Err(e) => r == Err::<(Vec<Atom>, Vec<Bond>), ParseTprError>(e),
            },
            r matches Ok((atoms, bonds)) ==> {
                &&& 0 <= self.molecule_type < molecule_types@.len()
                &&& atoms@.len() == (if self.n_molecules > 0 {
                    self.n_molecules as int
                } else {
                    0
                }) * molecule_types@[self.molecule_type as int].atoms@.len()
                &&& run_ok(
                    atoms@,
                    bonds@,
                    *old(atom_counter) as int,
                    *old(residue_counter) as int,
                    *final(atom_counter) as int,
                    *final(residue_counter) as int,
                )
                &&& 1 <= *final(atom_counter)
            },
    {
        if self.molecule_type < 0 || self.molecule_type as usize >= molecule_types.len() {
            return Err(ParseTprError::CouldNotConstructTopology);
        }
        let moltype = &molecule_types[self.molecule_type as usize];
        let per_molecule = moltype.atoms.len();
        let ghost ac0 = *atom_counter as int;
        let ghost rc0 = *residue_counter as int;
        let ghost mv = mt_view(*moltype);
        let mut atoms: Vec<Atom> = Vec::new();
        let mut bonds: Vec<Bond> = Vec::new();
        proof {
            assert(atoms_view(atoms@) =~= seq![]);
            assert(bonds@ =~= seq![]);
        }
        let mut m: i32 = 0;
        while m < self.n_molecules
            invariant
                mv == mt_view(*moltype),
                block_model(mv, m as int, ac0, rc0) == Ok::<(Seq<AtomModel>, Seq<Bond>, int, int), ParseTprError>(
                    (atoms_view(atoms@), bonds@, *atom_counter as int, *residue_counter as int),
                ),
                per_molecule == moltype.atoms@.len(),
                0 <= self.molecule_type < molecule_types@.len(),
                *moltype == molecule_types@[self.molecule_type as int],
                !residues_valid(*moltype) ==> m == 0,
                0 <= m,
                m <= self.n_molecules || (m == 0 && self.n_molecules <= 0),
                1 <= *atom_counter,
                0 <= *residue_counter < *atom_counter,
                ac0 == *old(atom_counter),
                rc0 == *old(residue_counter),
                atoms@.len() == m * per_molecule,
                run_ok(atoms@, bonds@, ac0, rc0, *atom_counter as int, *residue_counter as int),
            decreases self.n_molecules - m,
        {
            if per_molecule > (i32::MAX - *atom_counter) as usize {
                proof {
                    lemma_block_fail(mv, m + 1, self.n_molecules as int, ac0, rc0);
                }
                return Err(ParseTprError::CouldNotConstructTopology);
            }
            proof {
                lemma_view_valid(*moltype);
            }
            let ghost ac1 = *atom_counter as int;
            let ghost rc1 = *residue_counter as int;
            let (mut new_atoms, mut new_bonds) = match moltype.unpack2molecule(atom_counter, residue_counter) {
                Ok(x) => x,
                Err(e) => {
                    proof {
                        lemma_block_fail(mv, m + 1, self.n_molecules as int, ac0, rc0);
                    }
                    return Err(e);
                },
            };
            proof {
                lemma_expanded_view(*moltype, new_atoms@, ac1, rc1);
                lemma_atoms_view_append(atoms@, new_atoms@);
                lemma_advances_bound(*moltype, per_molecule as int);
                lemma_bonds_within(crate::interactions::model(moltype.interactions@), ac1 - 1, per_molecule as int);
                let na = new_atoms@;
                assert(numbered_from(na, ac1));
                assert forall|i: int| 0 < i < na.len() implies #[trigger] na[i].residue_number
                    == na[i - 1].residue_number || na[i].residue_number == na[i - 1].residue_number + 1 by {
                    assert(residue_advances(*moltype, i + 1) == residue_advances(*moltype, i) + if crate::moltypes::opens_residue(*moltype, i) {
                        1int
                    } else {
                        0int
                    });
                }
                if na.len() > 0 {
                    assert(residue_advances(*moltype, 0) == 0);
                    assert(residue_advances(*moltype, 1) == 1);
                }
                assert(residues_step(na, rc1, *residue_counter as int));
                assert(bare(na));
                assert(run_ok(na, new_bonds@, ac1, rc1, *atom_counter as int, *residue_counter as int));
                lemma_join_runs(
                    atoms@,
                    bonds@,
                    na,
                    new_bonds@,
                    ac0,
                    rc0,
                    ac1,
                    rc1,
                    *atom_counter as int,
                    *residue_counter as int,
                );
                assert((m + 1) * per_molecule == m * per_molecule + per_molecule) by (nonlinear_arith);
            }
            atoms.append(&mut new_atoms);
            bonds.append(&mut new_bonds);
            m = m + 1;
        }
        Ok((atoms, bonds))
    }
}

} // verus!
