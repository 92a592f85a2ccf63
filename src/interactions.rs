//! Intramolecular and intermolecular interaction lists, and the bonds that
//! bond-like interactions stand for.

use vstd::prelude::*;

use crate::errors::{eof, ParseTprError};
use crate::ffparams::{
    arity, kind_code, kind_of_code, lemma_code_kind, not_yet_distinct, FFParams, FTUpdater, InteractionType, N_KINDS,
};
use crate::structures::{Atom, Bond};
use crate::xdr::{be_i32, i32_step, Step, XdrFile};

verus! {

/// Structure representing an intramolecular or an intermolecular interaction.
pub struct Interaction {
    pub interaction_type: InteractionType,
    pub interacting_atom_indices: Vec<i32>,
}

/// The `n` consecutive `i32` values stored at `p`.
pub open spec fn i32s_at(b: Seq<u8>, p: int, n: int) -> Seq<i32> {
    Seq::new(n as nat, |j: int| be_i32(b, p + 4 * j) as i32)
}

/// Is the stored integer count of a kind inconsistent with its arity?  Each
/// instance takes one type index and `arity` atom indices.
pub open spec fn discrepant(count: int, arity: int) -> bool {
    (if count < 0 {
        -count
    } else {
        count
    }) % (arity + 1) != 0
}

/// Number of instances stored under an integer count.
pub open spec fn n_instances(count: int, arity: int) -> int {
    if count > 0 {
        count / (arity + 1)
    } else {
        0
    }
}

/// Kinds that stand for a bond between two atoms.
pub open spec fn bond_like(k: InteractionType) -> bool {
    match k {
        InteractionType::F_BONDS
        | InteractionType::F_G96BONDS
        | InteractionType::F_MORSE
        | InteractionType::F_CUBICBONDS
        | InteractionType::F_CONNBONDS
        | InteractionType::F_HARMONIC
        | InteractionType::F_FENEBONDS
        | InteractionType::F_RESTRBONDS
        | InteractionType::F_CONSTR
        | InteractionType::F_CONSTRNC
        | InteractionType::F_TABBONDS
        | InteractionType::F_TABBONDSNC => true,
        _ => false,
    }
}

/// Atoms numbered consecutively from a positive number, as assembly numbers them.
pub open spec fn consecutive(atoms: Seq<Atom>) -> bool {
    &&& forall|i: int| 0 <= i < atoms.len() ==> #[trigger] atoms[i].atom_number == atoms[0].atom_number + i
    &&& atoms.len() > 0 ==> atoms[0].atom_number >= 1
}

/// The global index of the first of consecutively numbered atoms.
pub open spec fn base(atoms: Seq<Atom>) -> int {
    if atoms.len() > 0 {
        atoms[0].atom_number - 1
    } else {
        0
    }
}

/// The global index of the atom at position `i` of `n` atoms whose global
/// indices start at `offset`, if there is one.
pub open spec fn index_in(offset: int, n: int, i: i32) -> Option<usize> {
    if 0 <= i < n {
        Some((offset + i) as usize)
    } else {
        None
    }
}

/// The bond between the atoms at positions `i` and `j`.
pub open spec fn bond_between(offset: int, n: int, i: i32, j: i32) -> Result<Bond, ParseTprError> {
    match (index_in(offset, n, i), index_in(offset, n, j)) {
        (Some(a), Some(c)) => Ok(Bond { atom1: a, atom2: c }),
        _ => Err(ParseTprError::CouldNotConstructTopology),
    }
}

/// The bonds that an interaction stands for, its atom indices being
/// positions among `n` atoms whose global indices start at `offset`: two
/// for a rigid water (first–second, first–third), one for a bond-like kind,
/// none for any other kind.
pub open spec fn interaction_bonds(it: (InteractionType, Seq<i32>), offset: int, n: int) -> Result<
    Seq<Bond>,
    ParseTprError,
> {
    let ix = it.1;
    if it.0 == InteractionType::F_SETTLE {
        if ix.len() != 3 {
            Err(ParseTprError::InvalidNumberOfSettleAtoms(ix.len() as usize))
        } else {
            match (bond_between(offset, n, ix[0], ix[1]), bond_between(offset, n, ix[0], ix[2])) {
                (Ok(x), Ok(y)) => Ok(seq![x, y]),
                (Err(e), _) => Err(e),
                (_, Err(e)) => Err(e),
            }
        }
    } else if bond_like(it.0) {
        if ix.len() != 2 {
            Err(ParseTprError::InvalidNumberOfBondedAtoms(ix.len() as usize))
        } else {
            match bond_between(offset, n, ix[0], ix[1]) {
                Ok(x) => Ok(seq![x]),
                Err(e) => Err(e),
            }
        }
    } else {
        Ok(seq![])
    }
}

/// The bonds of a list of interactions, in order; the first failure wins.
pub open spec fn bonds_of(its: Seq<(InteractionType, Seq<i32>)>, offset: int, n: int) -> Result<Seq<Bond>, ParseTprError>
    decreases its.len(),
{
    if its.len() == 0 {
        Ok(seq![])
    } else {
        match bonds_of(its.drop_last(), offset, n) {
            Ok(s) => match interaction_bonds(its.last(), offset, n) {
                Ok(t) => Ok(s + t),
                Err(e) => Err(e),
            },
            Err(e) => Err(e),
        }
    }
}

/// Both atoms of every bond lie among the `n` atoms starting at `offset`.
pub open spec fn bonds_within(bonds: Seq<Bond>, offset: int, n: int) -> bool {
    forall|i: int|
        0 <= i < bonds.len() ==> offset <= (#[trigger] bonds[i]).atom1 < offset + n && offset <= bonds[i].atom2
            < offset + n
}

/// The bonds of an interaction lie among the atoms it may refer to.
pub proof fn lemma_interaction_bonds_within(it: (InteractionType, Seq<i32>), offset: int, n: int)
    requires
        offset >= 0,
        offset + n <= usize::MAX,
    ensures
        interaction_bonds(it, offset, n) matches Ok(s) ==> bonds_within(s, offset, n),
{
}

/// The bonds of a list of interactions lie among the atoms they may refer to.
pub proof fn lemma_bonds_within(its: Seq<(InteractionType, Seq<i32>)>, offset: int, n: int)
    requires
        offset >= 0,
        offset + n <= usize::MAX,
    ensures
        bonds_of(its, offset, n) matches Ok(s) ==> bonds_within(s, offset, n),
    decreases its.len(),
{
    if its.len() > 0 {
        lemma_bonds_within(its.drop_last(), offset, n);
        lemma_interaction_bonds_within(its.last(), offset, n);
        if let Ok(s) = bonds_of(its, offset, n) {
            if let Ok(s0) = bonds_of(its.drop_last(), offset, n) {
                if let Ok(t) = interaction_bonds(its.last(), offset, n) {
                    assert(s == s0 + t);
                    assert forall|i: int| 0 <= i < s.len() implies offset <= (#[trigger] s[i]).atom1 < offset + n
                        && offset <= s[i].atom2 < offset + n by {
                        if i < s0.len() {
                            assert(s[i] == s0[i]);
                        } else {
                            assert(s[i] == t[i - s0.len()]);
                        }
                    }
                }
            }
        }
    }
}

/// An interaction as plain values: its kind and its atom indices.
pub open spec fn plain(it: Interaction) -> (InteractionType, Seq<i32>) {
    (it.interaction_type, it.interacting_atom_indices@)
}

/// Interactions as plain values.
pub open spec fn model(list: Seq<Interaction>) -> Seq<(InteractionType, Seq<i32>)> {
    list.map_values(|it: Interaction| plain(it))
}

/// One interaction at `p`: an index into the interaction type entries
/// `types`, then `a` atom indices.
pub open spec fn instance_step(b: Seq<u8>, p: int, a: int, types: Seq<InteractionType>) -> Step<
    (InteractionType, Seq<i32>),
> {
    match i32_step(b, p) {
        Err(e) => Err(e),
        Ok((index, q)) => if !(0 <= index < types.len()) {
            Err(ParseTprError::InvalidInteractionType(index))
        } else if q + 4 * a <= b.len() {
            Ok(((types[index as int], i32s_at(b, q, a)), q + 4 * a))
        } else {
            Err(eof())
        },
    }
}

/// `n` consecutive interactions at `p`.
pub open spec fn instances_step(b: Seq<u8>, p: int, a: int, types: Seq<InteractionType>, n: int) -> Step<
    Seq<(InteractionType, Seq<i32>)>,
>
    decreases n,
{
    if n <= 0 {
        Ok((seq![], p))
    } else {
        match instances_step(b, p, a, types, n - 1) {
            Ok((s, q)) => match instance_step(b, q, a, types) {
                Ok((x, e)) => Ok((s.push(x), e)),
                Err(e) => Err(e),
            },
            Err(e) => Err(e),
        }
    }
}

/// The interactions of kind `k` at `p`: an integer count, which must be a
/// multiple of the kind's arity + 1, then the instances.
pub open spec fn kind_step(b: Seq<u8>, p: int, k: InteractionType, types: Seq<InteractionType>) -> Step<
    Seq<(InteractionType, Seq<i32>)>,
> {
    match i32_step(b, p) {
        Err(e) => Err(e),
        Ok((count, q)) => if discrepant(count as int, arity(k)) {
            Err(ParseTprError::InteractionDiscrepancy(kind_code(k) as i32))
        } else {
            instances_step(b, q, arity(k), types, n_instances(count as int, arity(k)))
        },
    }
}

/// The interactions of the kinds with the first `c` codes, in the order of
/// the codes, in a file of the given version; kinds that the version does
/// not distinguish yet take no bytes.
pub open spec fn kinds_step(b: Seq<u8>, p: int, version: i32, types: Seq<InteractionType>, c: int) -> Step<
    Seq<(InteractionType, Seq<i32>)>,
>
    decreases c,
{
    if c <= 0 {
        Ok((seq![], p))
    } else {
        match kinds_step(b, p, version, types, c - 1) {
            Ok((s, q)) => {
                let k = kind_of_code((c - 1) as i32)->Some_0;
                if not_yet_distinct(k, version as int) {
                    Ok((s, q))
                } else {
                    match kind_step(b, q, k, types) {
                        Ok((t, e)) => Ok((s + t, e)),
                        Err(e) => Err(e),
                    }
                }
            },
            Err(e) => Err(e),
        }
    }
}

pub proof fn lemma_instances_fail(b: Seq<u8>, p: int, a: int, types: Seq<InteractionType>, k: int, n: int)
    requires
        0 <= k <= n,
        instances_step(b, p, a, types, k) is Err,
    ensures
        instances_step(b, p, a, types, n) == instances_step(b, p, a, types, k),
    decreases n - k,
{
    if k < n {
        lemma_instances_fail(b, p, a, types, k, n - 1);
    }
}

pub proof fn lemma_kinds_fail(b: Seq<u8>, p: int, version: i32, types: Seq<InteractionType>, k: int, n: int)
    requires
        0 <= k <= n,
        kinds_step(b, p, version, types, k) is Err,
    ensures
        kinds_step(b, p, version, types, n) == kinds_step(b, p, version, types, k),
    decreases n - k,
{
    if k < n {
        lemma_kinds_fail(b, p, version, types, k, n - 1);
    }
}

/// Read the interactions of one kind: an integer count, then the instances.
/// The count must be a multiple of the kind's arity + 1.
pub fn read_kind(
    xdrfile: &mut XdrFile,
    kind: InteractionType,
    ffparams: &FFParams,
    out: &mut Vec<Interaction>,
) -> (r: Result<(), ParseTprError>)
    ensures
        final(xdrfile).bytes() == old(xdrfile).bytes(),
        match kind_step(old(xdrfile).bytes(), old(xdrfile).at(), kind, ffparams.interaction_types@) {
            Ok((s, e)) => r is Ok && model(final(out)@) == model(old(out)@) + s && final(xdrfile).at() == e,
            Err(e) => r == Err::<(), ParseTprError>(e),
        },
        match i32_step(old(xdrfile).bytes(), old(xdrfile).at()) {
            Ok((count, _)) => discrepant(count as int, arity(kind)) ==> r == Err::<(), ParseTprError>(
                ParseTprError::InteractionDiscrepancy(kind_code(kind) as i32),
            ),
            Err(e) => r == Err::<(), ParseTprError>(e),
        },
{
    let ghost b = xdrfile.bytes();
    let ghost p = xdrfile.at();
    let ghost out0 = out@;
    let ghost types = ffparams.interaction_types@;
    let count = match xdrfile.read_i32() {
        Ok(c) => c,
        Err(e) => return Err(e),
    };
    let ghost q = xdrfile.at();
    let n_atoms = kind.n_interacting_atoms();
    let stride: i64 = n_atoms as i64 + 1;
    let magnitude: i64 = if count < 0 {
        -(count as i64)
    } else {
        count as i64
    };
    if magnitude % stride != 0 {
        proof {
            lemma_code_kind_bound(kind);
        }
        return Err(ParseTprError::InteractionDiscrepancy(kind.code()));
    }
    let n: i64 = if count > 0 {
        count as i64 / stride
    } else {
        0
    };
    proof {
        assert(model(out@) =~= model(out0) + seq![]);
    }
    let mut k: i64 = 0;
    while k < n
        invariant
            xdrfile.bytes() == b,
            b == old(xdrfile).bytes(),
            p == old(xdrfile).at(),
            out0 == old(out)@,
            types == ffparams.interaction_types@,
            i32_step(b, p) == Ok::<(i32, int), ParseTprError>((count, q)),
            !discrepant(count as int, arity(kind)),
            n == n_instances(count as int, arity(kind)),
            n_atoms == arity(kind),
            0 <= k <= n,
            instances_step(b, q, n_atoms as int, types, k as int) matches Ok((s, e)) && model(out@) == model(out0)
                + s && xdrfile.at() == e,
        decreases n - k,
    {
        let ghost before = out@;
        let it = match Interaction::parse(xdrfile, n_atoms, ffparams) {
            Ok(it) => it,
            Err(e) => {
                proof {
                    lemma_instances_fail(b, q, n_atoms as int, types, k + 1, n as int);
                }
                return Err(e);
            },
        };
        let ghost x = (it.interaction_type, it.interacting_atom_indices@);
        out.push(it);
        proof {
            let s = instances_step(b, q, n_atoms as int, types, k as int)->Ok_0.0;
            assert(model(out@) =~= model(before).push(x));
            assert(model(out@) =~= model(out0) + s.push(x));
        }
        k = k + 1;
    }
    Ok(())
}

/// A kind's code fits an `i32`.
proof fn lemma_code_kind_bound(k: InteractionType)
    ensures
        0 <= kind_code(k) < N_KINDS,
{
    crate::ffparams::lemma_kind_code(k);
}

/// Read intramolecular or intermolecular interactions: for every kind, in
/// the order of the codes, the interactions of that kind, except for kinds
/// that the file's version does not distinguish yet.
pub fn read_interactions(xdrfile: &mut XdrFile, tpr_version: i32, ffparams: &FFParams) -> (r: Result<
    Vec<Interaction>,
    ParseTprError,
>)
    ensures
        final(xdrfile).bytes() == old(xdrfile).bytes(),
        match kinds_step(old(xdrfile).bytes(), old(xdrfile).at(), tpr_version, ffparams.interaction_types@, N_KINDS as int) {
            Ok((s, e)) => (r matches Ok(list) && model(list@) == s) && final(xdrfile).at() == e,
            Err(e) => r == Err::<Vec<Interaction>, ParseTprError>(e),
        },
        (i32_step(old(xdrfile).bytes(), old(xdrfile).at()) matches Ok((count, _)) && discrepant(
            count as int,
            arity(InteractionType::F_BONDS),
        )) ==> r == Err::<Vec<Interaction>, ParseTprError>(ParseTprError::InteractionDiscrepancy(0)),
{
    let ghost b = xdrfile.bytes();
    let ghost p = xdrfile.at();
    let ghost types = ffparams.interaction_types@;
    let updater = FTUpdater::default();
    let mut interactions: Vec<Interaction> = Vec::new();
    proof {
        assert(model(interactions@) =~= seq![]);
    }
    let mut c: i32 = 0;
    while c < N_KINDS
        invariant
            xdrfile.bytes() == b,
            b == old(xdrfile).bytes(),
            p == old(xdrfile).at(),
            types == ffparams.interaction_types@,
            updater.update@ == crate::ffparams::ft_rows(),
            0 <= c <= N_KINDS,
            c == 0 ==> xdrfile.at() == p,
            c > 0 ==> !(i32_step(b, p) matches Ok((count, _)) && discrepant(
                count as int,
                arity(InteractionType::F_BONDS),
            )),
            kinds_step(b, p, tpr_version, types, c as int) matches Ok((s, e)) && model(interactions@) == s
                && xdrfile.at() == e,
        decreases N_KINDS - c,
    {
        proof {
            lemma_code_kind(c as int);
        }
        let kind = match InteractionType::from_code(c) {
            Some(k) => k,
            None => return Err(ParseTprError::UnknownInteractionKind(c)),
        };
        if !updater.skips(kind, tpr_version) {
            let ghost before = interactions@;
            match read_kind(xdrfile, kind, ffparams, &mut interactions) {
                Ok(()) => {},
                Err(e) => {
                    proof {
                        lemma_kinds_fail(b, p, tpr_version, types, c + 1, N_KINDS as int);
                    }
                    return Err(e);
                },
            }
        } else {
            proof {
                if c == 0 {
                    assert(!not_yet_distinct(kind, tpr_version as int)) by {
                        assert forall|i: int| 0 <= i < crate::ffparams::ft_rows().len() implies !(tpr_version
                            < (#[trigger] crate::ffparams::ft_rows()[i]).0 && kind_code(kind)
                            == crate::ffparams::ft_rows()[i].1) by {}
                    }
                }
            }
        }
        c = c + 1;
    }
    Ok(interactions)
}

impl Interaction {
    /// Get an `Interaction` from an `XdrFile`: an index into the registry's
    /// interaction type entries, then `n_interacting_atoms` atom indices.
    pub fn parse(xdrfile: &mut XdrFile, n_interacting_atoms: i32, ffparams: &FFParams) -> (r: Result<
        Self,
        ParseTprError,
    >)
        requires
            n_interacting_atoms >= 0,
        ensures
            final(xdrfile).bytes() == old(xdrfile).bytes(),
            match instance_step(
                old(xdrfile).bytes(),
                old(xdrfile).at(),
                n_interacting_atoms as int,
                ffparams.interaction_types@,
            ) {
                Ok(((k, ix), e)) => (r matches Ok(it) && it.interaction_type == k && it.interacting_atom_indices@ == ix)
                    && final(xdrfile).at() == e,
                Err(e) => r == Err::<Self, ParseTprError>(e),
            },
    {
        let ghost b = xdrfile.bytes();
        let ghost p = xdrfile.at();
        let interaction_type_index = match xdrfile.read_i32() {
            Ok(i) => i,
            Err(e) => return Err(e),
        };
        if interaction_type_index < 0 || interaction_type_index as usize >= ffparams.interaction_types.len() {
            return Err(ParseTprError::InvalidInteractionType(interaction_type_index));
        }
        let interaction_type = ffparams.interaction_types[interaction_type_index as usize];
        let ghost q = xdrfile.at();
        let mut interacting_atom_indices: Vec<i32> = Vec::new();
        let mut j: i32 = 0;
        while j < n_interacting_atoms
            invariant
                xdrfile.bytes() == b,
                b == old(xdrfile).bytes(),
                p == old(xdrfile).at(),
                i32_step(b, p) == Ok::<(i32, int), ParseTprError>((interaction_type_index, q)),
                0 <= interaction_type_index < ffparams.interaction_types@.len(),
                interaction_type == ffparams.interaction_types@[interaction_type_index as int],
                0 <= j <= n_interacting_atoms,
                xdrfile.at() == q + 4 * j,
                q + 4 * j <= b.len(),
                interacting_atom_indices@ == i32s_at(b, q, j as int),
            decreases n_interacting_atoms - j,
        {
            let v = match xdrfile.read_i32() {
                Ok(v) => v,
                Err(e) => return Err(e),
            };
            interacting_atom_indices.push(v);
            j = j + 1;
            assert(interacting_atom_indices@ =~= i32s_at(b, q, j as int));
        }
        Ok(Interaction { interaction_type, interacting_atom_indices })
    }

    /// Is the interaction considered to be a bond?
    pub fn is_bond(&self) -> (r: bool)
        ensures
            r == bond_like(self.interaction_type),
    {
        match self.interaction_type {
            InteractionType::F_BONDS
            | InteractionType::F_G96BONDS
            | InteractionType::F_MORSE
            | InteractionType::F_CUBICBONDS
            | InteractionType::F_CONNBONDS
            | InteractionType::F_HARMONIC
            | InteractionType::F_FENEBONDS
            | InteractionType::F_RESTRBONDS
            | InteractionType::F_CONSTR
            | InteractionType::F_CONSTRNC
            | InteractionType::F_TABBONDS
            | InteractionType::F_TABBONDSNC => true,
            _ => false,
        }
    }

    /// The global index of the atom at position `i` of `atoms`.
    fn get_atom_index(atoms: &[Atom], i: i32) -> (r: Result<usize, ParseTprError>)
        requires
            consecutive(atoms@),
        ensures
            match index_in(base(atoms@), atoms@.len() as int, i) {
                Some(a) => r == Ok::<usize, ParseTprError>(a),
                None => r == Err::<usize, ParseTprError>(ParseTprError::CouldNotConstructTopology),
            },
    {
        if i < 0 || i as usize >= atoms.len() {
            return Err(ParseTprError::CouldNotConstructTopology);
        }
        let n = atoms[i as usize].atom_number;
        assert(atoms@[i as int].atom_number == atoms@[0].atom_number + i);
        Ok((n - 1) as usize)
    }

    /// Unpack a SETTLE interaction into its two bonds (first–second and
    /// first–third atom).  Returns an empty vector if the interaction is not
    /// a SETTLE.
    pub fn settle2bonds(&self, atoms: &[Atom]) -> (r: Result<Vec<Bond>, ParseTprError>)
        requires
            consecutive(atoms@),
        ensures
            self.interaction_type != InteractionType::F_SETTLE ==> (r matches Ok(v) && v@.len() == 0),
            self.interaction_type == InteractionType::F_SETTLE ==> match interaction_bonds(plain(*self), base(atoms@), atoms@.len() as int) {
                Ok(s) => (r matches Ok(v) && v@ == s),
                Err(e) => r == Err::<Vec<Bond>, ParseTprError>(e),
            },
    {
        if !matches!(self.interaction_type, InteractionType::F_SETTLE) {
            return Ok(Vec::new());
        }
        if self.interacting_atom_indices.len() != 3 {
            return Err(ParseTprError::InvalidNumberOfSettleAtoms(self.interacting_atom_indices.len()));
        }
        let a0 = match Self::get_atom_index(atoms, self.interacting_atom_indices[0]) {
            Ok(a) => a,
            Err(e) => return Err(e),
        };
        let a1 = match Self::get_atom_index(atoms, self.interacting_atom_indices[1]) {
            Ok(a) => a,
            Err(e) => return Err(e),
        };
        let a2 = match Self::get_atom_index(atoms, self.interacting_atom_indices[2]) {
            Ok(a) => a,
            Err(e) => return Err(e),
        };
        let v = vec![Bond { atom1: a0, atom2: a1 }, Bond { atom1: a0, atom2: a2 }];
        assert(v@ =~= seq![Bond { atom1: a0, atom2: a1 }, Bond { atom1: a0, atom2: a2 }]);
        Ok(v)
    }

    /// Unpack a bond-like interaction into its bond.  Returns `None` if the
    /// interaction is not a bond.
    pub fn unpack2bond(&self, atoms: &[Atom]) -> (r: Result<Option<Bond>, ParseTprError>)
        requires
            consecutive(atoms@),
        ensures
            !bond_like(self.interaction_type) ==> r == Ok::<Option<Bond>, ParseTprError>(None),
            bond_like(self.interaction_type) ==> match interaction_bonds(plain(*self), base(atoms@), atoms@.len() as int) {
                Ok(s) => r == Ok::<Option<Bond>, ParseTprError>(Some(s[0])),
                Err(e) => r == Err::<Option<Bond>, ParseTprError>(e),
            },
    {
        if !self.is_bond() {
            return Ok(None);
        }
        if self.interacting_atom_indices.len() != 2 {
            return Err(ParseTprError::InvalidNumberOfBondedAtoms(self.interacting_atom_indices.len()));
        }
        let a0 = match Self::get_atom_index(atoms, self.interacting_atom_indices[0]) {
            Ok(a) => a,
            Err(e) => return Err(e),
        };
        let a1 = match Self::get_atom_index(atoms, self.interacting_atom_indices[1]) {
            Ok(a) => a,
            Err(e) => return Err(e),
        };
        Ok(Some(Bond { atom1: a0, atom2: a1 }))
    }

    /// Append the bonds that the interaction stands for to `bonds`.
    pub fn push_bonds(&self, atoms: &[Atom], bonds: &mut Vec<Bond>) -> (r: Result<(), ParseTprError>)
        requires
            consecutive(atoms@),
        ensures
            match interaction_bonds(plain(*self), base(atoms@), atoms@.len() as int) {
                Ok(s) => r is Ok && final(bonds)@ == old(bonds)@ + s,
                Err(e) => r == Err::<(), ParseTprError>(e),
            },
    {
        if matches!(self.interaction_type, InteractionType::F_SETTLE) {
            let mut pair = match self.settle2bonds(atoms) {
                Ok(v) => v,
                Err(e) => return Err(e),
            };
            bonds.append(&mut pair);
        } else {
            match self.unpack2bond(atoms) {
                Ok(Some(bond)) => bonds.push(bond),
                Ok(None) => {
                    assert(interaction_bonds(plain(*self), base(atoms@), atoms@.len() as int) == Ok::<Seq<Bond>, ParseTprError>(seq![]));
                    assert(bonds@ =~= bonds@ + seq![]);
                },
                Err(e) => return Err(e),
            }
        }
        Ok(())
    }
}

} // verus!
