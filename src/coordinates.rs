//! Positions, velocities and forces of the atoms.

use vstd::prelude::*;

use crate::errors::{eof, ParseTprError};
use crate::structures::{Precision, Real, TprHeader};
use crate::xdr::{real_width, vector3_at, Step, XdrFile};

verus! {

/// The positions, velocities and forces of the particles.
/// An empty vector means that the block is not present in the file.
pub struct Coordinates {
    /// Positions of particles in the system.
    pub positions: Vec<[Real; 3]>,
    /// Velocities of particles in the system.
    pub velocities: Vec<[Real; 3]>,
    /// Forces acting upon the particles of the system.
    pub forces: Vec<[Real; 3]>,
}

/// The `n` vectors of three reals stored from `p` on.
pub open spec fn vectors_at(b: Seq<u8>, p: int, n: int, precision: Precision) -> Seq<[Real; 3]> {
    Seq::new(n as nat, |i: int| vector3_at(b, p + 3 * real_width(precision) * i, precision))
}

/// Number of vectors in a block of `n_atoms`: none for a negative count.
pub open spec fn block_len(n_atoms: i32) -> int {
    if n_atoms < 0 {
        0
    } else {
        n_atoms as int
    }
}

/// A block of vectors at `p`, one per atom, present when `flag` is set.
pub open spec fn block_read_step(b: Seq<u8>, p: int, precision: Precision, n_atoms: i32, flag: bool) -> Step<
    Seq<[Real; 3]>,
> {
    if !flag || block_len(n_atoms) == 0 {
        Ok((seq![], p))
    } else {
        let len = 3 * real_width(precision) * block_len(n_atoms);
        if p + len <= b.len() {
            Ok((vectors_at(b, p, block_len(n_atoms), precision), p + len))
        } else {
            Err(eof())
        }
    }
}

/// The positions, velocities and forces at `p`, each block present when
/// its flag is set.
pub open spec fn coordinates_step(
    b: Seq<u8>,
    p: int,
    precision: Precision,
    n_atoms: i32,
    has_positions: bool,
    has_velocities: bool,
    has_forces: bool,
) -> Step<(Seq<[Real; 3]>, Seq<[Real; 3]>, Seq<[Real; 3]>)> {
    match block_read_step(b, p, precision, n_atoms, has_positions) {
        Err(e) => Err(e),
        Ok((ps, q)) => match block_read_step(b, q, precision, n_atoms, has_velocities) {
            Err(e) => Err(e),
            Ok((vs, q1)) => match block_read_step(b, q1, precision, n_atoms, has_forces) {
                Err(e) => Err(e),
                Ok((fs, q2)) => Ok(((ps, vs, fs), q2)),
            },
        },
    }
}

impl Coordinates {
    /// Get positions, velocities and forces of the particles, each block
    /// present only if the header flags it.
    pub fn parse(xdrfile: &mut XdrFile, tpr_header: &TprHeader) -> (r: Result<Self, ParseTprError>)
        ensures
            final(xdrfile).bytes() == old(xdrfile).bytes(),
            match coordinates_step(
                old(xdrfile).bytes(),
                old(xdrfile).at(),
                tpr_header.precision,
                tpr_header.n_atoms,
                tpr_header.has_positions,
                tpr_header.has_velocities,
                tpr_header.has_forces,
            ) {
                Ok(((ps, vs, fs), e)) => (r matches Ok(c) && c.positions@ == ps && c.velocities@ == vs && c.forces@
                    == fs) && final(xdrfile).at() == e,
                Err(e) => r == Err::<Self, ParseTprError>(e),
            },
            r matches Ok(c) ==> {
                &&& c.positions@.len() == if tpr_header.has_positions {
                    block_len(tpr_header.n_atoms)
                } else {
                    0
                }
                &&& c.velocities@.len() == if tpr_header.has_velocities {
                    block_len(tpr_header.n_atoms)
                } else {
                    0
                }
                &&& c.forces@.len() == if tpr_header.has_forces {
                    block_len(tpr_header.n_atoms)
                } else {
                    0
                }
            },
    {
        let positions = if tpr_header.has_positions {
            match Self::read_block(xdrfile, tpr_header.precision, tpr_header.n_atoms) {
                Ok(v) => v,
                Err(e) => return Err(e),
            }
        } else {
            Vec::new()
        };
        let velocities = if tpr_header.has_velocities {
            match Self::read_block(xdrfile, tpr_header.precision, tpr_header.n_atoms) {
                Ok(v) => v,
                Err(e) => return Err(e),
            }
        } else {
            Vec::new()
        };
        let forces = if tpr_header.has_forces {
            match Self::read_block(xdrfile, tpr_header.precision, tpr_header.n_atoms) {
                Ok(v) => v,
                Err(e) => return Err(e),
            }
        } else {
            Vec::new()
        };
        Ok(Coordinates { positions, velocities, forces })
    }

    /// Read a block of `n_items` vectors of three reals.
    pub fn read_block(xdrfile: &mut XdrFile, precision: Precision, n_items: i32) -> (r: Result<
        Vec<[Real; 3]>,
        ParseTprError,
    >)
        ensures
            final(xdrfile).bytes() == old(xdrfile).bytes(),
            r matches Ok(v) ==> {
                &&& v@ == vectors_at(old(xdrfile).bytes(), old(xdrfile).at(), block_len(n_items), precision)
                &&& final(xdrfile).at() == old(xdrfile).at() + 3 * real_width(precision) * block_len(n_items)
            },
            old(xdrfile).at() + 3 * real_width(precision) * block_len(n_items) <= old(xdrfile).bytes().len()
                ==> r is Ok,
            r matches Err(e) ==> e == eof(),
            block_len(n_items) == 0 ==> r is Ok,
            r is Ok ==> block_len(n_items) == 0 || old(xdrfile).at() + 3 * real_width(precision) * block_len(n_items)
                <= old(xdrfile).bytes().len(),
    {
        let ghost b = xdrfile.bytes();
        let ghost p = xdrfile.at();
        let ghost w = real_width(precision);
        let mut block: Vec<[Real; 3]> = Vec::new();
        let mut i: i32 = 0;
        while i < n_items
            invariant
                xdrfile.bytes() == b,
                b == old(xdrfile).bytes(),
                p == old(xdrfile).at(),
                w == real_width(precision),
                0 <= i,
                i <= n_items || (i == 0 && n_items < 0),
                xdrfile.at() == p + 3 * w * i,
                block@ == vectors_at(b, p, i as int, precision),
                p + 3 * w * block_len(n_items) <= b.len() ==> p + 3 * w * i <= p + 3 * w * block_len(n_items),
                i > 0 ==> p + 3 * w * i <= b.len(),
            decreases n_items - i,
        {
            proof {
                assert(3 * w * (i + 1) == 3 * w * i + 3 * w) by (nonlinear_arith);
                assert(3 * w * (i + 1) <= 3 * w * block_len(n_items)) by (nonlinear_arith)
                    requires
                        i + 1 <= block_len(n_items),
                        w >= 0,
                ;
            }
            let v = match xdrfile.read_vector3(precision) {
                Ok(v) => v,
                Err(e) => return Err(e),
            };
            block.push(v);
            i = i + 1;
            assert(block@ =~= vectors_at(b, p, i as int, precision));
        }
        Ok(block)
    }
}

} // verus!
