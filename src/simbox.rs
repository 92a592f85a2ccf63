//! The simulation box.

use vstd::prelude::*;

use crate::errors::ParseTprError;
use crate::structures::{Precision, Real, SimBox};
use crate::xdr::{outcome, read_step, real_width, vector3_at, Step, XdrFile};

verus! {

/// The 3×3 matrix of reals stored row by row at `p`.
pub open spec fn matrix_at(b: Seq<u8>, p: int, precision: Precision) -> [[Real; 3]; 3] {
    let w = real_width(precision);
    [vector3_at(b, p, precision), vector3_at(b, p + 3 * w, precision), vector3_at(b, p + 6 * w, precision)]
}

/// The simulation box at `p`: three 3×3 matrices of reals.
#[verifier::opaque]
pub open spec fn simbox_step(b: Seq<u8>, p: int, precision: Precision) -> Step<SimBox> {
    let w = real_width(precision);
    if p + 27 * w <= b.len() {
        Ok(
            (
                SimBox {
                    simbox: matrix_at(b, p, precision),
                    simbox_rel: matrix_at(b, p + 9 * w, precision),
                    simbox_v: matrix_at(b, p + 18 * w, precision),
                },
                p + 27 * w,
            ),
        )
    } else {
        Err(crate::errors::eof())
    }
}

/// Read a 3×3 matrix of reals, row by row.
fn read_matrix(xdrfile: &mut XdrFile, precision: Precision) -> (r: Result<[[Real; 3]; 3], ParseTprError>)
    ensures
        final(xdrfile).bytes() == old(xdrfile).bytes(),
        match read_step(
            old(xdrfile).bytes(),
            old(xdrfile).at(),
            9 * real_width(precision),
            matrix_at(old(xdrfile).bytes(), old(xdrfile).at(), precision),
        ) {
            Ok((m, e)) => r == Ok::<[[Real; 3]; 3], ParseTprError>(m) && final(xdrfile).at() == e,
            Err(e) => r == Err::<[[Real; 3]; 3], ParseTprError>(e),
        },
{
    let x = match xdrfile.read_vector3(precision) {
        Ok(v) => v,
        Err(e) => return Err(e),
    };
    let y = match xdrfile.read_vector3(precision) {
        Ok(v) => v,
        Err(e) => return Err(e),
    };
    let z = match xdrfile.read_vector3(precision) {
        Ok(v) => v,
        Err(e) => return Err(e),
    };
    Ok([x, y, z])
}

impl SimBox {
    /// Get the simulation box from the tpr file: the box vectors, the
    /// relative box and the box velocities, each a 3×3 matrix of reals.
    pub fn parse(xdrfile: &mut XdrFile, precision: Precision) -> (r: Result<SimBox, ParseTprError>)
        ensures
            final(xdrfile).bytes() == old(xdrfile).bytes(),
            outcome(r, final(xdrfile).at(), simbox_step(old(xdrfile).bytes(), old(xdrfile).at(), precision)),
            ({
                let b = old(xdrfile).bytes();
                let p = old(xdrfile).at();
                let w = real_width(precision);
                if p + 27 * w <= b.len() {
                    &&& r matches Ok(sb)
                    &&& sb.simbox == matrix_at(b, p, precision)
                    &&& sb.simbox_rel == matrix_at(b, p + 9 * w, precision)
                    &&& sb.simbox_v == matrix_at(b, p + 18 * w, precision)
                    &&& final(xdrfile).at() == p + 27 * w
                } else {
                    r == Err::<SimBox, ParseTprError>(crate::errors::eof())
                }
            }),
    {
        reveal(simbox_step);
        let simbox = match read_matrix(xdrfile, precision) {
            Ok(m) => m,
            Err(e) => return Err(e),
        };
        let simbox_rel = match read_matrix(xdrfile, precision) {
            Ok(m) => m,
            Err(e) => return Err(e),
        };
        let simbox_v = match read_matrix(xdrfile, precision) {
            Ok(m) => m,
            Err(e) => return Err(e),
        };
        Ok(SimBox { simbox, simbox_rel, simbox_v })
    }
}

} // verus!
