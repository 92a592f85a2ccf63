//! The file header.

use vstd::prelude::*;

use crate::errors::{eof, ParseTprError};
use crate::structures::{Precision, Real, TprHeader};
use crate::xdr::{be_i32, be_i64, be_u32, i32_step, real_at, real_width, string4_step, Step, NARROW_VERSION, XdrFile};

verus! {

/// Oldest supported format version.
pub const MIN_VERSION: i32 = 103;

/// First format generation that stores the body size (with version 119 on).
pub const BODY_SIZE_GENERATION: i32 = 27;

/// `pat` occurs in `s` as a contiguous run of characters.
pub open spec fn occurs(pat: Seq<char>, s: Seq<char>) -> bool {
    exists|i: int| 0 <= i && i + pat.len() <= s.len() && #[trigger] s.subrange(i, i + pat.len()) == pat
}

/// The marker that the leading string of every tpr file holds.
pub open spec fn marker() -> Seq<char> {
    seq!['V', 'E', 'R', 'S', 'I', 'O', 'N']
}

/// Relies on str::contains with a string pattern: true exactly when the
/// pattern occurs in `s` as a contiguous run of characters.
#[verifier::external_body]
fn str_contains(s: &str, pat: &str) -> (r: bool)
    ensures
        r == occurs(pat@, s@),
{
    s.contains(pat)
}

/// The error that the start of a header at `p` gives, if any: a failed
/// read of the leading string, a leading string without the marker, a
/// precision other than 4 or 8, or a version older than 103.
pub open spec fn header_error(b: Seq<u8>, p: int) -> Option<ParseTprError> {
    match string4_step(b, p) {
        Err(e) => Some(e),
        Ok((s, q)) => if !occurs(marker(), s) {
            Some(ParseTprError::NotTpr)
        } else {
            match i32_step(b, q) {
                Err(e) => Some(e),
                Ok((precision, q1)) => if precision != 4 && precision != 8 {
                    Some(ParseTprError::UnsupportedPrecision(precision))
                } else {
                    match i32_step(b, q1) {
                        Err(e) => Some(e),
                        Ok((version, _)) => if version < MIN_VERSION {
                            Some(ParseTprError::UnsupportedVersion(version))
                        } else {
                            None
                        },
                    }
                }
            }
        },
    }
}

/// A header as plain values.
pub struct HeaderModel {
    pub gromacs_version: Seq<char>,
    pub precision: Precision,
    pub tpr_version: i32,
    pub tpr_generation: i32,
    pub file_tag: Seq<char>,
    pub n_atoms: i32,
    pub n_coupling_groups: i32,
    pub fep_state: i32,
    pub lambda: Real,
    pub has_input_record: bool,
    pub has_topology: bool,
    pub has_positions: bool,
    pub has_velocities: bool,
    pub has_forces: bool,
    pub has_box: bool,
    pub body_size: Option<i64>,
}

/// The plain values of a header.
pub open spec fn header_view(h: TprHeader) -> HeaderModel {
    HeaderModel {
        gromacs_version: h.gromacs_version@,
        precision: h.precision,
        tpr_version: h.tpr_version,
        tpr_generation: h.tpr_generation,
        file_tag: h.file_tag@,
        n_atoms: h.n_atoms,
        n_coupling_groups: h.n_coupling_groups,
        fep_state: h.fep_state,
        lambda: h.lambda,
        has_input_record: h.has_input_record,
        has_topology: h.has_topology,
        has_positions: h.has_positions,
        has_velocities: h.has_velocities,
        has_forces: h.has_forces,
        has_box: h.has_box,
        body_size: h.body_size,
    }
}

/// The header at `p`: the version string (which must hold the marker), the
/// precision (4 or 8), the format version (at least 103) and generation,
/// the file tag, the atom count, the number of coupling groups, the
/// alchemical state, lambda, six presence flags, and the body size (from
/// version 119 and generation 27 on).
#[verifier::opaque]
pub open spec fn header_step(b: Seq<u8>, p: int) -> Step<HeaderModel> {
    match header_error(b, p) {
        Some(e) => Err(e),
        None => match string4_step(b, p) {
            Err(e) => Err(e),
            Ok((s, q)) => {
                let precision = if be_i32(b, q) == 4 {
                    Precision::Single
                } else {
                    Precision::Double
                };
                let version = be_i32(b, q + 4) as i32;
                let generation = be_i32(b, q + 8) as i32;
                match string4_step(b, q + 12) {
                    Err(e) => Err(e),
                    Ok((t, q3)) => {
                        let f = q3 + 12 + real_width(precision);
                        let has_body = version >= NARROW_VERSION && generation >= BODY_SIZE_GENERATION;
                        let end = f + 24 + if has_body {
                            8int
                        } else {
                            0int
                        };
                        if end > b.len() {
                            Err(eof())
                        } else {
                            Ok(
                                (
                                    HeaderModel {
                                        gromacs_version: s,
                                        precision,
                                        tpr_version: version,
                                        tpr_generation: generation,
                                        file_tag: t,
                                        n_atoms: be_i32(b, q3) as i32,
                                        n_coupling_groups: be_i32(b, q3 + 4) as i32,
                                        fep_state: be_i32(b, q3 + 8) as i32,
                                        lambda: real_at(b, q3 + 12, precision),
                                        has_input_record: be_u32(b, f) != 0,
                                        has_topology: be_u32(b, f + 4) != 0,
                                        has_positions: be_u32(b, f + 8) != 0,
                                        has_velocities: be_u32(b, f + 12) != 0,
                                        has_forces: be_u32(b, f + 16) != 0,
                                        has_box: be_u32(b, f + 20) != 0,
                                        body_size: if has_body {
                                            Some(be_i64(b, f + 24) as i64)
                                        } else {
                                            None
                                        },
                                    },
                                    end,
                                ),
                            )
                        }
                    },
                }
            },
        },
    }
}

impl TprHeader {
    /// Get the header from a tpr file.
    pub fn parse(xdrfile: &mut XdrFile) -> (r: Result<TprHeader, ParseTprError>)
        ensures
            final(xdrfile).bytes() == old(xdrfile).bytes(),
            header_error(old(xdrfile).bytes(), old(xdrfile).at()) matches Some(e) ==> r == Err::<
                TprHeader,
                ParseTprError,
            >(e),
            match header_step(old(xdrfile).bytes(), old(xdrfile).at()) {
                Ok((hm, e)) => (r matches Ok(h) && header_view(h) == hm) && final(xdrfile).at() == e,
                Err(e) => r == Err::<TprHeader, ParseTprError>(e),
            },
    {
        reveal(header_step);
        let ghost b = xdrfile.bytes();
        let ghost p = xdrfile.at();
        // the Gromacs version that wrote the file
        let gromacs_version = match xdrfile.read_string_4byte() {
            Ok(s) => s,
            Err(e) => return Err(e),
        };
        proof {
            reveal_strlit("VERSION");
            assert("VERSION"@ =~= marker());
        }
        if !str_contains(gromacs_version.as_str(), "VERSION") {
            return Err(ParseTprError::NotTpr);
        }
        let precision = match xdrfile.read_i32() {
            Ok(4) => Precision::Single,
            Ok(8) => Precision::Double,
            Ok(x) => return Err(ParseTprError::UnsupportedPrecision(x)),
            Err(e) => return Err(e),
        };
        let tpr_version = match xdrfile.read_i32() {
            Ok(v) => v,
            Err(e) => return Err(e),
        };
        if tpr_version < MIN_VERSION {
            return Err(ParseTprError::UnsupportedVersion(tpr_version));
        }
        let tpr_generation = match xdrfile.read_i32() {
            Ok(v) => v,
            Err(e) => return Err(e),
        };
        let file_tag = match xdrfile.read_string_4byte() {
            Ok(s) => s,
            Err(e) => return Err(e),
        };
        let n_atoms = match xdrfile.read_i32() {
            Ok(v) => v,
            Err(e) => return Err(e),
        };
        let n_coupling_groups = match xdrfile.read_i32() {
            Ok(v) => v,
            Err(e) => return Err(e),
        };
        let fep_state = match xdrfile.read_i32() {
            Ok(v) => v,
            Err(e) => return Err(e),
        };
        let lambda = match xdrfile.read_real(precision) {
            Ok(v) => v,
            Err(e) => return Err(e),
        };
        let has_input_record = match xdrfile.read_bool_header() {
            Ok(v) => v,
            Err(e) => return Err(e),
        };
        let has_topology = match xdrfile.read_bool_header() {
            Ok(v) => v,
            Err(e) => return Err(e),
        };
        let has_positions = match xdrfile.read_bool_header() {
            Ok(v) => v,
            Err(e) => return Err(e),
        };
        let has_velocities = match xdrfile.read_bool_header() {
            Ok(v) => v,
            Err(e) => return Err(e),
        };
        let has_forces = match xdrfile.read_bool_header() {
            Ok(v) => v,
            Err(e) => return Err(e),
        };
        let has_box = match xdrfile.read_bool_header() {
            Ok(v) => v,
            Err(e) => return Err(e),
        };
        // the size of the body (version >= 119 and generation >= 27)
        let body_size = if tpr_version >= NARROW_VERSION && tpr_generation >= BODY_SIZE_GENERATION {
            match xdrfile.read_i64() {
                Ok(v) => Some(v),
                Err(e) => return Err(e),
            }
        } else {
            None
        };
        Ok(
            TprHeader {
                gromacs_version,
                precision,
                tpr_version,
                tpr_generation,
                file_tag,
                n_atoms,
                n_coupling_groups,
                fep_state,
                lambda,
                has_input_record,
                has_topology,
                has_positions,
                has_velocities,
                has_forces,
                has_box,
                body_size,
            },
        )
    }
}

} // verus!
