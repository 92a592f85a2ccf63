//! The registry of interaction kinds: the closed catalogue of kinds, their
//! numeric codes, the number of atoms taking part in each, the layout of
//! their parameters in the file, and the renumbering of codes written by
//! older format versions.

use vstd::prelude::*;

use crate::errors::ParseTprError;
use crate::structures::Precision;
use crate::errors::eof;
use crate::xdr::{count_of, i32_step, outcome, real_width, skip_step, Step, XdrFile};

verus! {

/// Number of spatial dimensions.
pub const DIM: u32 = 3;

/// Number of coefficients of the `F_RBDIHS` and `F_FOURDIHS` kinds.
pub const NR_RBDIHS: u32 = 6;

/// Number of coefficients of the `F_CBTDIHS` kind.
pub const NR_CBTDIHS: u32 = 6;

/// Number of interaction kinds.
pub const N_KINDS: i32 = 95;

/// All interaction kinds, in the order of their numeric codes.
#[allow(non_camel_case_types)]
#[derive(Debug, Clone, Copy, PartialEq, Eq, Structural)]
pub enum InteractionType {
    F_BONDS,
    F_G96BONDS,
    F_MORSE,
    F_CUBICBONDS,
    F_CONNBONDS,
    F_HARMONIC,
    F_FENEBONDS,
    F_TABBONDS,
    F_TABBONDSNC,
    F_RESTRBONDS,
    F_ANGLES,
    F_G96ANGLES,
    F_RESTRANGLES,
    F_LINEAR_ANGLES,
    F_CROSS_BOND_BONDS,
    F_CROSS_BOND_ANGLES,
    F_UREY_BRADLEY,
    F_QUARTIC_ANGLES,
    F_TABANGLES,
    F_PDIHS,
    F_RBDIHS,
    F_RESTRDIHS,
    F_CBTDIHS,
    F_FOURDIHS,
    F_IDIHS,
    F_PIDIHS,
    F_TABDIHS,
    F_CMAP,
    F_GB12_NOLONGERUSED,
    F_GB13_NOLONGERUSED,
    F_GB14_NOLONGERUSED,
    F_GBPOL_NOLONGERUSED,
    F_NPSOLVATION_NOLONGERUSED,
    F_LJ14,
    F_COUL14,
    F_LJC14_Q,
    F_LJC_PAIRS_NB,
    F_LJ,
    F_BHAM,
    F_LJ_LR_NOLONGERUSED,
    F_BHAM_LR_NOLONGERUSED,
    F_DISPCORR,
    F_COUL_SR,
    F_COUL_LR_NOLONGERUSED,
    F_RF_EXCL,
    F_COUL_RECIP,
    F_LJ_RECIP,
    F_DPD,
    F_POLARIZATION,
    F_WATER_POL,
    F_THOLE_POL,
    F_ANHARM_POL,
    F_POSRES,
    F_FBPOSRES,
    F_DISRES,
    F_DISRESVIOL,
    F_ORIRES,
    F_ORIRESDEV,
    F_ANGRES,
    F_ANGRESZ,
    F_DIHRES,
    F_DIHRESVIOL,
    F_CONSTR,
    F_CONSTRNC,
    F_SETTLE,
    F_VSITE1,
    F_VSITE2,
    F_VSITE2FD,
    F_VSITE3,
    F_VSITE3FD,
    F_VSITE3FAD,
    F_VSITE3OUT,
    F_VSITE4FD,
    F_VSITE4FDN,
    F_VSITEN,
    F_COM_PULL,
    F_DENSITYFITTING,
    F_EQM,
    F_ENNPOT,
    F_EPOT,
    F_EKIN,
    F_ETOT,
    F_ECONSERVED,
    F_TEMP,
    F_VTEMP_NOLONGERUSED,
    F_PDISPCORR,
    F_PRES,
    F_DVDL_CONSTR,
    F_DVDL,
    F_DKDL,
    F_DVDL_COUL,
    F_DVDL_VDW,
    F_DVDL_BONDED,
    F_DVDL_RESTRAINT,
    F_DVDL_TEMPERATURE,
}

/// The numeric code of a kind: its position in the catalogue.
pub open spec fn kind_code(k: InteractionType) -> int {
    match k {
        InteractionType::F_BONDS => 0,
        InteractionType::F_G96BONDS => 1,
        InteractionType::F_MORSE => 2,
        InteractionType::F_CUBICBONDS => 3,
        InteractionType::F_CONNBONDS => 4,
        InteractionType::F_HARMONIC => 5,
        InteractionType::F_FENEBONDS => 6,
        InteractionType::F_TABBONDS => 7,
        InteractionType::F_TABBONDSNC => 8,
        InteractionType::F_RESTRBONDS => 9,
        InteractionType::F_ANGLES => 10,
        InteractionType::F_G96ANGLES => 11,
        InteractionType::F_RESTRANGLES => 12,
        InteractionType::F_LINEAR_ANGLES => 13,
        InteractionType::F_CROSS_BOND_BONDS => 14,
        InteractionType::F_CROSS_BOND_ANGLES => 15,
        InteractionType::F_UREY_BRADLEY => 16,
        InteractionType::F_QUARTIC_ANGLES => 17,
        InteractionType::F_TABANGLES => 18,
        InteractionType::F_PDIHS => 19,
        InteractionType::F_RBDIHS => 20,
        InteractionType::F_RESTRDIHS => 21,
        InteractionType::F_CBTDIHS => 22,
        InteractionType::F_FOURDIHS => 23,
        InteractionType::F_IDIHS => 24,
        InteractionType::F_PIDIHS => 25,
        InteractionType::F_TABDIHS => 26,
        InteractionType::F_CMAP => 27,
        InteractionType::F_GB12_NOLONGERUSED => 28,
        InteractionType::F_GB13_NOLONGERUSED => 29,
        InteractionType::F_GB14_NOLONGERUSED => 30,
        InteractionType::F_GBPOL_NOLONGERUSED => 31,
        InteractionType::F_NPSOLVATION_NOLONGERUSED => 32,
        InteractionType::F_LJ14 => 33,
        InteractionType::F_COUL14 => 34,
        InteractionType::F_LJC14_Q => 35,
        InteractionType::F_LJC_PAIRS_NB => 36,
        InteractionType::F_LJ => 37,
        InteractionType::F_BHAM => 38,
        InteractionType::F_LJ_LR_NOLONGERUSED => 39,
        InteractionType::F_BHAM_LR_NOLONGERUSED => 40,
        InteractionType::F_DISPCORR => 41,
        InteractionType::F_COUL_SR => 42,
        InteractionType::F_COUL_LR_NOLONGERUSED => 43,
        InteractionType::F_RF_EXCL => 44,
        InteractionType::F_COUL_RECIP => 45,
        InteractionType::F_LJ_RECIP => 46,
        InteractionType::F_DPD => 47,
        InteractionType::F_POLARIZATION => 48,
        InteractionType::F_WATER_POL => 49,
        InteractionType::F_THOLE_POL => 50,
        InteractionType::F_ANHARM_POL => 51,
        InteractionType::F_POSRES => 52,
        InteractionType::F_FBPOSRES => 53,
        InteractionType::F_DISRES => 54,
        InteractionType::F_DISRESVIOL => 55,
        InteractionType::F_ORIRES => 56,
        InteractionType::F_ORIRESDEV => 57,
        InteractionType::F_ANGRES => 58,
        InteractionType::F_ANGRESZ => 59,
        InteractionType::F_DIHRES => 60,
        InteractionType::F_DIHRESVIOL => 61,
        InteractionType::F_CONSTR => 62,
        InteractionType::F_CONSTRNC => 63,
        InteractionType::F_SETTLE => 64,
        InteractionType::F_VSITE1 => 65,
        InteractionType::F_VSITE2 => 66,
        InteractionType::F_VSITE2FD => 67,
        InteractionType::F_VSITE3 => 68,
        InteractionType::F_VSITE3FD => 69,
        InteractionType::F_VSITE3FAD => 70,
        InteractionType::F_VSITE3OUT => 71,
        InteractionType::F_VSITE4FD => 72,
        InteractionType::F_VSITE4FDN => 73,
        InteractionType::F_VSITEN => 74,
        InteractionType::F_COM_PULL => 75,
        InteractionType::F_DENSITYFITTING => 76,
        InteractionType::F_EQM => 77,
        InteractionType::F_ENNPOT => 78,
        InteractionType::F_EPOT => 79,
        InteractionType::F_EKIN => 80,
        InteractionType::F_ETOT => 81,
        InteractionType::F_ECONSERVED => 82,
        InteractionType::F_TEMP => 83,
        InteractionType::F_VTEMP_NOLONGERUSED => 84,
        InteractionType::F_PDISPCORR => 85,
        InteractionType::F_PRES => 86,
        InteractionType::F_DVDL_CONSTR => 87,
        InteractionType::F_DVDL => 88,
        InteractionType::F_DKDL => 89,
        InteractionType::F_DVDL_COUL => 90,
        InteractionType::F_DVDL_VDW => 91,
        InteractionType::F_DVDL_BONDED => 92,
        InteractionType::F_DVDL_RESTRAINT => 93,
        InteractionType::F_DVDL_TEMPERATURE => 94,
    }
}

/// The kind with the given numeric code, if any.
pub open spec fn kind_of_code(c: i32) -> Option<InteractionType> {
    match c {
        0 => Some(InteractionType::F_BONDS),
        1 => Some(InteractionType::F_G96BONDS),
        2 => Some(InteractionType::F_MORSE),
        3 => Some(InteractionType::F_CUBICBONDS),
        4 => Some(InteractionType::F_CONNBONDS),
        5 => Some(InteractionType::F_HARMONIC),
        6 => Some(InteractionType::F_FENEBONDS),
        7 => Some(InteractionType::F_TABBONDS),
        8 => Some(InteractionType::F_TABBONDSNC),
        9 => Some(InteractionType::F_RESTRBONDS),
        10 => Some(InteractionType::F_ANGLES),
        11 => Some(InteractionType::F_G96ANGLES),
        12 => Some(InteractionType::F_RESTRANGLES),
        13 => Some(InteractionType::F_LINEAR_ANGLES),
        14 => Some(InteractionType::F_CROSS_BOND_BONDS),
        15 => Some(InteractionType::F_CROSS_BOND_ANGLES),
        16 => Some(InteractionType::F_UREY_BRADLEY),
        17 => Some(InteractionType::F_QUARTIC_ANGLES),
        18 => Some(InteractionType::F_TABANGLES),
        19 => Some(InteractionType::F_PDIHS),
        20 => Some(InteractionType::F_RBDIHS),
        21 => Some(InteractionType::F_RESTRDIHS),
        22 => Some(InteractionType::F_CBTDIHS),
        23 => Some(InteractionType::F_FOURDIHS),
        24 => Some(InteractionType::F_IDIHS),
        25 => Some(InteractionType::F_PIDIHS),
        26 => Some(InteractionType::F_TABDIHS),
        27 => Some(InteractionType::F_CMAP),
        28 => Some(InteractionType::F_GB12_NOLONGERUSED),
        29 => Some(InteractionType::F_GB13_NOLONGERUSED),
        30 => Some(InteractionType::F_GB14_NOLONGERUSED),
        31 => Some(InteractionType::F_GBPOL_NOLONGERUSED),
        32 => Some(InteractionType::F_NPSOLVATION_NOLONGERUSED),
        33 => Some(InteractionType::F_LJ14),
        34 => Some(InteractionType::F_COUL14),
        35 => Some(InteractionType::F_LJC14_Q),
        36 => Some(InteractionType::F_LJC_PAIRS_NB),
        37 => Some(InteractionType::F_LJ),
        38 => Some(InteractionType::F_BHAM),
        39 => Some(InteractionType::F_LJ_LR_NOLONGERUSED),
        40 => Some(InteractionType::F_BHAM_LR_NOLONGERUSED),
        41 => Some(InteractionType::F_DISPCORR),
        42 => Some(InteractionType::F_COUL_SR),
        43 => Some(InteractionType::F_COUL_LR_NOLONGERUSED),
        44 => Some(InteractionType::F_RF_EXCL),
        45 => Some(InteractionType::F_COUL_RECIP),
        46 => Some(InteractionType::F_LJ_RECIP),
        47 => Some(InteractionType::F_DPD),
        48 => Some(InteractionType::F_POLARIZATION),
        49 => Some(InteractionType::F_WATER_POL),
        50 => Some(InteractionType::F_THOLE_POL),
        51 => Some(InteractionType::F_ANHARM_POL),
        52 => Some(InteractionType::F_POSRES),
        53 => Some(InteractionType::F_FBPOSRES),
        54 => Some(InteractionType::F_DISRES),
        55 => Some(InteractionType::F_DISRESVIOL),
        56 => Some(InteractionType::F_ORIRES),
        57 => Some(InteractionType::F_ORIRESDEV),
        58 => Some(InteractionType::F_ANGRES),
        59 => Some(InteractionType::F_ANGRESZ),
        60 => Some(InteractionType::F_DIHRES),
        61 => Some(InteractionType::F_DIHRESVIOL),
        62 => Some(InteractionType::F_CONSTR),
        63 => Some(InteractionType::F_CONSTRNC),
        64 => Some(InteractionType::F_SETTLE),
        65 => Some(InteractionType::F_VSITE1),
        66 => Some(InteractionType::F_VSITE2),
        67 => Some(InteractionType::F_VSITE2FD),
        68 => Some(InteractionType::F_VSITE3),
        69 => Some(InteractionType::F_VSITE3FD),
        70 => Some(InteractionType::F_VSITE3FAD),
        71 => Some(InteractionType::F_VSITE3OUT),
        72 => Some(InteractionType::F_VSITE4FD),
        73 => Some(InteractionType::F_VSITE4FDN),
        74 => Some(InteractionType::F_VSITEN),
        75 => Some(InteractionType::F_COM_PULL),
        76 => Some(InteractionType::F_DENSITYFITTING),
        77 => Some(InteractionType::F_EQM),
        78 => Some(InteractionType::F_ENNPOT),
        79 => Some(InteractionType::F_EPOT),
        80 => Some(InteractionType::F_EKIN),
        81 => Some(InteractionType::F_ETOT),
        82 => Some(InteractionType::F_ECONSERVED),
        83 => Some(InteractionType::F_TEMP),
        84 => Some(InteractionType::F_VTEMP_NOLONGERUSED),
        85 => Some(InteractionType::F_PDISPCORR),
        86 => Some(InteractionType::F_PRES),
        87 => Some(InteractionType::F_DVDL_CONSTR),
        88 => Some(InteractionType::F_DVDL),
        89 => Some(InteractionType::F_DKDL),
        90 => Some(InteractionType::F_DVDL_COUL),
        91 => Some(InteractionType::F_DVDL_VDW),
        92 => Some(InteractionType::F_DVDL_BONDED),
        93 => Some(InteractionType::F_DVDL_RESTRAINT),
        94 => Some(InteractionType::F_DVDL_TEMPERATURE),
        _ => None,
    }
}

/// Number of atoms taking part in one interaction of the kind (0 for kinds
/// that never carry atoms).
pub open spec fn arity(k: InteractionType) -> int {
    match k {
        InteractionType::F_POSRES
        | InteractionType::F_FBPOSRES => 1,
        InteractionType::F_BONDS
        | InteractionType::F_G96BONDS
        | InteractionType::F_MORSE
        | InteractionType::F_CUBICBONDS
        | InteractionType::F_CONNBONDS
        | InteractionType::F_HARMONIC
        | InteractionType::F_FENEBONDS
        | InteractionType::F_TABBONDS
        | InteractionType::F_TABBONDSNC
        | InteractionType::F_RESTRBONDS
        | InteractionType::F_GB12_NOLONGERUSED
        | InteractionType::F_GB13_NOLONGERUSED
        | InteractionType::F_GB14_NOLONGERUSED
        | InteractionType::F_LJ14
        | InteractionType::F_LJC14_Q
        | InteractionType::F_LJC_PAIRS_NB
        | InteractionType::F_LJ
        | InteractionType::F_BHAM
        | InteractionType::F_POLARIZATION
        | InteractionType::F_ANHARM_POL
        | InteractionType::F_DISRES
        | InteractionType::F_ORIRES
        | InteractionType::F_ANGRESZ
        | InteractionType::F_CONSTR
        | InteractionType::F_CONSTRNC
        | InteractionType::F_VSITE1
        | InteractionType::F_VSITEN => 2,
        InteractionType::F_ANGLES
        | InteractionType::F_G96ANGLES
        | InteractionType::F_RESTRANGLES
        | InteractionType::F_LINEAR_ANGLES
        | InteractionType::F_CROSS_BOND_BONDS
        | InteractionType::F_CROSS_BOND_ANGLES
        | InteractionType::F_UREY_BRADLEY
        | InteractionType::F_QUARTIC_ANGLES
        | InteractionType::F_TABANGLES
        | InteractionType::F_SETTLE
        | InteractionType::F_VSITE2
        | InteractionType::F_VSITE2FD => 3,
        InteractionType::F_PDIHS
        | InteractionType::F_RBDIHS
        | InteractionType::F_RESTRDIHS
        | InteractionType::F_CBTDIHS
        | InteractionType::F_FOURDIHS
        | InteractionType::F_IDIHS
        | InteractionType::F_PIDIHS
        | InteractionType::F_TABDIHS
        | InteractionType::F_THOLE_POL
        | InteractionType::F_ANGRES
        | InteractionType::F_DIHRES
        | InteractionType::F_VSITE3
        | InteractionType::F_VSITE3FD
        | InteractionType::F_VSITE3FAD
        | InteractionType::F_VSITE3OUT => 4,
        InteractionType::F_CMAP
        | InteractionType::F_WATER_POL
        | InteractionType::F_VSITE4FD
        | InteractionType::F_VSITE4FDN => 5,
        _ => 0,
    }
}

/// Layout of the parameters of one interaction type entry of the kind, for
/// the given format version: the number of real numbers and the number of
/// other bytes to skip.
pub open spec fn param_layout(k: InteractionType, version: i32) -> (int, int) {
    match k {
        InteractionType::F_ANGLES
        | InteractionType::F_G96ANGLES
        | InteractionType::F_BONDS
        | InteractionType::F_G96BONDS
        | InteractionType::F_HARMONIC
        | InteractionType::F_IDIHS => (4, 0),
        InteractionType::F_RESTRANGLES
        | InteractionType::F_RESTRDIHS => (if version >= 134 { 4 } else { 2 }, 0),
        InteractionType::F_LINEAR_ANGLES => (4, 0),
        InteractionType::F_FENEBONDS => (2, 0),
        InteractionType::F_RESTRBONDS => (8, 0),
        InteractionType::F_TABBONDS
        | InteractionType::F_TABBONDSNC
        | InteractionType::F_TABANGLES
        | InteractionType::F_TABDIHS => (2, 4),
        InteractionType::F_CROSS_BOND_BONDS => (3, 0),
        InteractionType::F_CROSS_BOND_ANGLES => (4, 0),
        InteractionType::F_UREY_BRADLEY => (8, 0),
        InteractionType::F_QUARTIC_ANGLES => (6, 0),
        InteractionType::F_BHAM => (3, 0),
        InteractionType::F_MORSE => (6, 0),
        InteractionType::F_CUBICBONDS => (3, 0),
        InteractionType::F_POLARIZATION => (1, 0),
        InteractionType::F_ANHARM_POL => (3, 0),
        InteractionType::F_WATER_POL => (6, 0),
        InteractionType::F_THOLE_POL => (if version < 127 { 4 } else { 3 }, 0),
        InteractionType::F_LJ => (2, 0),
        InteractionType::F_LJ14 => (4, 0),
        InteractionType::F_LJC14_Q => (5, 0),
        InteractionType::F_LJC_PAIRS_NB => (4, 0),
        InteractionType::F_PDIHS
        | InteractionType::F_PIDIHS
        | InteractionType::F_ANGRES
        | InteractionType::F_ANGRESZ => (4, 4),
        InteractionType::F_DISRES => (4, 8),
        InteractionType::F_ORIRES => (3, 12),
        InteractionType::F_DIHRES => (6, 0),
        InteractionType::F_POSRES => (12, 0),
        InteractionType::F_FBPOSRES => (5, 4),
        InteractionType::F_CBTDIHS => (if version >= 134 { 12 } else { 6 }, 0),
        InteractionType::F_RBDIHS
        | InteractionType::F_FOURDIHS => (12, 0),
        InteractionType::F_CONSTR
        | InteractionType::F_CONSTRNC => (2, 0),
        InteractionType::F_SETTLE => (2, 0),
        InteractionType::F_VSITE2
        | InteractionType::F_VSITE2FD => (1, 0),
        InteractionType::F_VSITE3
        | InteractionType::F_VSITE3FD
        | InteractionType::F_VSITE3FAD => (2, 0),
        InteractionType::F_VSITE3OUT
        | InteractionType::F_VSITE4FD
        | InteractionType::F_VSITE4FDN => (3, 0),
        InteractionType::F_VSITEN => (1, 4),
        InteractionType::F_GB12_NOLONGERUSED
        | InteractionType::F_GB13_NOLONGERUSED
        | InteractionType::F_GB14_NOLONGERUSED => (if version < 113 { 5 } else { 0 }, 0),
        InteractionType::F_CMAP => (0, 8),
        _ => (0, 0),
    }
}

impl InteractionType {
    /// The numeric code of the kind.
    pub fn code(&self) -> (r: i32)
        ensures
            r == kind_code(*self),
    {
        match self {
            InteractionType::F_BONDS => 0,
            InteractionType::F_G96BONDS => 1,
            InteractionType::F_MORSE => 2,
            InteractionType::F_CUBICBONDS => 3,
            InteractionType::F_CONNBONDS => 4,
            InteractionType::F_HARMONIC => 5,
            InteractionType::F_FENEBONDS => 6,
            InteractionType::F_TABBONDS => 7,
            InteractionType::F_TABBONDSNC => 8,
            InteractionType::F_RESTRBONDS => 9,
            InteractionType::F_ANGLES => 10,
            InteractionType::F_G96ANGLES => 11,
            InteractionType::F_RESTRANGLES => 12,
            InteractionType::F_LINEAR_ANGLES => 13,
            InteractionType::F_CROSS_BOND_BONDS => 14,
            InteractionType::F_CROSS_BOND_ANGLES => 15,
            InteractionType::F_UREY_BRADLEY => 16,
            InteractionType::F_QUARTIC_ANGLES => 17,
            InteractionType::F_TABANGLES => 18,
            InteractionType::F_PDIHS => 19,
            InteractionType::F_RBDIHS => 20,
            InteractionType::F_RESTRDIHS => 21,
            InteractionType::F_CBTDIHS => 22,
            InteractionType::F_FOURDIHS => 23,
            InteractionType::F_IDIHS => 24,
            InteractionType::F_PIDIHS => 25,
            InteractionType::F_TABDIHS => 26,
            InteractionType::F_CMAP => 27,
            InteractionType::F_GB12_NOLONGERUSED => 28,
            InteractionType::F_GB13_NOLONGERUSED => 29,
            InteractionType::F_GB14_NOLONGERUSED => 30,
            InteractionType::F_GBPOL_NOLONGERUSED => 31,
            InteractionType::F_NPSOLVATION_NOLONGERUSED => 32,
            InteractionType::F_LJ14 => 33,
            InteractionType::F_COUL14 => 34,
            InteractionType::F_LJC14_Q => 35,
            InteractionType::F_LJC_PAIRS_NB => 36,
            InteractionType::F_LJ => 37,
            InteractionType::F_BHAM => 38,
            InteractionType::F_LJ_LR_NOLONGERUSED => 39,
            InteractionType::F_BHAM_LR_NOLONGERUSED => 40,
            InteractionType::F_DISPCORR => 41,
            InteractionType::F_COUL_SR => 42,
            InteractionType::F_COUL_LR_NOLONGERUSED => 43,
            InteractionType::F_RF_EXCL => 44,
            InteractionType::F_COUL_RECIP => 45,
            InteractionType::F_LJ_RECIP => 46,
            InteractionType::F_DPD => 47,
            InteractionType::F_POLARIZATION => 48,
            InteractionType::F_WATER_POL => 49,
            InteractionType::F_THOLE_POL => 50,
            InteractionType::F_ANHARM_POL => 51,
            InteractionType::F_POSRES => 52,
            InteractionType::F_FBPOSRES => 53,
            InteractionType::F_DISRES => 54,
            InteractionType::F_DISRESVIOL => 55,
            InteractionType::F_ORIRES => 56,
            InteractionType::F_ORIRESDEV => 57,
            InteractionType::F_ANGRES => 58,
            InteractionType::F_ANGRESZ => 59,
            InteractionType::F_DIHRES => 60,
            InteractionType::F_DIHRESVIOL => 61,
            InteractionType::F_CONSTR => 62,
            InteractionType::F_CONSTRNC => 63,
            InteractionType::F_SETTLE => 64,
            InteractionType::F_VSITE1 => 65,
            InteractionType::F_VSITE2 => 66,
            InteractionType::F_VSITE2FD => 67,
            InteractionType::F_VSITE3 => 68,
            InteractionType::F_VSITE3FD => 69,
            InteractionType::F_VSITE3FAD => 70,
            InteractionType::F_VSITE3OUT => 71,
            InteractionType::F_VSITE4FD => 72,
            InteractionType::F_VSITE4FDN => 73,
            InteractionType::F_VSITEN => 74,
            InteractionType::F_COM_PULL => 75,
            InteractionType::F_DENSITYFITTING => 76,
            InteractionType::F_EQM => 77,
            InteractionType::F_ENNPOT => 78,
            InteractionType::F_EPOT => 79,
            InteractionType::F_EKIN => 80,
            InteractionType::F_ETOT => 81,
            InteractionType::F_ECONSERVED => 82,
            InteractionType::F_TEMP => 83,
            InteractionType::F_VTEMP_NOLONGERUSED => 84,
            InteractionType::F_PDISPCORR => 85,
            InteractionType::F_PRES => 86,
            InteractionType::F_DVDL_CONSTR => 87,
            InteractionType::F_DVDL => 88,
            InteractionType::F_DKDL => 89,
            InteractionType::F_DVDL_COUL => 90,
            InteractionType::F_DVDL_VDW => 91,
            InteractionType::F_DVDL_BONDED => 92,
            InteractionType::F_DVDL_RESTRAINT => 93,
            InteractionType::F_DVDL_TEMPERATURE => 94,
        }
    }

    /// The kind with the given numeric code, if any.
    pub fn from_code(c: i32) -> (r: Option<InteractionType>)
        ensures
            r == kind_of_code(c),
    {
        match c {
            0 => Some(InteractionType::F_BONDS),
            1 => Some(InteractionType::F_G96BONDS),
            2 => Some(InteractionType::F_MORSE),
            3 => Some(InteractionType::F_CUBICBONDS),
            4 => Some(InteractionType::F_CONNBONDS),
            5 => Some(InteractionType::F_HARMONIC),
            6 => Some(InteractionType::F_FENEBONDS),
            7 => Some(InteractionType::F_TABBONDS),
            8 => Some(InteractionType::F_TABBONDSNC),
            9 => Some(InteractionType::F_RESTRBONDS),
            10 => Some(InteractionType::F_ANGLES),
            11 => Some(InteractionType::F_G96ANGLES),
            12 => Some(InteractionType::F_RESTRANGLES),
            13 => Some(InteractionType::F_LINEAR_ANGLES),
            14 => Some(InteractionType::F_CROSS_BOND_BONDS),
            15 => Some(InteractionType::F_CROSS_BOND_ANGLES),
            16 => Some(InteractionType::F_UREY_BRADLEY),
            17 => Some(InteractionType::F_QUARTIC_ANGLES),
            18 => Some(InteractionType::F_TABANGLES),
            19 => Some(InteractionType::F_PDIHS),
            20 => Some(InteractionType::F_RBDIHS),
            21 => Some(InteractionType::F_RESTRDIHS),
            22 => Some(InteractionType::F_CBTDIHS),
            23 => Some(InteractionType::F_FOURDIHS),
            24 => Some(InteractionType::F_IDIHS),
            25 => Some(InteractionType::F_PIDIHS),
            26 => Some(InteractionType::F_TABDIHS),
            27 => Some(InteractionType::F_CMAP),
            28 => Some(InteractionType::F_GB12_NOLONGERUSED),
            29 => Some(InteractionType::F_GB13_NOLONGERUSED),
            30 => Some(InteractionType::F_GB14_NOLONGERUSED),
            31 => Some(InteractionType::F_GBPOL_NOLONGERUSED),
            32 => Some(InteractionType::F_NPSOLVATION_NOLONGERUSED),
            33 => Some(InteractionType::F_LJ14),
            34 => Some(InteractionType::F_COUL14),
            35 => Some(InteractionType::F_LJC14_Q),
            36 => Some(InteractionType::F_LJC_PAIRS_NB),
            37 => Some(InteractionType::F_LJ),
            38 => Some(InteractionType::F_BHAM),
            39 => Some(InteractionType::F_LJ_LR_NOLONGERUSED),
            40 => Some(InteractionType::F_BHAM_LR_NOLONGERUSED),
            41 => Some(InteractionType::F_DISPCORR),
            42 => Some(InteractionType::F_COUL_SR),
            43 => Some(InteractionType::F_COUL_LR_NOLONGERUSED),
            44 => Some(InteractionType::F_RF_EXCL),
            45 => Some(InteractionType::F_COUL_RECIP),
            46 => Some(InteractionType::F_LJ_RECIP),
            47 => Some(InteractionType::F_DPD),
            48 => Some(InteractionType::F_POLARIZATION),
            49 => Some(InteractionType::F_WATER_POL),
            50 => Some(InteractionType::F_THOLE_POL),
            51 => Some(InteractionType::F_ANHARM_POL),
            52 => Some(InteractionType::F_POSRES),
            53 => Some(InteractionType::F_FBPOSRES),
            54 => Some(InteractionType::F_DISRES),
            55 => Some(InteractionType::F_DISRESVIOL),
            56 => Some(InteractionType::F_ORIRES),
            57 => Some(InteractionType::F_ORIRESDEV),
            58 => Some(InteractionType::F_ANGRES),
            59 => Some(InteractionType::F_ANGRESZ),
            60 => Some(InteractionType::F_DIHRES),
            61 => Some(InteractionType::F_DIHRESVIOL),
            62 => Some(InteractionType::F_CONSTR),
            63 => Some(InteractionType::F_CONSTRNC),
            64 => Some(InteractionType::F_SETTLE),
            65 => Some(InteractionType::F_VSITE1),
            66 => Some(InteractionType::F_VSITE2),
            67 => Some(InteractionType::F_VSITE2FD),
            68 => Some(InteractionType::F_VSITE3),
            69 => Some(InteractionType::F_VSITE3FD),
            70 => Some(InteractionType::F_VSITE3FAD),
            71 => Some(InteractionType::F_VSITE3OUT),
            72 => Some(InteractionType::F_VSITE4FD),
            73 => Some(InteractionType::F_VSITE4FDN),
            74 => Some(InteractionType::F_VSITEN),
            75 => Some(InteractionType::F_COM_PULL),
            76 => Some(InteractionType::F_DENSITYFITTING),
            77 => Some(InteractionType::F_EQM),
            78 => Some(InteractionType::F_ENNPOT),
            79 => Some(InteractionType::F_EPOT),
            80 => Some(InteractionType::F_EKIN),
            81 => Some(InteractionType::F_ETOT),
            82 => Some(InteractionType::F_ECONSERVED),
            83 => Some(InteractionType::F_TEMP),
            84 => Some(InteractionType::F_VTEMP_NOLONGERUSED),
            85 => Some(InteractionType::F_PDISPCORR),
            86 => Some(InteractionType::F_PRES),
            87 => Some(InteractionType::F_DVDL_CONSTR),
            88 => Some(InteractionType::F_DVDL),
            89 => Some(InteractionType::F_DKDL),
            90 => Some(InteractionType::F_DVDL_COUL),
            91 => Some(InteractionType::F_DVDL_VDW),
            92 => Some(InteractionType::F_DVDL_BONDED),
            93 => Some(InteractionType::F_DVDL_RESTRAINT),
            94 => Some(InteractionType::F_DVDL_TEMPERATURE),
            _ => None,
        }
    }

    /// Get the number of interacting atoms for this kind.
    pub fn n_interacting_atoms(&self) -> (r: i32)
        ensures
            r == arity(*self),
    {
        match self {
            InteractionType::F_POSRES
            | InteractionType::F_FBPOSRES => 1,
            InteractionType::F_BONDS
            | InteractionType::F_G96BONDS
            | InteractionType::F_MORSE
            | InteractionType::F_CUBICBONDS
            | InteractionType::F_CONNBONDS
            | InteractionType::F_HARMONIC
            | InteractionType::F_FENEBONDS
            | InteractionType::F_TABBONDS
            | InteractionType::F_TABBONDSNC
            | InteractionType::F_RESTRBONDS
            | InteractionType::F_GB12_NOLONGERUSED
            | InteractionType::F_GB13_NOLONGERUSED
            | InteractionType::F_GB14_NOLONGERUSED
            | InteractionType::F_LJ14
            | InteractionType::F_LJC14_Q
            | InteractionType::F_LJC_PAIRS_NB
            | InteractionType::F_LJ
            | InteractionType::F_BHAM
            | InteractionType::F_POLARIZATION
            | InteractionType::F_ANHARM_POL
            | InteractionType::F_DISRES
            | InteractionType::F_ORIRES
            | InteractionType::F_ANGRESZ
            | InteractionType::F_CONSTR
            | InteractionType::F_CONSTRNC
            | InteractionType::F_VSITE1
            | InteractionType::F_VSITEN => 2,
            InteractionType::F_ANGLES
            | InteractionType::F_G96ANGLES
            | InteractionType::F_RESTRANGLES
            | InteractionType::F_LINEAR_ANGLES
            | InteractionType::F_CROSS_BOND_BONDS
            | InteractionType::F_CROSS_BOND_ANGLES
            | InteractionType::F_UREY_BRADLEY
            | InteractionType::F_QUARTIC_ANGLES
            | InteractionType::F_TABANGLES
            | InteractionType::F_SETTLE
            | InteractionType::F_VSITE2
            | InteractionType::F_VSITE2FD => 3,
            InteractionType::F_PDIHS
            | InteractionType::F_RBDIHS
            | InteractionType::F_RESTRDIHS
            | InteractionType::F_CBTDIHS
            | InteractionType::F_FOURDIHS
            | InteractionType::F_IDIHS
            | InteractionType::F_PIDIHS
            | InteractionType::F_TABDIHS
            | InteractionType::F_THOLE_POL
            | InteractionType::F_ANGRES
            | InteractionType::F_DIHRES
            | InteractionType::F_VSITE3
            | InteractionType::F_VSITE3FD
            | InteractionType::F_VSITE3FAD
            | InteractionType::F_VSITE3OUT => 4,
            InteractionType::F_CMAP
            | InteractionType::F_WATER_POL
            | InteractionType::F_VSITE4FD
            | InteractionType::F_VSITE4FDN => 5,
            _ => 0,
        }
    }

    /// The layout of the parameters of one interaction type entry of this
    /// kind: the number of real numbers and the number of other bytes.
    pub fn parameter_layout(&self, version: i32) -> (r: (u32, u32))
        ensures
            r.0 == param_layout(*self, version).0,
            r.1 == param_layout(*self, version).1,
    {
        match self {
            InteractionType::F_ANGLES
            | InteractionType::F_G96ANGLES
            | InteractionType::F_BONDS
            | InteractionType::F_G96BONDS
            | InteractionType::F_HARMONIC
            | InteractionType::F_IDIHS => (4, 0),
            InteractionType::F_RESTRANGLES
            | InteractionType::F_RESTRDIHS => (if version >= 134 { 4 } else { 2 }, 0),
            InteractionType::F_LINEAR_ANGLES => (4, 0),
            InteractionType::F_FENEBONDS => (2, 0),
            InteractionType::F_RESTRBONDS => (8, 0),
            InteractionType::F_TABBONDS
            | InteractionType::F_TABBONDSNC
            | InteractionType::F_TABANGLES
            | InteractionType::F_TABDIHS => (2, 4),
            InteractionType::F_CROSS_BOND_BONDS => (3, 0),
            InteractionType::F_CROSS_BOND_ANGLES => (4, 0),
            InteractionType::F_UREY_BRADLEY => (8, 0),
            InteractionType::F_QUARTIC_ANGLES => (6, 0),
            InteractionType::F_BHAM => (3, 0),
            InteractionType::F_MORSE => (6, 0),
            InteractionType::F_CUBICBONDS => (3, 0),
            InteractionType::F_POLARIZATION => (1, 0),
            InteractionType::F_ANHARM_POL => (3, 0),
            InteractionType::F_WATER_POL => (6, 0),
            InteractionType::F_THOLE_POL => (if version < 127 { 4 } else { 3 }, 0),
            InteractionType::F_LJ => (2, 0),
            InteractionType::F_LJ14 => (4, 0),
            InteractionType::F_LJC14_Q => (5, 0),
            InteractionType::F_LJC_PAIRS_NB => (4, 0),
            InteractionType::F_PDIHS
            | InteractionType::F_PIDIHS
            | InteractionType::F_ANGRES
            | InteractionType::F_ANGRESZ => (4, 4),
            InteractionType::F_DISRES => (4, 8),
            InteractionType::F_ORIRES => (3, 12),
            InteractionType::F_DIHRES => (6, 0),
            InteractionType::F_POSRES => (4 * DIM, 0),
            InteractionType::F_FBPOSRES => (2 + DIM, 4),
            InteractionType::F_CBTDIHS => (if version >= 134 { 2 * NR_CBTDIHS } else { NR_CBTDIHS }, 0),
            InteractionType::F_RBDIHS
            | InteractionType::F_FOURDIHS => (2 * NR_RBDIHS, 0),
            InteractionType::F_CONSTR
            | InteractionType::F_CONSTRNC => (2, 0),
            InteractionType::F_SETTLE => (2, 0),
            InteractionType::F_VSITE2
            | InteractionType::F_VSITE2FD => (1, 0),
            InteractionType::F_VSITE3
            | InteractionType::F_VSITE3FD
            | InteractionType::F_VSITE3FAD => (2, 0),
            InteractionType::F_VSITE3OUT
            | InteractionType::F_VSITE4FD
            | InteractionType::F_VSITE4FDN => (3, 0),
            InteractionType::F_VSITEN => (1, 4),
            InteractionType::F_GB12_NOLONGERUSED
            | InteractionType::F_GB13_NOLONGERUSED
            | InteractionType::F_GB14_NOLONGERUSED => (if version < 113 { 5 } else { 0 }, 0),
            InteractionType::F_CMAP => (0, 8),
            _ => (0, 0),
        }
    }
}

/// A kind's code lies in the catalogue and names the kind back.
pub proof fn lemma_kind_code(k: InteractionType)
    ensures
        0 <= kind_code(k) < N_KINDS,
        kind_of_code(kind_code(k) as i32) == Some(k),
{
}

/// Every code of the catalogue names a kind with that code.
pub proof fn lemma_code_kind(c: int)
    requires
        0 <= c < N_KINDS,
    ensures
        kind_of_code(c as i32) matches Some(k) && kind_code(k) == c,
{
}

/// The renumbering rows: `(file version, code)`.  A file older than the
/// version was written before a kind was inserted at that code.
pub open spec fn ft_rows() -> Seq<(i32, i32)> {
    seq![(121i32, 65i32), (118i32, 67i32), (117i32, 76i32), (137i32, 78i32)]
}

/// Number of rows of `rows` that shift the raw code `code` of a file of the
/// given version: those with a later version and a code at most `code`.
pub open spec fn corrections(rows: Seq<(i32, i32)>, code: int, version: int) -> int
    decreases rows.len(),
{
    if rows.len() == 0 {
        0
    } else {
        corrections(rows.drop_last(), code, version) + if version < rows.last().0 && code
            >= rows.last().1 {
            1int
        } else {
            0int
        }
    }
}

/// The current code of a raw code written by a file of the given version.
pub open spec fn renumbered(code: int, version: int) -> int {
    code + corrections(ft_rows(), code, version)
}

/// Kinds whose code had not yet been given its own kind in a file of the
/// given version: such a file stores nothing for them.
pub open spec fn not_yet_distinct(k: InteractionType, version: int) -> bool {
    exists|i: int| 0 <= i < ft_rows().len() && version < (#[trigger] ft_rows()[i]).0 && kind_code(k) == ft_rows()[i].1
}

/// Takes care of updating the interaction type numbers.
pub struct FTUpdater {
    /// Rows `(file version, interaction type code)`.
    pub update: Vec<(i32, i32)>,
}

impl FTUpdater {
    /// The renumbering table.
    pub fn default() -> (r: Self)
        ensures
            r.update@ == ft_rows(),
    {
        let r = FTUpdater { update: vec![(121, 65), (118, 67), (117, 76), (137, 78)] };
        assert(r.update@ =~= ft_rows());
        r
    }

    /// The current code of the raw code `code` written by a file of version
    /// `tpr_version`: one more for each row that applies to the raw code.
    pub fn renumber(&self, code: i32, tpr_version: i32) -> (r: i64)
        requires
            self.update@ == ft_rows(),
        ensures
            r == renumbered(code as int, tpr_version as int),
            code <= r <= code + 4,
    {
        let mut c: i64 = code as i64;
        let mut i: usize = 0;
        while i < self.update.len()
            invariant
                self.update@ == ft_rows(),
                i <= self.update@.len(),
                c == code + corrections(ft_rows().take(i as int), code as int, tpr_version as int),
                code <= c <= code + i,
            decreases self.update@.len() - i,
        {
            let (version, number) = self.update[i];
            proof {
                assert(ft_rows().take(i + 1).drop_last() =~= ft_rows().take(i as int));
            }
            if tpr_version < version && code >= number {
                c = c + 1;
            }
            i = i + 1;
        }
        proof {
            assert(ft_rows().take(i as int) =~= ft_rows());
        }
        c
    }

    /// Does a file of version `tpr_version` store nothing for kind `k`?
    pub fn skips(&self, k: InteractionType, tpr_version: i32) -> (r: bool)
        requires
            self.update@ == ft_rows(),
        ensures
            r == not_yet_distinct(k, tpr_version as int),
    {
        let code = k.code();
        let mut i: usize = 0;
        while i < self.update.len()
            invariant
                self.update@ == ft_rows(),
                i <= self.update@.len(),
                code == kind_code(k),
                forall|j: int| 0 <= j < i ==> !(tpr_version < (#[trigger] ft_rows()[j]).0 && code == ft_rows()[j].1),
            decreases self.update@.len() - i,
        {
            let (version, number) = self.update[i];
            if tpr_version < version && code == number {
                assert(tpr_version < ft_rows()[i as int].0 && code == ft_rows()[i as int].1);
                return true;
            }
            i = i + 1;
        }
        false
    }
}

/// Number of bytes of the parameters of one interaction type entry.
pub open spec fn param_size(k: InteractionType, precision: Precision, version: i32) -> int {
    param_layout(k, version).1 + param_layout(k, version).0 * real_width(precision)
}

/// Skip the parameters of one interaction type entry of kind `interaction_type`.
/// The parameters are not needed for the topology.
pub fn get_params(
    xdrfile: &mut XdrFile,
    interaction_type: InteractionType,
    precision: Precision,
    tpr_version: i32,
) -> (r: Result<(), ParseTprError>)
    ensures
        final(xdrfile).bytes() == old(xdrfile).bytes(),
        outcome(
            r,
            final(xdrfile).at(),
            skip_step(old(xdrfile).bytes(), old(xdrfile).at(), param_size(interaction_type, precision, tpr_version)),
        ),
{
    let (n_reals, n_bytes) = interaction_type.parameter_layout(tpr_version);
    match xdrfile.jump(n_bytes as i64) {
        Ok(()) => {},
        Err(e) => return Err(e),
    }
    xdrfile.skip_multiple_reals(precision, n_reals as i64)
}

/// Structure representing the force-field parameters of the TPR file.
/// Only the kinds of the interaction type entries are kept.
pub struct FFParams {
    pub interaction_types: Vec<InteractionType>,
}

/// The raw code of the `i`-th interaction type entry of a registry at `p`.
pub open spec fn raw_code(b: Seq<u8>, p: int, i: int) -> int {
    crate::xdr::be_i32(b, p + 8 + 4 * i)
}

/// A code as an error reports it: clamped to the `i32` range from above.
pub open spec fn shown(c: int) -> i32 {
    if c > i32::MAX {
        i32::MAX
    } else {
        c as i32
    }
}

/// The parameters at `p` of the first `n` interaction type entries whose
/// raw codes are `raw`: each code is renumbered, must name a kind, and the
/// kind's parameters are skipped.
pub open spec fn entries_step(
    b: Seq<u8>,
    p: int,
    precision: Precision,
    version: i32,
    raw: Seq<int>,
    n: int,
) -> Step<Seq<InteractionType>>
    decreases n,
{
    if n <= 0 {
        Ok((seq![], p))
    } else {
        match entries_step(b, p, precision, version, raw, n - 1) {
            Ok((ks, q)) => {
                let c = renumbered(raw[n - 1], version as int);
                if !(0 <= c < N_KINDS) {
                    Err(ParseTprError::UnknownInteractionKind(shown(c)))
                } else {
                    let k = kind_of_code(c as i32)->Some_0;
                    match skip_step(b, q, param_size(k, precision, version)) {
                        Ok((_, e)) => Ok((ks.push(k), e)),
                        Err(e) => Err(e),
                    }
                }
            },
            Err(e) => Err(e),
        }
    }
}

/// The registry at `p`: the number of atom types (ignored), the number of
/// interaction type entries and their raw codes, the repulsion power (a
/// double) and the fudge factor (ignored), then the entries' parameters.
pub open spec fn ffparams_step(b: Seq<u8>, p: int, precision: Precision, version: i32) -> Step<Seq<InteractionType>> {
    match i32_step(b, p + 4) {
        Err(e) => Err(e),
        Ok((n, q)) => {
            let m = count_of(n);
            let start = q + 4 * m + 8 + real_width(precision);
            if start <= b.len() {
                entries_step(b, start, precision, version, Seq::new(m as nat, |i: int| raw_code(b, p, i)), m)
            } else {
                Err(eof())
            }
        },
    }
}

pub proof fn lemma_entries_fail(
    b: Seq<u8>,
    p: int,
    precision: Precision,
    version: i32,
    raw: Seq<int>,
    k: int,
    n: int,
)
    requires
        0 <= k <= n,
        entries_step(b, p, precision, version, raw, k) is Err,
    ensures
        entries_step(b, p, precision, version, raw, n) == entries_step(b, p, precision, version, raw, k),
    decreases n - k,
{
    if k < n {
        lemma_entries_fail(b, p, precision, version, raw, k, n - 1);
    }
}

impl FFParams {
    /// Get `FFParams` from `XdrFile`: the number of atom types (ignored),
    /// the raw codes of the interaction type entries, two scalars (ignored),
    /// and the parameters of each entry (skipped).  Each raw code is
    /// renumbered for the file's version and must name a kind.
    pub fn parse(xdrfile: &mut XdrFile, precision: Precision, tpr_version: i32) -> (r: Result<Self, ParseTprError>)
        ensures
            final(xdrfile).bytes() == old(xdrfile).bytes(),
            match ffparams_step(old(xdrfile).bytes(), old(xdrfile).at(), precision, tpr_version) {
                Ok((ks, e)) => (r matches Ok(ff) && ff.interaction_types@ == ks) && final(xdrfile).at() == e,
                Err(e) => r == Err::<Self, ParseTprError>(e),
            },
    {
        let ghost b = xdrfile.bytes();
        let ghost p = xdrfile.at();
        // the number of atom types is not needed
        match xdrfile.jump(4) {
            Ok(()) => {},
            Err(e) => return Err(e),
        }
        let n_interaction_types = match xdrfile.read_i32() {
            Ok(n) => n,
            Err(e) => return Err(e),
        };
        let ghost m = count_of(n_interaction_types);
        let ghost raw = Seq::new(m as nat, |i: int| raw_code(b, p, i));
        let mut codes: Vec<i32> = Vec::new();
        let mut i: i32 = 0;
        while i < n_interaction_types
            invariant
                xdrfile.bytes() == b,
                b == old(xdrfile).bytes(),
                p == old(xdrfile).at(),
                i32_step(b, p + 4) == Ok::<(i32, int), ParseTprError>((n_interaction_types, p + 8)),
                m == count_of(n_interaction_types),
                0 <= i <= n_interaction_types || (i == 0 && n_interaction_types < 0),
                codes@.len() == i,
                xdrfile.at() == p + 8 + 4 * i,
                forall|j: int| 0 <= j < i ==> codes@[j] == raw_code(b, p, j),
            decreases n_interaction_types - i,
        {
            let c = match xdrfile.read_i32() {
                Ok(c) => c,
                Err(e) => return Err(e),
            };
            codes.push(c);
            i = i + 1;
        }
        // repulsion power (always double) and the fudge factor
        match xdrfile.jump(8) {
            Ok(()) => {},
            Err(e) => return Err(e),
        }
        match xdrfile.skip_real(precision) {
            Ok(()) => {},
            Err(e) => return Err(e),
        }
        let ghost start = xdrfile.at();
        let updater = FTUpdater::default();
        let mut interaction_types: Vec<InteractionType> = Vec::new();
        let mut j: usize = 0;
        while j < codes.len()
            invariant
                xdrfile.bytes() == b,
                b == old(xdrfile).bytes(),
                p == old(xdrfile).at(),
                i32_step(b, p + 4) == Ok::<(i32, int), ParseTprError>((n_interaction_types, p + 8)),
                m == count_of(n_interaction_types),
                raw == Seq::new(m as nat, |i: int| raw_code(b, p, i)),
                start == p + 8 + 4 * m + 8 + real_width(precision),
                start <= b.len(),
                updater.update@ == ft_rows(),
                codes@.len() == m,
                j <= codes@.len(),
                forall|k: int| 0 <= k < codes@.len() ==> codes@[k] == raw_code(b, p, k),
                entries_step(b, start, precision, tpr_version, raw, j as int) == Ok::<
                    (Seq<InteractionType>, int),
                    ParseTprError,
                >((interaction_types@, xdrfile.at())),
            decreases codes@.len() - j,
        {
            let code = updater.renumber(codes[j], tpr_version);
            if code < 0 || code >= N_KINDS as i64 {
                let shown_code: i32 = if code > i32::MAX as i64 {
                    i32::MAX
                } else {
                    code as i32
                };
                proof {
                    lemma_entries_fail(b, start, precision, tpr_version, raw, j + 1, m);
                }
                return Err(ParseTprError::UnknownInteractionKind(shown_code));
            }
            proof {
                lemma_code_kind(code as int);
            }
            let kind = match InteractionType::from_code(code as i32) {
                Some(k) => k,
                None => return Err(ParseTprError::UnknownInteractionKind(code as i32)),
            };
            match get_params(xdrfile, kind, precision, tpr_version) {
                Ok(()) => {},
                Err(e) => {
                    proof {
                        lemma_entries_fail(b, start, precision, tpr_version, raw, j + 1, m);
                    }
                    return Err(e);
                },
            }
            interaction_types.push(kind);
            j = j + 1;
        }
        Ok(FFParams { interaction_types })
    }
}

} // verus!
