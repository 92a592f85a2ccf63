use minitpr::elements::from_atom_number;
use minitpr::ffparams::{FFParams, FTUpdater, InteractionType};
use minitpr::interactions::{read_kind, Interaction};
use minitpr::moltypes::{MoleculeTypeAtom, MoleculeTypeResidue};
use minitpr::xdr::{bytes2string, XdrFile};
use minitpr::{Atom, Bond, ParseTprError, Precision, ReadError, Real};

#[test]
fn bytes2string_stops_at_nul() {
    assert_eq!(bytes2string(b"abc\0def").unwrap(), "abc");
    assert_eq!(bytes2string(b"release").unwrap(), "release");
    assert_eq!(bytes2string(b"\0\0\0").unwrap(), "");
    assert_eq!(bytes2string(b"").unwrap(), "");
}

#[test]
fn bytes2string_rejects_invalid_utf8() {
    assert_eq!(
        bytes2string(&[0x61, 0xff, 0x62]),
        Err(ParseTprError::CouldNotRead(ReadError::InvalidText))
    );
    // invalid bytes after the NUL are not part of the text
    assert_eq!(bytes2string(&[0x61, 0x00, 0xff]).unwrap(), "a");
    assert_eq!(bytes2string("Å".as_bytes()).unwrap(), "Å");
}

#[test]
fn element_lookup() {
    assert_eq!(from_atom_number(1), Some(mendeleev::Element::H));
    assert_eq!(from_atom_number(8), Some(mendeleev::Element::O));
    assert_eq!(from_atom_number(17), Some(mendeleev::Element::Cl));
    assert_eq!(from_atom_number(118), Some(mendeleev::Element::Og));
    assert_eq!(from_atom_number(119), None);
    assert_eq!(from_atom_number(0), None);
    assert_eq!(from_atom_number(-1), None);
}

#[test]
fn renumbering_table() {
    let u = FTUpdater::default();
    assert_eq!(u.update, vec![(121, 65), (118, 67), (117, 76), (137, 78)]);
    // version 103 precedes every row
    assert_eq!(u.renumber(64, 103), 64);
    assert_eq!(u.renumber(65, 103), 66);
    assert_eq!(u.renumber(66, 103), 67);
    assert_eq!(u.renumber(67, 103), 69);
    assert_eq!(u.renumber(80, 103), 84);
    // version 122 precedes only the last row
    assert_eq!(u.renumber(77, 122), 77);
    assert_eq!(u.renumber(78, 122), 79);
    // version 137 precedes none
    assert_eq!(u.renumber(90, 137), 90);
    assert!(u.skips(InteractionType::F_VSITE1, 103));
    assert!(!u.skips(InteractionType::F_VSITE1, 121));
    assert!(u.skips(InteractionType::F_ENNPOT, 136));
    assert!(!u.skips(InteractionType::F_BONDS, 103));
}

#[test]
fn kind_codes_round_trip() {
    for c in 0..95 {
        assert_eq!(InteractionType::from_code(c).unwrap().code(), c);
    }
    assert!(InteractionType::from_code(95).is_none());
    assert!(InteractionType::from_code(-1).is_none());
    assert_eq!(InteractionType::from_code(64), Some(InteractionType::F_SETTLE));
}

#[test]
fn arities() {
    assert_eq!(InteractionType::F_POSRES.n_interacting_atoms(), 1);
    assert_eq!(InteractionType::F_BONDS.n_interacting_atoms(), 2);
    assert_eq!(InteractionType::F_SETTLE.n_interacting_atoms(), 3);
    assert_eq!(InteractionType::F_PDIHS.n_interacting_atoms(), 4);
    assert_eq!(InteractionType::F_CMAP.n_interacting_atoms(), 5);
    assert_eq!(InteractionType::F_EPOT.n_interacting_atoms(), 0);
}

#[test]
fn parameter_layouts() {
    assert_eq!(InteractionType::F_BONDS.parameter_layout(122), (4, 0));
    assert_eq!(InteractionType::F_RESTRANGLES.parameter_layout(133), (2, 0));
    assert_eq!(InteractionType::F_RESTRANGLES.parameter_layout(134), (4, 0));
    assert_eq!(InteractionType::F_CBTDIHS.parameter_layout(134), (12, 0));
    assert_eq!(InteractionType::F_THOLE_POL.parameter_layout(126), (4, 0));
    assert_eq!(InteractionType::F_THOLE_POL.parameter_layout(127), (3, 0));
    assert_eq!(InteractionType::F_POSRES.parameter_layout(122), (12, 0));
    assert_eq!(InteractionType::F_FBPOSRES.parameter_layout(122), (5, 4));
    assert_eq!(InteractionType::F_RBDIHS.parameter_layout(122), (12, 0));
    assert_eq!(InteractionType::F_CMAP.parameter_layout(122), (0, 8));
    assert_eq!(InteractionType::F_GB12_NOLONGERUSED.parameter_layout(112), (5, 0));
    assert_eq!(InteractionType::F_GB12_NOLONGERUSED.parameter_layout(113), (0, 0));
    assert_eq!(InteractionType::F_VSITE1.parameter_layout(122), (0, 0));
    assert_eq!(InteractionType::F_EPOT.parameter_layout(122), (0, 0));
}

#[test]
fn bond_like_kinds() {
    let it = |k| Interaction { interaction_type: k, interacting_atom_indices: vec![0, 1] };
    assert!(it(InteractionType::F_BONDS).is_bond());
    assert!(it(InteractionType::F_CONSTR).is_bond());
    assert!(it(InteractionType::F_TABBONDSNC).is_bond());
    assert!(!it(InteractionType::F_SETTLE).is_bond());
    assert!(!it(InteractionType::F_ANGLES).is_bond());
    assert!(!it(InteractionType::F_LJ14).is_bond());
}

fn record(residue_index: i32) -> MoleculeTypeAtom {
    MoleculeTypeAtom {
        name: "CA".to_string(),
        mass: Real::Single(12.0f32.to_bits()),
        charge: Real::Single(0.5f32.to_bits()),
        residue_index,
        element: Some(mendeleev::Element::C),
    }
}

#[test]
fn convert2atom_numbers_atoms_and_residues() {
    let residues = vec![
        MoleculeTypeResidue { name: "ALA".to_string(), number: 5 },
        MoleculeTypeResidue { name: "GLY".to_string(), number: 6 },
    ];
    let mut atom_counter = 10;
    let mut residue_counter = 3;
    let mut previous = None;
    let a = record(0).convert2atom(&residues, &mut atom_counter, &mut residue_counter, &mut previous).unwrap();
    assert_eq!((a.atom_number, a.residue_number), (10, 4));
    assert_eq!(a.residue_name, "ALA");
    assert_eq!(a.atom_name, "CA");
    assert_eq!(a.element, Some(mendeleev::Element::C));
    let b = record(0).convert2atom(&residues, &mut atom_counter, &mut residue_counter, &mut previous).unwrap();
    assert_eq!((b.atom_number, b.residue_number), (11, 4));
    let c = record(1).convert2atom(&residues, &mut atom_counter, &mut residue_counter, &mut previous).unwrap();
    assert_eq!((c.atom_number, c.residue_number), (12, 5));
    assert_eq!(c.residue_name, "GLY");
    assert_eq!((atom_counter, residue_counter, previous), (13, 5, Some(6)));
    let e = record(2).convert2atom(&residues, &mut atom_counter, &mut residue_counter, &mut previous);
    assert!(matches!(e, Err(ParseTprError::CouldNotConstructTopology)));
    assert_eq!((atom_counter, residue_counter), (13, 5));
}

#[test]
fn reader_primitives() {
    let bytes = [0x00, 0x00, 0x00, 0x2a, 0xff, 0xff, 0xff, 0xfe, 0x01, 0x02, 0x3f, 0x80, 0x00, 0x00];
    let mut x = XdrFile::new(&bytes);
    assert_eq!(x.read_i32(), Ok(42));
    assert_eq!(x.read_i32(), Ok(-2));
    assert_eq!(x.read_u16(), Ok(0x0102));
    assert_eq!(x.read_real(Precision::Single), Ok(Real::Single(1.0f32.to_bits())));
    assert_eq!(x.read_u8(), Err(ParseTprError::CouldNotRead(ReadError::UnexpectedEnd)));
    let mut y = XdrFile::new(&bytes);
    assert_eq!(y.jump(-1), Err(ParseTprError::CouldNotRead(ReadError::NegativeSkip)));
    assert_eq!(y.skip_multiple_reals(Precision::Double, 1), Ok(()));
    assert_eq!(y.read_u8(), Ok(0x01));
    assert_eq!(y.skip_multiple_reals(Precision::Single, 2), Err(ParseTprError::CouldNotRead(ReadError::UnexpectedEnd)));
}

#[test]
fn reader_body_encodings() {
    let bytes = [0x00, 0x00, 0x00, 0x07, 0x00, 0x07, 0x05];
    let mut old = XdrFile::new(&bytes);
    assert_eq!(old.read_ushort_body(118), Ok(7));
    let mut new = XdrFile::new(&bytes[4..]);
    assert_eq!(new.read_ushort_body(119), Ok(7));
    assert_eq!(new.read_bool_body(119), Ok(true));
    let strings = [0, 0, 0, 0, 0, 0, 0, 3, b'a', b'b', b'c', 0, 0, 0, 0, 0, 0, 0, 0, 2, b'h', b'i'];
    let mut s = XdrFile::new(&strings);
    assert_eq!(s.read_string_body(103).unwrap(), "abc");
    assert_eq!(s.read_string_body(122).unwrap(), "hi");
    assert_eq!(s.read_u8(), Err(ParseTprError::CouldNotRead(ReadError::UnexpectedEnd)));
}

#[test]
fn discrepant_interaction_count() {
    let ff = FFParams { interaction_types: vec![InteractionType::F_BONDS, InteractionType::F_SETTLE] };
    // four integers for F_BONDS: not a multiple of 2 + 1
    let bytes = [0, 0, 0, 4, 0, 0, 0, 0, 0, 0, 0, 1, 0, 0, 0, 2, 0, 0, 0, 3];
    let mut out = Vec::new();
    let mut x = XdrFile::new(&bytes);
    assert_eq!(read_kind(&mut x, InteractionType::F_BONDS, &ff, &mut out), Err(ParseTprError::InteractionDiscrepancy(0)));
    assert!(out.is_empty());
    // five integers for F_SETTLE: not a multiple of 3 + 1
    let bytes = [0, 0, 0, 5];
    let mut x = XdrFile::new(&bytes);
    assert_eq!(read_kind(&mut x, InteractionType::F_SETTLE, &ff, &mut out), Err(ParseTprError::InteractionDiscrepancy(64)));
}

#[test]
fn interaction_block_instances() {
    let ff = FFParams { interaction_types: vec![InteractionType::F_BONDS, InteractionType::F_SETTLE] };
    // two bonds: type index 0, atoms (0, 1) and (1, 2)
    let bytes = [0, 0, 0, 6, 0, 0, 0, 0, 0, 0, 0, 0, 0, 0, 0, 1, 0, 0, 0, 0, 0, 0, 0, 1, 0, 0, 0, 2];
    let mut out = Vec::new();
    let mut x = XdrFile::new(&bytes);
    assert_eq!(read_kind(&mut x, InteractionType::F_BONDS, &ff, &mut out), Ok(()));
    assert_eq!(out.len(), 2);
    assert_eq!(out[1].interacting_atom_indices, vec![1, 2]);
    assert_eq!(out[0].interaction_type, InteractionType::F_BONDS);
    // an index past the interaction types
    let bytes = [0, 0, 0, 3, 0, 0, 0, 9, 0, 0, 0, 0, 0, 0, 0, 1];
    let mut x = XdrFile::new(&bytes);
    assert_eq!(read_kind(&mut x, InteractionType::F_BONDS, &ff, &mut out), Err(ParseTprError::InvalidInteractionType(9)));
}

#[test]
fn settle_and_bond_unpacking() {
    let atom = |n: i32| Atom {
        atom_name: "X".to_string(),
        atom_number: n,
        residue_name: "R".to_string(),
        residue_number: 1,
        mass: Real::Single(0),
        charge: Real::Single(0),
        element: None,
        position: None,
        velocity: None,
        force: None,
    };
    let atoms = vec![atom(11), atom(12), atom(13)];
    let settle = Interaction { interaction_type: InteractionType::F_SETTLE, interacting_atom_indices: vec![0, 1, 2] };
    assert_eq!(
        settle.settle2bonds(&atoms).unwrap(),
        vec![Bond { atom1: 10, atom2: 11 }, Bond { atom1: 10, atom2: 12 }]
    );
    assert_eq!(settle.unpack2bond(&atoms), Ok(None));
    let bond = Interaction { interaction_type: InteractionType::F_CONSTR, interacting_atom_indices: vec![2, 0] };
    assert_eq!(bond.unpack2bond(&atoms), Ok(Some(Bond { atom1: 12, atom2: 10 })));
    assert!(bond.settle2bonds(&atoms).unwrap().is_empty());
    let out_of_range = Interaction { interaction_type: InteractionType::F_BONDS, interacting_atom_indices: vec![0, 3] };
    assert_eq!(out_of_range.unpack2bond(&atoms), Err(ParseTprError::CouldNotConstructTopology));
    let short = Interaction { interaction_type: InteractionType::F_SETTLE, interacting_atom_indices: vec![0, 1] };
    assert_eq!(short.settle2bonds(&atoms), Err(ParseTprError::InvalidNumberOfSettleAtoms(2)));
    let long = Interaction { interaction_type: InteractionType::F_BONDS, interacting_atom_indices: vec![0, 1, 2] };
    assert_eq!(long.unpack2bond(&atoms), Err(ParseTprError::InvalidNumberOfBondedAtoms(3)));
}
