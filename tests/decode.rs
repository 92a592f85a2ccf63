use minitpr::ffparams::InteractionType;
use minitpr::{Bond, ParseTprError, Precision, ReadError, Real, TprFile};

/// Writer of the big-endian encoding of a tpr file of a given version.
struct Writer {
    version: i32,
    out: Vec<u8>,
}

impl Writer {
    fn new(version: i32) -> Self {
        Writer { version, out: Vec::new() }
    }
    fn u8(&mut self, v: u8) {
        self.out.push(v);
    }
    fn u16(&mut self, v: u16) {
        self.out.extend_from_slice(&v.to_be_bytes());
    }
    fn i32(&mut self, v: i32) {
        self.out.extend_from_slice(&v.to_be_bytes());
    }
    fn u32(&mut self, v: u32) {
        self.out.extend_from_slice(&v.to_be_bytes());
    }
    fn i64(&mut self, v: i64) {
        self.out.extend_from_slice(&v.to_be_bytes());
    }
    fn u64(&mut self, v: u64) {
        self.out.extend_from_slice(&v.to_be_bytes());
    }
    fn f32(&mut self, v: f32) {
        self.out.extend_from_slice(&v.to_bits().to_be_bytes());
    }
    fn f64(&mut self, v: f64) {
        self.out.extend_from_slice(&v.to_bits().to_be_bytes());
    }
    fn string4(&mut self, s: &str) {
        self.u32(0);
        self.u32(s.len() as u32);
        self.out.extend_from_slice(s.as_bytes());
        while self.out.len() % 4 != 0 {
            self.out.push(0);
        }
    }
    fn string_body(&mut self, s: &str) {
        if self.version < 119 {
            self.string4(s);
        } else {
            self.u64(s.len() as u64);
            self.out.extend_from_slice(s.as_bytes());
        }
    }
    fn ushort(&mut self, v: u16) {
        if self.version < 119 {
            self.u32(v as u32);
        } else {
            self.u16(v);
        }
    }
    fn uchar(&mut self, v: u8) {
        if self.version < 119 {
            self.u32(v as u32);
        } else {
            self.u8(v);
        }
    }
}

/// One atom of a molecule type: name, mass, charge, residue index, atomic number.
#[derive(Clone)]
struct AtomDef {
    name: &'static str,
    mass: f32,
    charge: f32,
    residue: i32,
    atomic_number: i32,
}

#[derive(Clone)]
struct MolDef {
    name: &'static str,
    atoms: Vec<AtomDef>,
    /// residue name and residue number
    residues: Vec<(&'static str, i32)>,
    /// bonds (F_BONDS) between local atom indices
    bonds: Vec<(i32, i32)>,
    /// rigid waters (F_SETTLE) over local atom indices
    settles: Vec<(i32, i32, i32)>,
    /// angles (F_ANGLES), which never become bonds
    angles: Vec<(i32, i32, i32)>,
}

#[derive(Clone)]
struct System {
    blocks: Vec<(usize, i32)>,
    moltypes: Vec<MolDef>,
    intermolecular: Option<Vec<(i32, i32)>>,
    positions: bool,
}

/// Codes of the interaction-type entries, in the current numbering.
const CODE_BONDS: i32 = 0;
const CODE_ANGLES: i32 = 10;
const CODE_SETTLE: i32 = 64;

/// Codes written by a file of `version` that stand for no kind of their own.
fn not_distinct(version: i32, code: i32) -> bool {
    [(121, 65), (118, 67), (117, 76), (137, 78)]
        .iter()
        .any(|&(v, c)| version < v && code == c)
}

impl System {
    fn n_atoms(&self) -> i32 {
        self.blocks
            .iter()
            .map(|&(t, n)| n * self.moltypes[t].atoms.len() as i32)
            .sum()
    }

    fn symbols(&self) -> Vec<String> {
        let mut s = vec!["System".to_string(), "type".to_string()];
        for m in &self.moltypes {
            s.push(m.name.to_string());
            for a in &m.atoms {
                s.push(a.name.to_string());
            }
            for r in &m.residues {
                s.push(r.0.to_string());
            }
        }
        s
    }

    fn symbol(&self, name: &str) -> i32 {
        self.symbols().iter().position(|x| x == name).unwrap() as i32
    }

    /// The file, written as a given version with generation 28.
    fn encode(&self, version: i32) -> Vec<u8> {
        let mut w = Writer::new(version);
        let n_atoms = self.n_atoms();
        // header
        w.string4("VERSION 2021.4");
        w.i32(4);
        w.i32(version);
        w.i32(28);
        w.string4("release");
        w.i32(n_atoms);
        w.i32(1);
        w.i32(0);
        w.f32(0.0);
        for flag in [true, true, self.positions, false, false, true] {
            w.u32(flag as u32);
        }
        if version >= 119 {
            w.i64(12345);
        }
        // box
        for i in 0..27 {
            w.f32(if i % 4 == 0 { 5.5 } else { 0.0 });
        }
        // temperature coupling (one group)
        w.f32(0.0);
        // symbol table and system name
        let symbols = self.symbols();
        w.i32(symbols.len() as i32);
        for s in &symbols {
            w.string_body(s);
        }
        w.i32(0);
        // interaction-type entries: bonds, angles, settle
        w.i32(1);
        w.i32(3);
        for code in [CODE_BONDS, CODE_ANGLES, CODE_SETTLE] {
            w.i32(code);
        }
        w.f64(12.0);
        w.f32(1.0);
        // bonds: 4 reals; angles: 4 reals; settle: 2 reals
        for _ in 0..10 {
            w.f32(0.5);
        }
        // molecule types
        w.i32(self.moltypes.len() as i32);
        for m in &self.moltypes {
            w.i32(self.symbol(m.name));
            w.i32(m.atoms.len() as i32);
            w.i32(m.residues.len() as i32);
            for a in &m.atoms {
                w.f32(a.mass);
                w.f32(a.charge);
                w.f32(a.mass);
                w.f32(a.charge);
                w.ushort(0);
                w.ushort(0);
                w.i32(0);
                w.i32(a.residue);
                w.i32(a.atomic_number);
            }
            for a in &m.atoms {
                w.i32(self.symbol(a.name));
            }
            for _ in &m.atoms {
                w.i32(1);
                w.i32(1);
            }
            for r in &m.residues {
                w.i32(self.symbol(r.0));
                w.i32(r.1);
                w.uchar(b' ');
            }
            self.write_interactions(&mut w, &m.bonds, &m.settles, &m.angles);
            // block indices and exclusions
            w.i32(0);
            w.i32(0);
            w.i32(0);
            w.i32(0);
            w.i32(0);
        }
        // molecule blocks
        w.i32(self.blocks.len() as i32);
        for &(t, n) in &self.blocks {
            w.i32(t as i32);
            w.i32(n);
            w.i32(self.moltypes[t].atoms.len() as i32);
            w.i32(0);
            w.i32(0);
        }
        w.i32(n_atoms);
        match &self.intermolecular {
            Some(bonds) => {
                w.uchar(1);
                self.write_interactions(&mut w, bonds, &[], &[]);
            }
            None => w.uchar(0),
        }
        // atom types
        if version < 128 {
            w.i32(0);
        }
        // dihedral correction maps
        w.i32(0);
        w.i32(0);
        // groups
        for _ in 0..10 {
            w.i32(0);
        }
        w.i32(0);
        for _ in 0..10 {
            w.i32(0);
        }
        if version >= 120 {
            w.i64(0);
        }
        // positions
        if self.positions {
            for i in 0..n_atoms {
                w.f32(i as f32);
                w.f32(1.0);
                w.f32(2.0);
            }
        }
        w.out
    }

    fn write_interactions(
        &self,
        w: &mut Writer,
        bonds: &[(i32, i32)],
        settles: &[(i32, i32, i32)],
        angles: &[(i32, i32, i32)],
    ) {
        for code in 0..95 {
            if not_distinct(w.version, code) {
                continue;
            }
            if code == CODE_BONDS {
                w.i32(3 * bonds.len() as i32);
                for &(a, b) in bonds {
                    w.i32(0);
                    w.i32(a);
                    w.i32(b);
                }
            } else if code == CODE_ANGLES {
                w.i32(4 * angles.len() as i32);
                for &(a, b, c) in angles {
                    w.i32(1);
                    w.i32(a);
                    w.i32(b);
                    w.i32(c);
                }
            } else if code == CODE_SETTLE {
                w.i32(4 * settles.len() as i32);
                for &(a, b, c) in settles {
                    w.i32(2);
                    w.i32(a);
                    w.i32(b);
                    w.i32(c);
                }
            } else {
                w.i32(0);
            }
        }
    }
}

fn water() -> MolDef {
    MolDef {
        name: "SOL",
        atoms: vec![
            AtomDef { name: "OH2", mass: 15.999, charge: -0.834, residue: 0, atomic_number: 8 },
            AtomDef { name: "H1", mass: 1.008, charge: 0.417, residue: 0, atomic_number: 1 },
            AtomDef { name: "H2", mass: 1.008, charge: 0.417, residue: 0, atomic_number: 1 },
        ],
        residues: vec![("TIP3", 1)],
        bonds: vec![],
        settles: vec![(0, 1, 2)],
        angles: vec![],
    }
}

fn peptide() -> MolDef {
    MolDef {
        name: "Protein",
        atoms: vec![
            AtomDef { name: "BB", mass: 72.0, charge: 1.0, residue: 0, atomic_number: -1 },
            AtomDef { name: "SC1", mass: 54.0, charge: 0.0, residue: 0, atomic_number: -1 },
            AtomDef { name: "BB", mass: 72.0, charge: 0.0, residue: 1, atomic_number: -1 },
            AtomDef { name: "SC1", mass: 36.0, charge: 0.0, residue: 1, atomic_number: -1 },
            AtomDef { name: "BB", mass: 72.0, charge: -1.0, residue: 2, atomic_number: -1 },
        ],
        residues: vec![("LEU", 1), ("SER", 2), ("GLY", 3)],
        bonds: vec![(0, 1), (2, 3), (0, 2), (2, 4)],
        settles: vec![],
        angles: vec![(0, 2, 4)],
    }
}

fn lipid() -> MolDef {
    MolDef {
        name: "POPC",
        atoms: vec![
            AtomDef { name: "NC3", mass: 72.0, charge: 1.0, residue: 0, atomic_number: 7 },
            AtomDef { name: "PO4", mass: 72.0, charge: -1.0, residue: 0, atomic_number: 15 },
            AtomDef { name: "GL1", mass: 54.0, charge: 0.0, residue: 0, atomic_number: 6 },
        ],
        residues: vec![("POPC", 7)],
        bonds: vec![(0, 1), (1, 2)],
        settles: vec![],
        angles: vec![],
    }
}

fn ion() -> MolDef {
    MolDef {
        name: "ION",
        atoms: vec![AtomDef { name: "CL", mass: 35.453, charge: -1.0, residue: 0, atomic_number: 17 }],
        residues: vec![("CL", 1)],
        bonds: vec![],
        settles: vec![],
        angles: vec![],
    }
}

fn water_system(n: i32) -> System {
    System { blocks: vec![(0, n)], moltypes: vec![water()], intermolecular: None, positions: true }
}

fn membrane(intermolecular: Option<Vec<(i32, i32)>>) -> System {
    System {
        blocks: vec![(0, 2), (1, 2), (2, 3), (3, 1)],
        moltypes: vec![peptide(), lipid(), water(), ion()],
        intermolecular,
        positions: true,
    }
}

fn bond(a: usize, b: usize) -> Bond {
    Bond { atom1: a, atom2: b }
}

fn single(r: Real) -> f32 {
    match r {
        Real::Single(bits) => f32::from_bits(bits),
        Real::Double(bits) => f64::from_bits(bits) as f32,
    }
}

#[test]
fn single_water_settle_gives_two_bonds() {
    let tpr = TprFile::parse(&water_system(1).encode(122)).unwrap();
    assert_eq!(tpr.topology.atoms.len(), 3);
    assert_eq!(tpr.topology.bonds, vec![bond(0, 1), bond(0, 2)]);
}

#[test]
fn three_waters_give_six_bonds() {
    let tpr = TprFile::parse(&water_system(3).encode(122)).unwrap();
    let names: Vec<&str> = tpr.topology.atoms.iter().map(|a| a.atom_name.as_str()).collect();
    assert_eq!(names, ["OH2", "H1", "H2", "OH2", "H1", "H2", "OH2", "H1", "H2"]);
    assert_eq!(
        tpr.topology.bonds,
        vec![bond(0, 1), bond(0, 2), bond(3, 4), bond(3, 5), bond(6, 7), bond(6, 8)]
    );
    let residues: Vec<i32> = tpr.topology.atoms.iter().map(|a| a.residue_number).collect();
    assert_eq!(residues, [1, 1, 1, 2, 2, 2, 3, 3, 3]);
}

#[test]
fn header_fields_are_decoded() {
    let tpr = TprFile::parse(&water_system(1).encode(122)).unwrap();
    let h = &tpr.header;
    assert_eq!(h.gromacs_version, "VERSION 2021.4");
    assert_eq!(h.precision, Precision::Single);
    assert_eq!(h.tpr_version, 122);
    assert_eq!(h.tpr_generation, 28);
    assert_eq!(h.file_tag, "release");
    assert_eq!(h.n_atoms, 3);
    assert_eq!(h.n_coupling_groups, 1);
    assert_eq!(h.fep_state, 0);
    assert_eq!(single(h.lambda), 0.0);
    assert!(h.has_input_record && h.has_topology && h.has_positions && h.has_box);
    assert!(!h.has_velocities && !h.has_forces);
    assert_eq!(h.body_size, Some(12345));
    assert_eq!(tpr.system_name, "System");
    let simbox = tpr.simbox.unwrap();
    assert_eq!(single(simbox.simbox[0][0]), 5.5);
    assert_eq!(single(simbox.simbox[0][1]), 0.0);
    assert_eq!(single(simbox.simbox[1][1]), 5.5);
    assert_eq!(single(simbox.simbox_rel[0][1]), 0.0);
    assert_eq!(single(simbox.simbox_rel[1][0]), 5.5);
    assert_eq!(single(simbox.simbox_v[2][2]), 0.0);
}

#[test]
fn old_version_has_no_body_size() {
    let tpr = TprFile::parse(&water_system(1).encode(103)).unwrap();
    assert_eq!(tpr.header.tpr_version, 103);
    assert_eq!(tpr.header.body_size, None);
}

#[test]
fn atoms_carry_their_records() {
    let tpr = TprFile::parse(&water_system(1).encode(122)).unwrap();
    let o = &tpr.topology.atoms[0];
    assert_eq!(o.atom_name, "OH2");
    assert_eq!(o.atom_number, 1);
    assert_eq!(o.residue_name, "TIP3");
    assert_eq!(o.residue_number, 1);
    assert_eq!(single(o.mass), 15.999);
    assert_eq!(single(o.charge), -0.834);
    assert_eq!(o.element, Some(mendeleev::Element::O));
    let p = o.position.unwrap();
    assert_eq!((single(p[0]), single(p[1]), single(p[2])), (0.0, 1.0, 2.0));
    assert!(o.velocity.is_none());
    assert!(o.force.is_none());
    let h = &tpr.topology.atoms[2];
    assert_eq!(h.element, Some(mendeleev::Element::H));
    assert_eq!(single(h.position.unwrap()[0]), 2.0);
}

#[test]
fn atoms_without_positions_block() {
    let mut system = water_system(2);
    system.positions = false;
    let tpr = TprFile::parse(&system.encode(122)).unwrap();
    assert!(!tpr.header.has_positions);
    assert!(tpr.topology.atoms.iter().all(|a| a.position.is_none()));
}

#[test]
fn two_block_membrane_counts() {
    let tpr = TprFile::parse(&membrane(None).encode(122)).unwrap();
    // 2 peptides of 5 atoms, 2 lipids of 3, 3 waters of 3, 1 ion
    assert_eq!(tpr.topology.atoms.len(), 26);
    // 4 bonds per peptide, 2 per lipid, 2 per water, none for the ion
    assert_eq!(tpr.topology.bonds.len(), 2 * 4 + 2 * 2 + 3 * 2);
    let numbers: Vec<i32> = tpr.topology.atoms.iter().map(|a| a.atom_number).collect();
    assert_eq!(numbers, (1..=26).collect::<Vec<i32>>());
    let residues: Vec<i32> = tpr.topology.atoms.iter().map(|a| a.residue_number).collect();
    assert_eq!(
        residues,
        [1, 1, 2, 2, 3, 4, 4, 5, 5, 6, 7, 7, 7, 8, 8, 8, 9, 9, 9, 10, 10, 10, 11, 11, 11, 12]
    );
    // the second peptide's bonds are shifted by 5
    for b in [bond(0, 1), bond(2, 3), bond(0, 2), bond(2, 4), bond(5, 6), bond(7, 8), bond(5, 7), bond(7, 9)] {
        assert!(tpr.topology.bonds.contains(&b));
    }
    let last = tpr.topology.atoms.last().unwrap();
    assert_eq!(last.atom_name, "CL");
    assert_eq!(last.residue_name, "CL");
    assert_eq!(last.element, Some(mendeleev::Element::Cl));
    assert_eq!(tpr.topology.atoms[0].element, None);
}

#[test]
fn intermolecular_bonds_are_added() {
    let tpr = TprFile::parse(&membrane(Some(vec![(4, 10), (9, 25)])).encode(122)).unwrap();
    assert_eq!(tpr.topology.bonds.len(), 18 + 2);
    assert_eq!(tpr.topology.bonds[18], bond(4, 10));
    assert_eq!(tpr.topology.bonds[19], bond(9, 25));
}

#[test]
fn intermolecular_bonds_old_version() {
    let tpr = TprFile::parse(&membrane(Some(vec![(4, 10)])).encode(103)).unwrap();
    assert_eq!(tpr.topology.bonds.len(), 19);
    assert!(tpr.topology.bonds.contains(&bond(4, 10)));
}

#[test]
fn intermolecular_bond_out_of_range() {
    let r = TprFile::parse(&membrane(Some(vec![(4, 26)])).encode(122));
    assert!(matches!(r, Err(ParseTprError::CouldNotConstructTopology)));
}

#[test]
fn versions_103_and_122_agree() {
    for system in [membrane(None), membrane(Some(vec![(1, 20)])), water_system(4)] {
        let old = TprFile::parse(&system.encode(103)).unwrap();
        let new = TprFile::parse(&system.encode(122)).unwrap();
        assert_eq!(old.topology.bonds, new.topology.bonds);
        assert_eq!(old.topology.atoms.len(), new.topology.atoms.len());
        for (a, b) in old.topology.atoms.iter().zip(new.topology.atoms.iter()) {
            assert_eq!(a.atom_name, b.atom_name);
            assert_eq!(a.atom_number, b.atom_number);
            assert_eq!(a.residue_name, b.residue_name);
            assert_eq!(a.residue_number, b.residue_number);
            assert_eq!(a.mass, b.mass);
            assert_eq!(a.charge, b.charge);
            assert_eq!(a.element, b.element);
            assert_eq!(a.position, b.position);
        }
    }
}

#[test]
fn decoding_is_deterministic() {
    let bytes = membrane(Some(vec![(2, 12)])).encode(122);
    let a = TprFile::parse(&bytes).unwrap();
    let b = TprFile::parse(&bytes).unwrap();
    assert_eq!(a.header.n_atoms, b.header.n_atoms);
    assert_eq!(a.header.body_size, b.header.body_size);
    assert_eq!(a.system_name, b.system_name);
    assert_eq!(a.topology.bonds, b.topology.bonds);
    for (x, y) in a.topology.atoms.iter().zip(b.topology.atoms.iter()) {
        assert_eq!(x.atom_name, y.atom_name);
        assert_eq!(x.atom_number, y.atom_number);
        assert_eq!(x.residue_number, y.residue_number);
        assert_eq!(x.mass, y.mass);
        assert_eq!(x.position, y.position);
    }
}

#[test]
fn bonds_within_atoms() {
    for version in [103, 110, 122, 129] {
        let tpr = TprFile::parse(&membrane(Some(vec![(0, 25)])).encode(version)).unwrap();
        let n = tpr.topology.atoms.len();
        assert_eq!(n as i32, tpr.header.n_atoms);
        assert!(tpr.topology.bonds.iter().all(|b| b.atom1 < n && b.atom2 < n));
    }
}

#[test]
fn empty_file_fails() {
    assert_eq!(
        TprFile::parse(&[]).err(),
        Some(ParseTprError::CouldNotRead(ReadError::UnexpectedEnd))
    );
}

#[test]
fn truncated_files_fail() {
    let bytes = water_system(2).encode(122);
    for len in 0..bytes.len() {
        assert!(TprFile::parse(&bytes[..len]).is_err(), "prefix of {} bytes", len);
    }
    let bytes = membrane(None).encode(103);
    for len in (0..bytes.len()).step_by(7) {
        assert!(TprFile::parse(&bytes[..len]).is_err(), "prefix of {} bytes", len);
    }
}

#[test]
fn wrong_tag_is_not_tpr() {
    let mut bytes = water_system(1).encode(122);
    bytes[8] = b'X';
    assert_eq!(TprFile::parse(&bytes).err(), Some(ParseTprError::NotTpr));
}

#[test]
fn unsupported_precision() {
    let mut bytes = water_system(1).encode(122);
    // the precision word follows the 24 bytes of the leading string
    bytes[24..28].copy_from_slice(&6i32.to_be_bytes());
    assert_eq!(TprFile::parse(&bytes).err(), Some(ParseTprError::UnsupportedPrecision(6)));
}

#[test]
fn unsupported_version() {
    let bytes = water_system(1).encode(102);
    assert_eq!(TprFile::parse(&bytes).err(), Some(ParseTprError::UnsupportedVersion(102)));
}

#[test]
fn invalid_text_is_a_read_error() {
    let mut bytes = water_system(1).encode(122);
    // first byte of the file tag "release", after 24 + 12 + 8 bytes
    bytes[44] = 0xff;
    assert_eq!(
        TprFile::parse(&bytes).err(),
        Some(ParseTprError::CouldNotRead(ReadError::InvalidText))
    );
}

/// Offset of the symbol table's count in a file written by `encode`.
fn symtab_offset(version: i32) -> usize {
    // header strings and fields, body size, box, temperature coupling
    let header = 24 + 12 + 16 + 12 + 4 + 24 + if version >= 119 { 8 } else { 0 };
    header + 27 * 4 + 4
}

#[test]
fn symbol_index_out_of_range() {
    let system = water_system(1);
    let mut bytes = system.encode(122);
    let mut at = symtab_offset(122) + 4;
    for s in system.symbols() {
        at += 8 + s.len();
    }
    // the system name's index
    bytes[at..at + 4].copy_from_slice(&99i32.to_be_bytes());
    assert_eq!(TprFile::parse(&bytes).err(), Some(ParseTprError::IndexNotInSymTable(99)));
}

/// Offset of the interaction-type registry in a file written by `encode` as version 122.
fn registry_offset(system: &System) -> usize {
    let mut at = symtab_offset(122) + 4;
    for s in system.symbols() {
        at += 8 + s.len();
    }
    at + 4
}

#[test]
fn unknown_interaction_code() {
    let system = water_system(1);
    let mut bytes = system.encode(122);
    let at = registry_offset(&system) + 8;
    bytes[at..at + 4].copy_from_slice(&500i32.to_be_bytes());
    // a file of version 122 precedes the insertion of code 78: 500 reads as 501
    assert_eq!(TprFile::parse(&bytes).err(), Some(ParseTprError::UnknownInteractionKind(501)));
}

/// Offset of the first interaction count of the first molecule type (a water) at version 122.
fn first_count_offset(system: &System) -> usize {
    // registry: atom types, count, 3 codes, reppow, fudge, 10 reals
    let mut at = registry_offset(system) + 4 + 4 + 12 + 8 + 4 + 40;
    // molecule type count, name, atom and residue counts
    at += 4 + 4 + 8;
    // 3 atoms: 4 reals, 2 ushorts, ptype, residue index, atomic number
    at += 3 * (16 + 4 + 4 + 8);
    // names, type names, residue record
    at += 3 * 4 + 3 * 8 + 4 + 4 + 1;
    at
}

#[test]
fn interaction_count_discrepancy() {
    let system = water_system(1);
    let mut bytes = system.encode(122);
    let at = first_count_offset(&system);
    // the count of F_BONDS is 0; 4 is not a multiple of 2 + 1
    assert_eq!(&bytes[at..at + 4], &0i32.to_be_bytes());
    bytes[at..at + 4].copy_from_slice(&4i32.to_be_bytes());
    assert_eq!(TprFile::parse(&bytes).err(), Some(ParseTprError::InteractionDiscrepancy(0)));
}

#[test]
fn interaction_type_index_out_of_range() {
    let system = water_system(1);
    let mut bytes = system.encode(122);
    let mut at = first_count_offset(&system);
    // skip the counts of the kinds before F_SETTLE (code 64); none is skipped at 122
    at += 64 * 4;
    assert_eq!(&bytes[at..at + 4], &4i32.to_be_bytes());
    bytes[at + 4..at + 8].copy_from_slice(&7i32.to_be_bytes());
    assert_eq!(TprFile::parse(&bytes).err(), Some(ParseTprError::InvalidInteractionType(7)));
}

#[test]
fn bad_residue_index_fails_assembly() {
    let mut system = water_system(1);
    system.moltypes[0].atoms[1].residue = 3;
    assert_eq!(
        TprFile::parse(&system.encode(122)).err(),
        Some(ParseTprError::CouldNotConstructTopology)
    );
}

#[test]
fn bond_atom_out_of_molecule_fails() {
    let mut system = water_system(1);
    system.moltypes[0].settles = vec![(0, 1, 3)];
    assert_eq!(
        TprFile::parse(&system.encode(122)).err(),
        Some(ParseTprError::CouldNotConstructTopology)
    );
}

#[test]
fn inconsistent_atom_count() {
    let system = water_system(2);
    let mut bytes = system.encode(122);
    // the header's atom count follows the leading string, 4 words and the file tag
    let at = 24 + 12 + 16;
    bytes[at..at + 4].copy_from_slice(&5i32.to_be_bytes());
    assert_eq!(
        TprFile::parse(&bytes).err(),
        Some(ParseTprError::InconsistentNumberOfAtoms(5, 6))
    );
}

#[test]
fn negative_exclusion_group_size() {
    let system = water_system(1);
    let mut bytes = system.encode(122);
    let n = bytes.len();
    // the exclusion group size is followed by 3 atoms × 3 reals
    let at = n - 36 - 8;
    assert_eq!(&bytes[at..at + 8], &0i64.to_be_bytes());
    bytes[at..at + 8].copy_from_slice(&(-2i64).to_be_bytes());
    assert_eq!(
        TprFile::parse(&bytes).err(),
        Some(ParseTprError::InvalidIntermolecularExclusionGroupSize(-2))
    );
}

#[test]
fn angles_never_become_bonds() {
    let mut system = water_system(1);
    system.moltypes[0].settles = vec![];
    system.moltypes[0].angles = vec![(1, 0, 2)];
    let tpr = TprFile::parse(&system.encode(122)).unwrap();
    assert!(tpr.topology.bonds.is_empty());
    assert!(InteractionType::F_ANGLES.n_interacting_atoms() == 3);
}

#[test]
fn intermolecular_flag_unset() {
    for version in [103, 122] {
        let tpr = TprFile::parse(&membrane(None).encode(version)).unwrap();
        // only intramolecular bonds
        assert_eq!(tpr.topology.bonds.len(), 18);
    }
}
