use gedent::molecule::parse_geometry;
use gedent::GeometryFormatError;
use gedent::Molecule;

fn ch4_text() -> String {
    "5
symmetry c1
C       -0.702728547      0.000000000     -1.996862306
H       -0.172294601     -0.951333822     -1.920672276
H        0.013819138      0.821859802     -1.939355658
H       -1.419276232      0.083844265     -1.177270525
H       -1.233162492      0.045629756     -2.950150766"
        .to_string()
}

fn ch4_h2o_text() -> String {
    "5
symmetry c1
C       -0.702728547      0.000000000     -1.996862306
H       -0.172294601     -0.951333822     -1.920672276
H        0.013819138      0.821859802     -1.939355658
H       -1.419276232      0.083844265     -1.177270525
H       -1.233162492      0.045629756     -2.950150766
3
symmetry c1
O       -1.537653553      0.000000000     -2.881263893
H       -1.537653553      0.759337000     -2.285220893
H       -1.537653553     -0.759337000     -2.285220893"
        .to_string()
}

fn ch4_molecule(filename: &str) -> Molecule {
    Molecule {
        filename: filename.to_string(),
        annotations: "symmetry c1".to_string(),
        atoms: vec![
            "C       -0.702728547      0.000000000     -1.996862306".to_string(),
            "H       -0.172294601     -0.951333822     -1.920672276".to_string(),
            "H        0.013819138      0.821859802     -1.939355658".to_string(),
            "H       -1.419276232      0.083844265     -1.177270525".to_string(),
            "H       -1.233162492      0.045629756     -2.950150766".to_string(),
        ],
    }
}

fn h2o_molecule(filename: &str) -> Molecule {
    Molecule {
        filename: filename.to_string(),
        annotations: "symmetry c1".to_string(),
        atoms: vec![
            "O       -1.537653553      0.000000000     -2.881263893".to_string(),
            "H       -1.537653553      0.759337000     -2.285220893".to_string(),
            "H       -1.537653553     -0.759337000     -2.285220893".to_string(),
        ],
    }
}

#[test]
fn xyz_parse_works() {
    let ch4 = ch4_molecule("./ch4");
    let h2o = h2o_molecule("./ch4_h2o_1");
    let mut ch4_2 = ch4.clone();
    ch4_2.filename = "./ch4_h2o_0".to_string();

    match parse_geometry(&ch4_text(), "./ch4") {
        Ok(mol) => assert_eq!(mol, vec![ch4]),
        Err(_) => panic!("Failes test ch4"),
    };

    match parse_geometry(&ch4_h2o_text(), "./ch4_h2o") {
        Ok(mol) => assert_eq!(mol, vec![ch4_2, h2o]),
        Err(_) => panic!("Failed test ch4 h2o"),
    };
}

#[test]
fn molecule_split_works() {
    let ch4 = ch4_molecule("./ch4");

    let ch3 = Molecule {
        filename: "./ch4_split_1".to_string(),
        annotations: "symmetry c1".to_string(),
        atoms: vec![
            "C       -0.702728547      0.000000000     -1.996862306".to_string(),
            "H       -0.172294601     -0.951333822     -1.920672276".to_string(),
            "H        0.013819138      0.821859802     -1.939355658".to_string(),
            "H       -1.419276232      0.083844265     -1.177270525".to_string(),
        ],
    };
    let h = Molecule {
        filename: "./ch4_split_2".to_string(),
        annotations: "symmetry c1".to_string(),
        atoms: vec!["H       -1.233162492      0.045629756     -2.950150766".to_string()],
    };
    match ch4.split(4) {
        Ok(mol) => assert_eq!(mol, (ch3, h), "Failed to split molecule"),
        Err(_) => panic!(),
    }
}

#[test]
fn split_rejects_out_of_range_index() {
    let ch4 = ch4_molecule("./ch4");
    let e = ch4.split(5).unwrap_err();
    assert_eq!(e.index, 5);
    assert_eq!(e.len, 5);
    let e2 = ch4.split(17).unwrap_err();
    assert_eq!(e2.index, 17);
    assert_eq!(e2.len, 5);
}

#[test]
fn split_at_zero_gives_empty_first_half() {
    let ch4 = ch4_molecule("name");
    let (a, b) = ch4.split(0).unwrap();
    assert_eq!(a.filename, "name_split_1");
    assert_eq!(b.filename, "name_split_2");
    assert!(a.atoms.is_empty());
    assert_eq!(b.atoms.len(), 5);
    assert_eq!(a.annotations, "symmetry c1");
    assert_eq!(b.annotations, "symmetry c1");
}

#[test]
fn parse_rejects_empty_input() {
    assert_eq!(
        parse_geometry("", "x"),
        Err(GeometryFormatError::EmptyInput)
    );
}

#[test]
fn parse_rejects_leading_content() {
    assert_eq!(
        parse_geometry("hello\n2\nann\nA 0 0 0\nB 0 0 0", "x"),
        Err(GeometryFormatError::LeadingContent)
    );
}

#[test]
fn parse_rejects_count_line_at_end_of_input() {
    assert_eq!(
        parse_geometry("3", "x"),
        Err(GeometryFormatError::MissingAnnotation { frame: 0 })
    );
    assert_eq!(
        parse_geometry("1\nann\nA 0 0 0\n2", "x"),
        Err(GeometryFormatError::MissingAnnotation { frame: 1 })
    );
}

#[test]
fn parse_rejects_count_mismatch() {
    assert_eq!(
        parse_geometry("2\nann\nA 0 0 0", "x"),
        Err(GeometryFormatError::CountMismatch { frame: 0, expected: 2, found: 1 })
    );
    let two_frames = "1\nann\nA 0 0 0\n3\nann\nB 0 0 0";
    assert_eq!(
        parse_geometry(two_frames, "x"),
        Err(GeometryFormatError::CountMismatch { frame: 1, expected: 3, found: 1 })
    );
}

#[test]
fn parse_accepts_zero_atom_frames() {
    let text = "0\nfirst\n0\nsecond";
    let mols = parse_geometry(text, "stem").unwrap();
    assert_eq!(mols.len(), 2);
    assert_eq!(mols[0].filename, "stem_0");
    assert_eq!(mols[0].annotations, "first");
    assert!(mols[0].atoms.is_empty());
    assert_eq!(mols[1].filename, "stem_1");
    assert_eq!(mols[1].annotations, "second");
    assert!(mols[1].atoms.is_empty());
}

#[test]
fn parse_numbers_many_frames_in_decimal() {
    let mut text = String::new();
    for i in 0..12 {
        if i > 0 {
            text.push('\n');
        }
        text.push_str("0\nframe");
    }
    let mols = parse_geometry(&text, "m").unwrap();
    assert_eq!(mols.len(), 12);
    assert_eq!(mols[0].filename, "m_0");
    assert_eq!(mols[9].filename, "m_9");
    assert_eq!(mols[10].filename, "m_10");
    assert_eq!(mols[11].filename, "m_11");
}

#[test]
fn atom_lines_parse_into_element_and_coordinates() {
    let a = gedent::AtomRecord {
        element: "C".to_string(),
        coordinates: vec![
            "-0.702728547".to_string(),
            "0.000000000".to_string(),
            "-1.996862306".to_string(),
        ],
    };
    assert_eq!(
        gedent::molecule::parse_atom_line(
            "C       -0.702728547      0.000000000     -1.996862306"
        ),
        Some(a)
    );
    // too few coordinates
    assert_eq!(gedent::molecule::parse_atom_line("C 1.0 2.0"), None);
    // a coordinate that is not a decimal number
    assert_eq!(gedent::molecule::parse_atom_line("C 1.0 2.0 three"), None);
    // extra coordinates are kept
    let b = gedent::molecule::parse_atom_line("H 1 2 3 4.5e-1").unwrap();
    assert_eq!(b.element, "H");
    assert_eq!(b.coordinates, vec!["1", "2", "3", "4.5e-1"]);
}

#[test]
fn parsed_atoms_validates_every_line() {
    let good = ch4_molecule("m");
    let parsed = good.parsed_atoms().unwrap();
    assert_eq!(parsed.len(), 5);
    assert_eq!(parsed[0].element, "C");
    assert_eq!(parsed[4].element, "H");
    assert_eq!(parsed[1].coordinates.len(), 3);

    let bad = Molecule {
        filename: "m".to_string(),
        annotations: "ann".to_string(),
        atoms: vec!["C 1.0 2.0 3.0".to_string(), "not an atom line".to_string()],
    };
    assert_eq!(bad.parsed_atoms(), None);
}
