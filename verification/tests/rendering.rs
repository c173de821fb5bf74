use gedent::molecule::parse_geometry;
use gedent::render::{print_molecule, render, split_molecule};
use gedent::CtxValue;
use gedent::Molecule;
use gedent::RenderContext;
use gedent::RenderError;

#[test]
fn render_template_works() {
    let parsed_template = "! {{ dft_level }} {{ dft_basis_set }}

nprocs {{ nprocs }}
end

{% if solvation -%}
end

{% endif -%}
"
    .to_string();

    let rendered_template = "! PBE0 def2

nprocs 2
end

"
    .to_string();

    let mut context = RenderContext::new();
    context.insert_bool("solvation", false);
    context.insert_str("dft_level", "PBE0");
    context.insert_str("dft_basis_set", "def2");
    context.insert_int("nprocs", 2);
    match render(&parsed_template, &context) {
        Ok(result) => assert_eq!(result, rendered_template),
        Err(err) => panic!("Failed to render template, caused by {:?}", err),
    }
}

#[test]
fn render_reports_unresolved_variable() {
    let context = RenderContext::new();
    match render("hello {{ missing }}", &context) {
        Err(RenderError::Failed(msg)) => assert!(msg.contains("missing")),
        other => panic!("expected a render failure, got {:?}", other),
    }
}

#[test]
fn render_uses_latest_value_for_a_name() {
    let mut context = RenderContext::new();
    context.insert_str("x", "old");
    context.insert_str("x", "new");
    assert_eq!(render("{{ x }}", &context).unwrap(), "new");
}

#[test]
fn render_float_parameter_from_text() {
    let mut context = RenderContext::new();
    context.insert_float_text("mem", "2.5");
    assert_eq!(render("mem = {{ mem }}", &context).unwrap(), "mem = 2.5");
}

#[test]
fn print_molecule_rejects_non_molecule() {
    match print_molecule(&CtxValue::Str("CH4".to_string())) {
        Err(RenderError::InvalidArgument(msg)) => assert!(!msg.is_empty()),
        other => panic!("expected an invalid-argument error, got {:?}", other),
    }
}

#[test]
fn print_molecule_joins_atom_lines() {
    let m = Molecule {
        filename: "m".to_string(),
        annotations: "ann".to_string(),
        atoms: vec!["A 0 0 0".to_string(), "B 1 1 1".to_string()],
    };
    assert_eq!(print_molecule(&CtxValue::Mol(m)).unwrap(), "A 0 0 0\nB 1 1 1");
}

#[test]
fn split_molecule_checks_its_arguments() {
    let m = Molecule {
        filename: "m".to_string(),
        annotations: "ann".to_string(),
        atoms: vec!["A 0 0 0".to_string(), "B 1 1 1".to_string()],
    };
    match split_molecule(&CtxValue::Bool(true), &CtxValue::UInt(1)) {
        Err(RenderError::InvalidArgument(_)) => (),
        other => panic!("expected an invalid-argument error, got {:?}", other),
    }
    match split_molecule(&CtxValue::Mol(m.clone()), &CtxValue::Str("1".to_string())) {
        Err(RenderError::InvalidArgument(_)) => (),
        other => panic!("expected an invalid-argument error, got {:?}", other),
    }
    match split_molecule(&CtxValue::Mol(m.clone()), &CtxValue::UInt(2)) {
        Err(RenderError::IndexOutOfRange(e)) => {
            assert_eq!(e.index, 2);
            assert_eq!(e.len, 2);
        },
        other => panic!("expected an index error, got {:?}", other),
    }
    let (a, b) = split_molecule(&CtxValue::Mol(m), &CtxValue::UInt(1)).unwrap();
    assert_eq!(a.filename, "m_split_1");
    assert_eq!(a.atoms, vec!["A 0 0 0".to_string()]);
    assert_eq!(b.filename, "m_split_2");
    assert_eq!(b.atoms, vec!["B 1 1 1".to_string()]);
}

#[test]
fn render_error_messages_name_the_failure() {
    let e = RenderError::IndexOutOfRange(gedent::IndexOutOfRange { index: 5, len: 4 });
    assert_eq!(e.message(), "split index 5 is out of range for a molecule of 4 atoms");
    let f = RenderError::InvalidArgument("wrong".to_string());
    assert_eq!(f.message(), "wrong");
}

#[test]
fn render_print_molecule_helper_inside_template() {
    let mut context = RenderContext::new();
    let m = Molecule {
        filename: "w".to_string(),
        annotations: "ann".to_string(),
        atoms: vec!["O 0 0 0".to_string(), "H 1 0 0".to_string()],
    };
    context.insert_molecule("Molecule", &m);
    assert_eq!(
        render("{{ print_molecule(molecule=Molecule) }}", &context).unwrap(),
        "O 0 0 0\nH 1 0 0"
    );
}

#[test]
fn render_split_molecule_helper_inside_template() {
    let mut context = RenderContext::new();
    let m = Molecule {
        filename: "w".to_string(),
        annotations: "ann".to_string(),
        atoms: vec!["A 0 0 0".to_string(), "B 1 1 1".to_string(), "C 2 2 2".to_string()],
    };
    context.insert_molecule("Molecule", &m);
    let body = "{% set halves = split_molecule(molecule=Molecule, index=1) -%}
{{ print_molecule(molecule=halves[0]) }}
--
{{ print_molecule(molecule=halves[1]) }}";
    assert_eq!(render(body, &context).unwrap(), "A 0 0 0\n--\nB 1 1 1\nC 2 2 2");
}

#[test]
fn render_split_molecule_helper_propagates_index_error() {
    let mut context = RenderContext::new();
    let m = Molecule {
        filename: "w".to_string(),
        annotations: "ann".to_string(),
        atoms: vec!["A 0 0 0".to_string()],
    };
    context.insert_molecule("Molecule", &m);
    let body = "{% set halves = split_molecule(molecule=Molecule, index=4) %}x";
    match render(body, &context) {
        Err(RenderError::Failed(msg)) => {
            assert!(msg.contains("out of range"), "message was: {}", msg)
        },
        other => panic!("expected a render failure, got {:?}", other),
    }
}

#[test]
fn render_ambient_builtins_are_unavailable() {
    let context = RenderContext::new();
    assert!(render("{{ now() }}", &context).is_err());
    assert!(render("{{ get_env(name=\"HOME\") }}", &context).is_err());
    assert!(render("{{ get_random(end=10) }}", &context).is_err());
}

#[test]
fn rendering_two_parsed_frames_gives_their_own_atom_blocks() {
    let text = "5
symmetry c1
C       -0.702728547      0.000000000     -1.996862306
H       -0.172294601     -0.951333822     -1.920672276
H        0.013819138      0.821859802     -1.939355658
H       -1.419276232      0.083844265     -1.177270525
H       -1.233162492      0.045629756     -2.950150766
3
symmetry c1
O       -1.537653553      0.000000000     -2.881263893
H       -1.537653553      0.759337000     -2.285220893
H       -1.537653553     -0.759337000     -2.285220893";
    let mols = parse_geometry(text, "ch4_h2o").unwrap();
    assert_eq!(mols.len(), 2);
    assert_eq!(mols[0].filename, "ch4_h2o_0");
    assert_eq!(mols[1].filename, "ch4_h2o_1");
    assert_eq!(mols[0].atoms.len(), 5);
    assert_eq!(mols[1].atoms.len(), 3);

    let mut blocks: Vec<String> = Vec::new();
    for m in &mols {
        let mut context = RenderContext::new();
        context.insert_molecule("Molecule", m);
        blocks.push(render("{{ print_molecule(molecule=Molecule) }}", &context).unwrap());
    }
    assert_ne!(blocks[0], blocks[1]);
    assert_eq!(blocks[0], mols[0].atoms.join("\n"));
    assert_eq!(blocks[1], mols[1].atoms.join("\n"));
}
