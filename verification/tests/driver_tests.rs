use gedent::driver::generate_input;
use gedent::molecule::parse_geometry;
use gedent::template::find_template_path;
use gedent::template::get_template_path;
use gedent::config::get_config_dir;
use gedent::ArgType;
use gedent::GedentConfig;
use gedent::RenderContext;
use gedent::Template;
use gedent::TemplateOptions;

fn cfg(ext: &str) -> GedentConfig {
    GedentConfig { default_extension: ext.to_string() }
}

fn template(name: &str, body: &str, extension: Option<&str>) -> Template {
    Template {
        name: name.to_string(),
        body: body.to_string(),
        options: TemplateOptions { extension: extension.map(|e| e.to_string()) },
    }
}

#[test]
fn generate_without_molecules_names_output_by_template_name() {
    let t = template("orca/opt", "method {{ method }}", Some("inp"));
    let params = RenderContext::new();
    let r = generate_input(
        &t,
        &Vec::new(),
        None,
        None,
        None,
        Some("PBE0".to_string()),
        None,
        None,
        None,
        false,
        None,
        None,
        None,
        &params,
        &cfg("com"),
    )
    .unwrap();
    assert_eq!(r.len(), 1);
    assert_eq!(r[0].filename, "opt.inp");
    assert_eq!(r[0].content, "method PBE0");
}

#[test]
fn generate_falls_back_to_default_extension() {
    let t = template("sp", "x", None);
    let params = RenderContext::new();
    let r = generate_input(
        &t,
        &Vec::new(),
        None,
        None,
        None,
        None,
        None,
        None,
        None,
        false,
        None,
        None,
        None,
        &params,
        &cfg("com"),
    )
    .unwrap();
    assert_eq!(r[0].filename, "sp.com");
}

#[test]
fn generate_renders_each_frame_with_its_own_name() {
    let text = "1\nfirst\nA 0 0 0\n1\nsecond\nB 1 1 1";
    let mols = parse_geometry(text, "dimer").unwrap();
    let t = template(
        "sp",
        "{{ charge }} {{ mult }}\n{{ print_molecule(molecule=Molecule) }}",
        Some("inp"),
    );
    let mut params = RenderContext::new();
    params.insert_str("unused", "value");
    let r = generate_input(
        &t,
        &mols,
        None,
        Some(1),
        Some(0),
        None,
        None,
        None,
        None,
        false,
        None,
        None,
        None,
        &params,
        &cfg("com"),
    )
    .unwrap();
    assert_eq!(r.len(), 2);
    assert_eq!(r[0].filename, "dimer_0.inp");
    assert_eq!(r[0].content, "0 1\nA 0 0 0");
    assert_eq!(r[1].filename, "dimer_1.inp");
    assert_eq!(r[1].content, "0 1\nB 1 1 1");
}

#[test]
fn generate_inserts_overrides_only_when_given() {
    let t = template(
        "sp",
        "{% if solvation %}solvated in {{ solvent }}{% else %}gas phase{% endif %}",
        Some("inp"),
    );
    let params = RenderContext::new();
    let gas = generate_input(
        &t,
        &Vec::new(),
        None,
        None,
        None,
        None,
        None,
        None,
        None,
        false,
        None,
        None,
        None,
        &params,
        &cfg("com"),
    )
    .unwrap();
    assert_eq!(gas[0].content, "gas phase");
    let wet = generate_input(
        &t,
        &Vec::new(),
        Some(Some("water".to_string())),
        None,
        None,
        None,
        None,
        None,
        None,
        false,
        None,
        None,
        None,
        &params,
        &cfg("com"),
    )
    .unwrap();
    assert_eq!(wet[0].content, "solvated in water");
}

#[test]
fn generate_aborts_the_whole_batch_on_the_first_failure() {
    let text = "1\nfirst\nA 0 0 0\n1\nsecond\nB 1 1 1";
    let mols = parse_geometry(text, "dimer").unwrap();
    let t = template("sp", "{{ not_supplied }}", Some("inp"));
    let params = RenderContext::new();
    let r = generate_input(
        &t,
        &mols,
        None,
        None,
        None,
        None,
        None,
        None,
        None,
        false,
        None,
        None,
        None,
        &params,
        &cfg("com"),
    );
    assert!(r.is_err());
}

#[test]
fn generate_keeps_molecule_directory_in_output_path() {
    let text = "1\nann\nA 0 0 0";
    let mols = parse_geometry(text, "./runs/mol").unwrap();
    let t = template("sp", "x", Some("inp"));
    let params = RenderContext::new();
    let r = generate_input(
        &t,
        &mols,
        None,
        None,
        None,
        None,
        None,
        None,
        None,
        false,
        None,
        None,
        None,
        &params,
        &cfg("com"),
    )
    .unwrap();
    assert_eq!(r[0].filename, "./runs/mol.inp");
}

#[test]
fn generate_replaces_an_extension_already_in_the_template_name() {
    let t = template("runs/water.tpl", "x", Some("inp"));
    let params = RenderContext::new();
    let r = generate_input(
        &t,
        &Vec::new(),
        None,
        None,
        None,
        None,
        None,
        None,
        None,
        false,
        None,
        None,
        None,
        &params,
        &cfg("com"),
    )
    .unwrap();
    assert_eq!(r[0].filename, "water.inp");
}

#[test]
fn generate_with_empty_default_extension_adds_no_dot() {
    let t = template("sp", "x", None);
    let params = RenderContext::new();
    let r = generate_input(
        &t,
        &Vec::new(),
        None,
        None,
        None,
        None,
        None,
        None,
        None,
        false,
        None,
        None,
        None,
        &params,
        &cfg(""),
    )
    .unwrap();
    assert_eq!(r[0].filename, "sp");
}

#[test]
fn paths_are_built_under_the_gedent_home() {
    assert_eq!(get_config_dir("/home/u/.config/gedent"), "/home/u/.config/gedent");
    assert_eq!(
        get_template_path("/home/u/.config/gedent", "orca/opt"),
        "/home/u/.config/gedent/templates/orca/opt"
    );
    assert_eq!(
        find_template_path("/home/u/.config/gedent", "sp"),
        "/home/u/.config/gedent/templates/sp"
    );
}

#[test]
fn arg_type_defaults_to_string() {
    assert_eq!(ArgType::default(), ArgType::String);
}

#[test]
fn empty_molecule_and_template_start_blank() {
    let m = gedent::Molecule::new();
    assert_eq!(m.filename, "");
    assert_eq!(m.annotations, "");
    assert!(m.atoms.is_empty());
    let t = Template::new();
    assert_eq!(t.name, "");
    assert_eq!(t.body, "");
    assert_eq!(t.options.extension, None);
}
