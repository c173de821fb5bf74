use gedent::template::compile_template;
use gedent::TemplateHeaderError;

const BODY: &str = "! {{ dft_level }} {{ dft_basis_set }}

nprocs {{ nprocs }}
end

{% if solvation -%}
end

{% endif -%}";

#[test]
fn parse_template_works() {
    let raw = "--@
extension = \"inp\"
--@
! {{ dft_level }} {{ dft_basis_set }}

nprocs {{ nprocs }}
end

{% if solvation -%}
end

{% endif -%}";

    match compile_template(raw) {
        Ok((template, opts)) => {
            assert_eq!(template, BODY.to_string());
            assert_eq!(opts.extension, Some("inp".to_string()))
        },
        Err(_) => panic!("Error parsing template!"),
    }

    // when there is no header opts.extension shoud be none
    match compile_template(BODY) {
        Ok((template, opts)) => {
            assert_eq!(template, BODY.to_string());
            assert_eq!(opts.extension, None)
        },
        Err(_) => panic!("Error parsing template!"),
    }
}

#[test]
fn compile_without_marker_keeps_text_byte_for_byte() {
    let texts = ["", "one line", "a\nb\nc\n", "trailing\n\n", "crlf\r\nline\r\n"];
    for t in texts {
        let (body, opts) = compile_template(t).unwrap();
        assert_eq!(body, t);
        assert_eq!(opts.extension, None);
    }
}

#[test]
fn compile_round_trip_extracts_extension_and_body() {
    let (body, opts) = compile_template("--@\nextension = \"inp\"\n--@\nBODY").unwrap();
    assert_eq!(body, "BODY");
    assert_eq!(opts.extension, Some("inp".to_string()));
}

#[test]
fn compile_rejects_unclosed_header() {
    assert_eq!(
        compile_template("--@\nextension = \"inp\""),
        Err(TemplateHeaderError::UnclosedHeader)
    );
}

#[test]
fn compile_rejects_malformed_header() {
    let r = compile_template("--@\nthis is not = = key value text\n--@\nBODY");
    match r {
        Err(TemplateHeaderError::Malformed(msg)) => assert!(!msg.is_empty()),
        other => panic!("expected a malformed-header error, got {:?}", other),
    }
}

#[test]
fn compile_rejects_non_string_extension() {
    assert_eq!(
        compile_template("--@\nextension = 3\n--@\nBODY"),
        Err(TemplateHeaderError::ExtensionNotString)
    );
}

#[test]
fn compile_tolerates_unknown_header_keys() {
    let (body, opts) = compile_template("--@\ncharge = 2\nnote = \"x\"\n--@\nBODY").unwrap();
    assert_eq!(body, "BODY");
    assert_eq!(opts.extension, None);
}

#[test]
fn compile_keeps_lines_around_header_in_order() {
    let raw = "first
--@
extension = \"com\"
--@
second
third";
    let (body, opts) = compile_template(raw).unwrap();
    assert_eq!(body, "first\nsecond\nthird");
    assert_eq!(opts.extension, Some("com".to_string()));
}
