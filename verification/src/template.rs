//! Template compilation: splitting raw template text into a declarative
//! header (parsed as key/value options) and the body to render.
//!
//! A header region is delimited by two lines that contain the marker `--@`:
//! the lines strictly between them are TOML key/value text.  Lines outside
//! header regions are the body.  A template with no marker at all is all
//! body, byte for byte, with default options.

use vstd::prelude::*;

use crate::error::TemplateHeaderError;
use crate::text::{contains_seq, contains_str, join_lines, join_nl, line_seq, split_lines};

verus! {

/// The header options a template may declare.  Unknown keys in the header are
/// tolerated; only these are read.
#[derive(Debug, PartialEq, Clone)]
pub struct TemplateOptions {
    /// The output file suffix the template asks for.
    pub extension: Option<String>,
}

/// A loaded template: a name for lookup and as default output stem, the
/// header-stripped body, and the header's options.
#[derive(Debug, Clone)]
pub struct Template {
    pub name: String,
    pub body: String,
    pub options: TemplateOptions,
}

impl Template {
    /// An empty template: no name, no body, no options.
    pub fn new() -> (t: Template)
        ensures
            t.name@.len() == 0,
            t.body@.len() == 0,
            t.options.extension is None,
    {
        Template {
            name: String::new(),
            body: String::new(),
            options: TemplateOptions { extension: None },
        }
    }
}

/// Where a named template lives: the `templates` directory under the gedent
/// home, once a caller has resolved that home.
pub fn get_template_path(gedent_home: &str, template: &str) -> (r: String)
    ensures
        r@ == gedent_home@ + "/templates/"@ + template@,
{
    let mut p = gedent_home.to_owned();
    p.append("/templates/");
    p.append(template);
    p
}

/// Where a named template lives, from the home directory and the template's
/// name taken as path components.
pub fn find_template_path(gedent_home: &str, template: &str) -> (r: String)
    ensures
        r@ == gedent_home@ + "/templates/"@ + template@,
{
    get_template_path(gedent_home, template)
}

// ---------------------------------------------------------------------------
// The header marker
// ---------------------------------------------------------------------------

/// The marker token that delimits the header region.
pub open spec fn marker() -> Seq<char> {
    seq!['-', '-', '@']
}

/// Some line of the document contains the marker.
pub open spec fn has_marker_line(lines: Seq<Seq<char>>) -> bool {
    exists|i: int| 0 <= i < lines.len() && contains_seq(#[trigger] lines[i], marker())
}

/// Does this line contain the header marker?
fn line_has_marker(line: &str) -> (r: bool)
    ensures
        r == contains_seq(line@, marker()),
{
    proof {
        reveal_strlit("--@");
        assert("--@"@ =~= marker());
    }
    contains_str(line, "--@")
}

// ---------------------------------------------------------------------------
// Header/body separation, modelled over the document's lines
// ---------------------------------------------------------------------------

/// Index of the first marker line, or `lines.len()` if there is none.
pub open spec fn first_marker_idx(lines: Seq<Seq<char>>) -> nat
    decreases lines.len(),
{
    if lines.len() == 0 {
        0
    } else if contains_seq(lines[0], marker()) {
        0
    } else {
        1 + first_marker_idx(lines.drop_first())
    }
}

/// The outcome of separating a document into header and body lines.  When a
/// marker line is never closed by a second one, `closed` is false and the
/// split is meaningless.
pub ghost struct HeaderSplit {
    pub closed: bool,
    pub header: Seq<Seq<char>>,
    pub body: Seq<Seq<char>>,
}

/// Separate a document's lines: a marker line opens a header region that the
/// next marker line closes; lines strictly between them are header text, and
/// the marker lines themselves are dropped.  All other lines are body.
pub open spec fn header_scan(lines: Seq<Seq<char>>) -> HeaderSplit
    decreases lines.len(),
{
    if lines.len() == 0 {
        HeaderSplit { closed: true, header: Seq::empty(), body: Seq::empty() }
    } else if contains_seq(lines[0], marker()) {
        let j = first_marker_idx(lines.drop_first()) as int;
        if j >= lines.len() - 1 {
            HeaderSplit { closed: false, header: Seq::empty(), body: Seq::empty() }
        } else {
            let rest = header_scan(lines.skip(j + 2));
            HeaderSplit {
                closed: rest.closed,
                header: lines.subrange(1, j + 1) + rest.header,
                body: rest.body,
            }
        }
    } else {
        let rest = header_scan(lines.drop_first());
        HeaderSplit { closed: rest.closed, header: rest.header, body: seq![lines[0]] + rest.body }
    }
}

/// If no line before `m` contains the marker and line `m` does (or `m` is the
/// end), then `m` is the first marker index.
proof fn lemma_first_marker_at(lines: Seq<Seq<char>>, m: int)
    requires
        0 <= m <= lines.len(),
        forall|j: int| 0 <= j < m ==> !contains_seq(#[trigger] lines[j], marker()),
        m < lines.len() ==> contains_seq(lines[m], marker()),
    ensures
        first_marker_idx(lines) == m,
    decreases m,
{
    if lines.len() == 0 {
    } else if m == 0 {
    } else {
        assert(forall|j: int|
            0 <= j < m - 1 ==> !contains_seq(#[trigger] lines.drop_first()[j], marker()));
        lemma_first_marker_at(lines.drop_first(), m - 1);
    }
}

proof fn lemma_hscan_body(lines: Seq<Seq<char>>)
    requires
        lines.len() > 0,
        !contains_seq(lines[0], marker()),
    ensures
        header_scan(lines).closed == header_scan(lines.drop_first()).closed,
        header_scan(lines).header == header_scan(lines.drop_first()).header,
        header_scan(lines).body == seq![lines[0]] + header_scan(lines.drop_first()).body,
{
}

proof fn lemma_hscan_region(lines: Seq<Seq<char>>, j: int)
    requires
        lines.len() > 0,
        contains_seq(lines[0], marker()),
        1 <= j + 1 < lines.len(),
        forall|k: int| 1 <= k < j + 1 ==> !contains_seq(#[trigger] lines[k], marker()),
        contains_seq(lines[j + 1], marker()),
    ensures
        header_scan(lines).closed == header_scan(lines.skip(j + 2)).closed,
        header_scan(lines).header == lines.subrange(1, j + 1) + header_scan(lines.skip(j + 2)).header,
        header_scan(lines).body == header_scan(lines.skip(j + 2)).body,
{
    assert(forall|k: int|
        0 <= k < j ==> !contains_seq(#[trigger] lines.drop_first()[k], marker()));
    assert(lines.drop_first()[j] == lines[j + 1]);
    lemma_first_marker_at(lines.drop_first(), j);
    assert(first_marker_idx(lines.drop_first()) == j);
    assert(!(j >= lines.len() - 1));
}

proof fn lemma_hscan_unclosed(lines: Seq<Seq<char>>)
    requires
        lines.len() > 0,
        contains_seq(lines[0], marker()),
        forall|k: int| 1 <= k < lines.len() ==> !contains_seq(#[trigger] lines[k], marker()),
    ensures
        !header_scan(lines).closed,
{
    assert(forall|k: int|
        0 <= k < lines.drop_first().len() ==> !contains_seq(
            #[trigger] lines.drop_first()[k],
            marker(),
        ));
    lemma_first_marker_at(lines.drop_first(), lines.len() - 1);
}

// ---------------------------------------------------------------------------
// The header's key/value format, behind the TOML parser
// ---------------------------------------------------------------------------

#[verifier::external_type_specification]
#[verifier::external_body]
#[verifier::reject_recursive_types(K)]
#[verifier::reject_recursive_types(V)]
pub struct ExTomlMap<K, V>(toml::map::Map<K, V>);

#[verifier::external_type_specification]
#[verifier::external_body]
pub struct ExTomlValue(toml::Value);

/// What the TOML parser makes of key/value text: `None` when the text is not
/// well-formed TOML, otherwise the table's keys, each mapped to its string
/// content (`Some`) or to `None` for a value of any other type.
pub uninterp spec fn toml_doc(s: Seq<char>) -> Option<Map<Seq<char>, Option<Seq<char>>>>;

/// The contents of a parsed TOML table, under the same model as `toml_doc`.
pub uninterp spec fn table_model(t: toml::map::Map<String, toml::Value>) -> Map<
    Seq<char>,
    Option<Seq<char>>,
>;

/// Relies on `toml::from_str::<toml::Table>`: parses key/value text,
/// succeeding exactly on well-formed TOML; the error carries the parser's
/// message.
#[verifier::external_body]
fn toml_parse_table(s: &str) -> (r: Result<toml::map::Map<String, toml::Value>, String>)
    ensures
        r is Ok <==> toml_doc(s@) is Some,
        (r matches Ok(t) ==> table_model(t) == toml_doc(s@)->Some_0),
{
    match toml::from_str::<toml::Table>(s) {
        Ok(t) => Ok(t),
        Err(e) => Err(e.to_string()),
    }
}

/// Relies on `toml::map::Map::get` and the `toml::Value` variants: looks
/// `key` up in the table; `None` when the key is absent, `Some(None)` when
/// its value is not a string, and the string itself otherwise.
#[verifier::external_body]
fn toml_table_get_str(t: &toml::map::Map<String, toml::Value>, key: &str) -> (r: Option<
    Option<String>,
>)
    ensures
        r is Some <==> table_model(*t).contains_key(key@),
        (r matches Some(v) ==> match v {
            Some(s) => table_model(*t)[key@] == Some(s@),
            None => table_model(*t)[key@] is None,
        }),
{
    match t.get(key) {
        None => None,
        Some(toml::Value::String(s)) => Some(Some(s.clone())),
        Some(_) => Some(None),
    }
}

/// The one header key this library reads.
pub open spec fn extension_key() -> Seq<char> {
    seq!['e', 'x', 't', 'e', 'n', 's', 'i', 'o', 'n']
}

// ---------------------------------------------------------------------------
// Compilation
// ---------------------------------------------------------------------------

/// What compiling a document's options comes to, once the header lines are
/// known: the header text must parse as TOML, and the `extension` key, if
/// present, must hold a string.
pub open spec fn options_outcome(r: Result<(String, TemplateOptions), TemplateHeaderError>, hs: HeaderSplit) -> bool {
    match toml_doc(join_nl(hs.header)) {
        None => r matches Err(TemplateHeaderError::Malformed(_)),
        Some(m) => {
            if m.contains_key(extension_key()) {
                match m[extension_key()] {
                    None => r == Err::<(String, TemplateOptions), TemplateHeaderError>(
                        TemplateHeaderError::ExtensionNotString,
                    ),
                    Some(s) => {
                        &&& r is Ok
                        &&& r->Ok_0.0@ == join_nl(hs.body)
                        &&& r->Ok_0.1.extension matches Some(e) && e@ == s
                    },
                }
            } else {
                &&& r is Ok
                &&& r->Ok_0.0@ == join_nl(hs.body)
                &&& r->Ok_0.1.extension is None
            }
        },
    }
}

/// Compile raw template text into `(body, options)`.
///
/// With no marker line anywhere, the whole input is the body, byte for byte,
/// and the options take their defaults.  Otherwise the header regions are cut
/// out, their lines are joined and parsed as TOML options (unknown keys are
/// ignored), and the remaining lines, joined with newlines, are the body.  A
/// marker line that no later line closes is an error, as is header text that
/// does not parse, or an `extension` value that is not a string.
pub fn compile_template(text: &str) -> (r: Result<(String, TemplateOptions), TemplateHeaderError>)
    ensures
        !has_marker_line(line_seq(text@)) ==> {
            &&& r is Ok
            &&& r->Ok_0.0@ == text@
            &&& r->Ok_0.1.extension is None
        },
        has_marker_line(line_seq(text@)) && !header_scan(line_seq(text@)).closed ==> r == Err::<
            (String, TemplateOptions),
            TemplateHeaderError,
        >(TemplateHeaderError::UnclosedHeader),
        has_marker_line(line_seq(text@)) && header_scan(line_seq(text@)).closed ==> options_outcome(
            r,
            header_scan(line_seq(text@)),
        ),
{
    let lines = split_lines(text);
    let ghost lv = line_seq(text@);
    let mut hdr: Vec<String> = Vec::new();
    let mut bdy: Vec<String> = Vec::new();
    let mut saw = false;
    let mut i: usize = 0;
    proof {
        assert(lv.skip(0) =~= lv);
        assert(hdr.deep_view() + header_scan(lv).header =~= header_scan(lv).header);
        assert(bdy.deep_view() + header_scan(lv).body =~= header_scan(lv).body);
    }
    while i < lines.len()
        invariant
            0 <= i <= lines.len(),
            lv == line_seq(text@),
            lines.deep_view() == lv,
            header_scan(lv).closed == header_scan(lv.skip(i as int)).closed,
            header_scan(lv).header == hdr.deep_view() + header_scan(lv.skip(i as int)).header,
            header_scan(lv).body == bdy.deep_view() + header_scan(lv.skip(i as int)).body,
            saw ==> has_marker_line(lv),
            !saw ==> forall|k: int| 0 <= k < i ==> !contains_seq(#[trigger] lv[k], marker()),
        decreases lines.len() - i,
    {
        let ghost rest = lv.skip(i as int);
        proof {
            assert(lv.len() == lines@.len());
            assert(rest.len() == lv.len() - i);
            assert(rest[0] == lv[i as int]);
            assert(lv[i as int] == lines[i as int]@);
        }
        if line_has_marker(lines[i].as_str()) {
            saw = true;
            proof {
                assert(contains_seq(lv[i as int], marker()));
                assert(has_marker_line(lv));
            }
            let mut j: usize = i + 1;
            while j < lines.len() && !line_has_marker(lines[j].as_str())
                invariant
                    i + 1 <= j <= lines.len(),
                    lines.deep_view() == lv,
                    forall|k: int| i + 1 <= k < j ==> !contains_seq(#[trigger] lv[k], marker()),
                decreases lines.len() - j,
            {
                proof {
                    assert(lv[j as int] == lines[j as int]@);
                }
                j = j + 1;
            }
            if j >= lines.len() {
                proof {
                    assert(forall|k: int|
                        1 <= k < rest.len() ==> !contains_seq(#[trigger] rest[k], marker()));
                    lemma_hscan_unclosed(rest);
                }
                return Err(TemplateHeaderError::UnclosedHeader);
            }
            proof {
                assert(lv[j as int] == lines[j as int]@);
                assert(contains_seq(rest[j - i], marker()));
                assert(forall|k: int|
                    1 <= k < j - i ==> !contains_seq(#[trigger] rest[k], marker()));
                lemma_hscan_region(rest, j - i - 1);
                assert(rest.subrange(1, j - i) =~= lv.subrange(i as int + 1, j as int));
                assert(rest.skip(j - i + 1) =~= lv.skip(j as int + 1));
            }
            let ghost old_hdr = hdr.deep_view();
            let mut k: usize = i + 1;
            while k < j
                invariant
                    i + 1 <= k <= j,
                    j < lines.len(),
                    lines.deep_view() == lv,
                    hdr.deep_view() == old_hdr + lv.subrange(i as int + 1, k as int),
                decreases j - k,
            {
                hdr.push(lines[k].clone());
                proof {
                    assert(lv[k as int] == lines[k as int]@);
                    assert(old_hdr + lv.subrange(i as int + 1, k as int + 1) =~= (old_hdr
                        + lv.subrange(i as int + 1, k as int)).push(lv[k as int]));
                }
                k = k + 1;
            }
            proof {
                assert(hdr.deep_view() =~= old_hdr + lv.subrange(i as int + 1, j as int));
                assert(hdr.deep_view() + header_scan(lv.skip(j as int + 1)).header =~= old_hdr + (
                lv.subrange(i as int + 1, j as int) + header_scan(lv.skip(j as int + 1)).header));
            }
            i = j + 1;
        } else {
            proof {
                assert(!contains_seq(rest[0], marker()));
                lemma_hscan_body(rest);
                assert(rest.drop_first() =~= lv.skip(i as int + 1));
            }
            let ghost old_bdy = bdy.deep_view();
            bdy.push(lines[i].clone());
            proof {
                assert(bdy.deep_view() =~= old_bdy.push(lv[i as int]));
                assert(old_bdy + (seq![lv[i as int]] + header_scan(lv.skip(i as int + 1)).body)
                    =~= old_bdy.push(lv[i as int]) + header_scan(lv.skip(i as int + 1)).body);
            }
            i = i + 1;
        }
    }
    proof {
        assert(lv.len() == lines@.len());
        assert(lv.skip(lines.len() as int) =~= Seq::<Seq<char>>::empty());
        assert(header_scan(Seq::<Seq<char>>::empty()).closed);
        assert(header_scan(lv).header =~= hdr.deep_view());
        assert(header_scan(lv).body =~= bdy.deep_view());
    }
    if !saw {
        proof {
            assert(!has_marker_line(lv));
        }
        return Ok((text.to_owned(), TemplateOptions { extension: None }));
    }
    let header_text = join_lines(&hdr);
    match toml_parse_table(header_text.as_str()) {
        Err(msg) => Err(TemplateHeaderError::Malformed(msg)),
        Ok(table) => {
            let body_text = join_lines(&bdy);
            proof {
                reveal_strlit("extension");
                assert("extension"@ =~= extension_key());
            }
            match toml_table_get_str(&table, "extension") {
                None => Ok((body_text, TemplateOptions { extension: None })),
                Some(None) => Err(TemplateHeaderError::ExtensionNotString),
                Some(Some(s)) => Ok((body_text, TemplateOptions { extension: Some(s) })),
            }
        },
    }
}

} // verus!
