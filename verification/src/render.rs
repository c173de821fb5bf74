//! Template rendering: a typed parameter context, the two molecule-aware
//! helpers, and the bridge to the template engine.
//!
//! The engine evaluates the body against exactly the supplied context; its
//! ambient builtins (current time, randomness, the process environment) are
//! replaced with failing stubs, so rendering is a function of the body text
//! and the context contents alone.

use vstd::prelude::*;

use crate::error::RenderError;
use crate::molecule::{Molecule, MoleculeView};
use crate::template::Template;
use crate::text::{join_lines, join_nl};

verus! {

// ---------------------------------------------------------------------------
// The typed context
// ---------------------------------------------------------------------------

/// A value a template parameter can hold: a string, a number, a boolean, or
/// a molecule.  A real number is carried as its decimal text; nothing in the
/// library computes on it.
#[derive(Debug, Clone)]
pub enum CtxValue {
    Str(String),
    Int(i64),
    UInt(u64),
    Bool(bool),
    Float(String),
    Mol(Molecule),
}

/// The mathematical content of a context value: what the engine sees.  Both
/// integer kinds denote the same numbers, so they share one constructor; a
/// real number's text denotes the number it parses to, named by
/// `float_ctx_val`.
pub ghost enum CtxVal {
    Str(Seq<char>),
    Num(int),
    Bool(bool),
    Float(CtxFloat),
    Mol(MoleculeView),
}

/// An opaque stand-in for the number a real-number text denotes.  Two texts
/// that parse to the same number denote the same value; nothing more is said
/// of it.
pub ghost struct CtxFloat {
    pub denoted: int,
}

/// What a real-number text denotes in a context: a function of the text
/// alone, with texts that parse to the same number denoting the same value.
pub uninterp spec fn float_ctx_val(text: Seq<char>) -> CtxFloat;

impl View for CtxValue {
    type V = CtxVal;

    open spec fn view(&self) -> CtxVal {
        match self {
            CtxValue::Str(s) => CtxVal::Str(s@),
            CtxValue::Int(i) => CtxVal::Num(*i as int),
            CtxValue::UInt(u) => CtxVal::Num(*u as int),
            CtxValue::Bool(b) => CtxVal::Bool(*b),
            CtxValue::Float(s) => CtxVal::Float(float_ctx_val(s@)),
            CtxValue::Mol(m) => CtxVal::Mol(m@),
        }
    }
}

/// An ordered mapping from parameter name to value.  Insertion order is kept;
/// on rendering, a later entry with the same name wins.
pub struct RenderContext {
    pub entries: Vec<(String, CtxValue)>,
}

impl View for RenderContext {
    type V = Seq<(Seq<char>, CtxVal)>;

    open spec fn view(&self) -> Seq<(Seq<char>, CtxVal)> {
        Seq::new(self.entries@.len(), |i: int| (self.entries@[i].0@, self.entries@[i].1@))
    }
}

/// The mapping a context denotes: entries folded left to right, so that a
/// later entry with the same name replaces an earlier one.
pub open spec fn ctx_map(entries: Seq<(Seq<char>, CtxVal)>) -> Map<Seq<char>, CtxVal>
    decreases entries.len(),
{
    if entries.len() == 0 {
        Map::empty()
    } else {
        ctx_map(entries.drop_last()).insert(entries.last().0, entries.last().1)
    }
}

proof fn lemma_ctx_map_take_zero(entries: Seq<(Seq<char>, CtxVal)>)
    ensures
        ctx_map(entries.take(0)) == Map::<Seq<char>, CtxVal>::empty(),
{
    assert(entries.take(0) =~= Seq::<(Seq<char>, CtxVal)>::empty());
}

proof fn lemma_ctx_map_take_step(entries: Seq<(Seq<char>, CtxVal)>, i: int)
    requires
        0 <= i < entries.len(),
    ensures
        ctx_map(entries.take(i + 1)) == ctx_map(entries.take(i)).insert(
            entries[i].0,
            entries[i].1,
        ),
{
    assert(entries.take(i + 1).drop_last() =~= entries.take(i));
    assert(entries.take(i + 1).last() == entries[i]);
}

impl RenderContext {
    /// An empty context.
    pub fn new() -> (c: RenderContext)
        ensures
            c@ =~= Seq::<(Seq<char>, CtxVal)>::empty(),
    {
        RenderContext { entries: Vec::new() }
    }

    /// Add a string parameter.
    pub fn insert_str(&mut self, key: &str, val: &str)
        ensures
            final(self)@ =~= old(self)@.push((key@, CtxVal::Str(val@))),
    {
        self.entries.push((key.to_owned(), CtxValue::Str(val.to_owned())));
    }

    /// Add a signed integer parameter.
    pub fn insert_int(&mut self, key: &str, val: i64)
        ensures
            final(self)@ =~= old(self)@.push((key@, CtxVal::Num(val as int))),
    {
        self.entries.push((key.to_owned(), CtxValue::Int(val)));
    }

    /// Add an unsigned integer parameter.
    pub fn insert_uint(&mut self, key: &str, val: u64)
        ensures
            final(self)@ =~= old(self)@.push((key@, CtxVal::Num(val as int))),
    {
        self.entries.push((key.to_owned(), CtxValue::UInt(val)));
    }

    /// Add a boolean parameter.
    pub fn insert_bool(&mut self, key: &str, val: bool)
        ensures
            final(self)@ =~= old(self)@.push((key@, CtxVal::Bool(val))),
    {
        self.entries.push((key.to_owned(), CtxValue::Bool(val)));
    }

    /// Add a real-number parameter, given as its decimal text.
    pub fn insert_float_text(&mut self, key: &str, val: &str)
        ensures
            final(self)@ =~= old(self)@.push((key@, CtxVal::Float(float_ctx_val(val@)))),
    {
        self.entries.push((key.to_owned(), CtxValue::Float(val.to_owned())));
    }

    /// Add a molecule parameter.
    pub fn insert_molecule(&mut self, key: &str, val: &Molecule)
        ensures
            final(self)@ =~= old(self)@.push((key@, CtxVal::Mol(val@))),
    {
        self.entries.push((key.to_owned(), CtxValue::Mol(val.clone())));
    }

    /// A copy of this context, with the same entries.
    pub fn duplicate(&self) -> (c: RenderContext)
        ensures
            c@ =~= self@,
    {
        let mut entries: Vec<(String, CtxValue)> = Vec::new();
        let mut i: usize = 0;
        while i < self.entries.len()
            invariant
                0 <= i <= self.entries.len(),
                entries@.len() == i,
                forall|j: int|
                    0 <= j < i ==> (#[trigger] entries@[j]).0@ == self.entries@[j].0@
                        && entries@[j].1@ == self.entries@[j].1@,
            decreases self.entries.len() - i,
        {
            let (k, v) = &self.entries[i];
            let v2 = match v {
                CtxValue::Str(s) => CtxValue::Str(s.clone()),
                CtxValue::Int(n) => CtxValue::Int(*n),
                CtxValue::UInt(n) => CtxValue::UInt(*n),
                CtxValue::Bool(b) => CtxValue::Bool(*b),
                CtxValue::Float(s) => CtxValue::Float(s.clone()),
                CtxValue::Mol(m) => CtxValue::Mol(m.clone()),
            };
            entries.push((k.clone(), v2));
            i = i + 1;
        }
        let c = RenderContext { entries };
        proof {
            assert(c@ =~= self@);
        }
        c
    }
}

// ---------------------------------------------------------------------------
// Outside types of the engine
// ---------------------------------------------------------------------------

#[verifier::external_type_specification]
#[verifier::external_body]
pub struct ExTeraContext(tera::Context);

#[verifier::external_type_specification]
#[verifier::external_body]
pub struct ExTeraError(tera::Error);

#[verifier::external_type_specification]
#[verifier::external_body]
pub struct ExJsonValue(serde_json::Value);

// ---------------------------------------------------------------------------
// Molecules through the engine's dynamic values
// ---------------------------------------------------------------------------

/// What a dynamic engine value holds when it is a molecule object: the
/// decoded molecule content, or `None` for any other value.
pub uninterp spec fn molecule_value_model(v: serde_json::Value) -> Option<MoleculeView>;

/// Relies on `serde_json::Value` construction (`Map::insert` and the value
/// variants): encodes a molecule as the object
/// `{"filename", "annotations", "atoms"}`, which `value_to_molecule` decodes
/// back.
#[verifier::external_body]
fn molecule_to_value(m: &Molecule) -> (r: serde_json::Value)
    ensures
        molecule_value_model(r) == Some(m@),
{
    let mut map = serde_json::Map::new();
    map.insert("filename".to_owned(), serde_json::Value::String(m.filename.clone()));
    map.insert("annotations".to_owned(), serde_json::Value::String(m.annotations.clone()));
    let atoms = m.atoms.iter().map(|a| serde_json::Value::String(a.clone())).collect();
    map.insert("atoms".to_owned(), serde_json::Value::Array(atoms));
    serde_json::Value::Object(map)
}

/// Relies on the `serde_json::Value` accessors (`get`, `as_str`, `as_array`):
/// decodes the molecule object shape that `molecule_to_value` produces, and
/// rejects every other value.
#[verifier::external_body]
fn value_to_molecule(v: &serde_json::Value) -> (r: Option<Molecule>)
    ensures
        (r matches Some(m) ==> molecule_value_model(*v) == Some(m@)),
        r is None ==> molecule_value_model(*v) is None,
{
    let filename = v.get("filename")?.as_str()?.to_owned();
    let annotations = v.get("annotations")?.as_str()?.to_owned();
    let mut atoms: Vec<String> = Vec::new();
    for a in v.get("atoms")?.as_array()? {
        atoms.push(a.as_str()?.to_owned());
    }
    Some(Molecule { filename, annotations, atoms })
}

/// What a dynamic engine value holds when it is an unsigned integer.
pub uninterp spec fn value_u64_model(v: serde_json::Value) -> Option<u64>;

/// Relies on `serde_json::Value::as_u64`: the value's content as an unsigned
/// integer, when it is one.
#[verifier::external_body]
fn value_as_u64(v: &serde_json::Value) -> (r: Option<u64>)
    ensures
        r == value_u64_model(*v),
{
    v.as_u64()
}

/// Relies on `serde_json::Value` construction: the two molecules as a
/// two-element array, each element encoded as `molecule_to_value` encodes it,
/// so that `value_to_molecule` decodes either half.
#[verifier::external_body]
fn molecule_pair_to_value(a: &Molecule, b: &Molecule) -> (r: serde_json::Value)
{
    serde_json::Value::Array(vec![molecule_to_value(a), molecule_to_value(b)])
}

// ---------------------------------------------------------------------------
// The helpers
// ---------------------------------------------------------------------------

/// A molecule as the text block its atom lines form, joined by newlines, in
/// order.  No re-validation happens here: the molecule is already valid.
pub fn molecule_text(m: &Molecule) -> (r: String)
    ensures
        r@ == join_nl(m@.atoms),
{
    join_lines(&m.atoms)
}

/// The print-molecule helper over a tagged argument: a molecule renders as
/// its atom lines joined by newlines; any other kind of value is rejected.
pub fn print_molecule(arg: &CtxValue) -> (r: Result<String, RenderError>)
    ensures
        (arg matches CtxValue::Mol(m) ==> r is Ok && r->Ok_0@ == join_nl(m@.atoms)),
        !(arg is Mol) ==> (r matches Err(RenderError::InvalidArgument(_))),
{
    match arg {
        CtxValue::Mol(m) => Ok(molecule_text(m)),
        _ => Err(
            RenderError::InvalidArgument(
                "Function `print_molecule` can only print a Molecule".to_owned(),
            ),
        ),
    }
}

/// The split-molecule helper over tagged arguments: splits the molecule
/// before the given atom index and returns both halves; a non-molecule value
/// or a non-integer index is rejected, and an index at or past the end
/// propagates the split's failure unchanged.
pub fn split_molecule(mol: &CtxValue, index: &CtxValue) -> (r: Result<
    (Molecule, Molecule),
    RenderError,
>)
    ensures
        !(mol is Mol) ==> (r matches Err(RenderError::InvalidArgument(_))),
        mol is Mol && !(index is UInt) ==> (r matches Err(RenderError::InvalidArgument(_))),
        (match (mol, index) {
            (CtxValue::Mol(m), CtxValue::UInt(u)) => {
                let mv = m@;
                if u > usize::MAX as u64 {
                    r matches Err(RenderError::InvalidArgument(_))
                } else if (u as int) < mv.atoms.len() {
                    &&& r is Ok
                    &&& r->Ok_0.0@.filename == mv.filename + "_split_1"@
                    &&& r->Ok_0.0@.annotations == mv.annotations
                    &&& r->Ok_0.0@.atoms == mv.atoms.take(u as int)
                    &&& r->Ok_0.1@.filename == mv.filename + "_split_2"@
                    &&& r->Ok_0.1@.annotations == mv.annotations
                    &&& r->Ok_0.1@.atoms == mv.atoms.skip(u as int)
                } else {
                    r matches Err(RenderError::IndexOutOfRange(e)) && e.index == u && e.len
                        == mv.atoms.len()
                }
            },
            _ => true,
        }),
{
    let m = match mol {
        CtxValue::Mol(m) => m,
        _ => {
            return Err(
                RenderError::InvalidArgument(
                    "Function `split_molecule` can only split a Molecule".to_owned(),
                ),
            );
        },
    };
    let u = match index {
        CtxValue::UInt(u) => *u,
        _ => {
            return Err(
                RenderError::InvalidArgument(
                    "Function `split_molecule` needs an unsigned integer `index`".to_owned(),
                ),
            );
        },
    };
    if u > usize::MAX as u64 {
        return Err(
            RenderError::InvalidArgument(
                "Function `split_molecule` received an `index` that is out of range".to_owned(),
            ),
        );
    }
    match m.split(u as usize) {
        Ok(p) => Ok(p),
        Err(e) => Err(RenderError::IndexOutOfRange(e)),
    }
}

/// The print-molecule helper over the engine's dynamic argument: an absent
/// or non-molecule argument is rejected with a message; otherwise the text
/// block of the molecule's atom lines comes back.
pub fn helper_print(arg: Option<&serde_json::Value>) -> (r: Result<String, String>)
    ensures
        arg is None ==> r is Err,
        (arg matches Some(v) ==> match molecule_value_model(*v) {
            Some(mv) => r is Ok && r->Ok_0@ == join_nl(mv.atoms),
            None => r is Err,
        }),
{
    match arg {
        None => Err("Function `print_molecule` didn't receive a `molecule` argument".to_owned()),
        Some(v) => match value_to_molecule(v) {
            None => Err(
                "Function `print_molecule` received a `molecule` that is not a Molecule".to_owned(),
            ),
            Some(m) => Ok(molecule_text(&m)),
        },
    }
}

/// The split-molecule helper over the engine's dynamic arguments: both halves
/// of the split, as a two-element array usable by the template body.  Absent
/// or wrong-typed arguments are rejected with a message, and so is an index
/// at or past the end of the atom list.
pub fn helper_split(mol: Option<&serde_json::Value>, index: Option<&serde_json::Value>) -> (r:
    Result<serde_json::Value, String>)
    ensures
        mol is None ==> r is Err,
        index is None ==> r is Err,
        (match (mol, index) {
            (Some(mv), Some(iv)) => match (molecule_value_model(*mv), value_u64_model(*iv)) {
                (Some(m), Some(u)) => r is Ok <==> u <= usize::MAX as u64 && (u as int)
                    < m.atoms.len(),
                _ => r is Err,
            },
            _ => true,
        }),
{
    let mv = match mol {
        None => {
            return Err(
                "Function `split_molecule` didn't receive a `molecule` argument".to_owned(),
            );
        },
        Some(v) => v,
    };
    let iv = match index {
        None => {
            return Err("Function `split_molecule` didn't receive an `index` argument".to_owned());
        },
        Some(v) => v,
    };
    let m = match value_to_molecule(mv) {
        None => {
            return Err(
                "Function `split_molecule` received a `molecule` that is not a Molecule".to_owned(),
            );
        },
        Some(m) => m,
    };
    let u = match value_as_u64(iv) {
        None => {
            return Err(
                "Function `split_molecule` received an `index` that is not an unsigned integer".to_owned(),
            );
        },
        Some(u) => u,
    };
    match split_molecule(&CtxValue::Mol(m), &CtxValue::UInt(u)) {
        Ok((a, b)) => Ok(molecule_pair_to_value(&a, &b)),
        Err(e) => Err(e.message()),
    }
}

// ---------------------------------------------------------------------------
// The engine bridge
// ---------------------------------------------------------------------------

/// The contents of an engine context, under the same model as `ctx_map`.
pub uninterp spec fn ctx_model(c: tera::Context) -> Map<Seq<char>, CtxVal>;

/// Relies on `tera::Context::new`: an empty context.
#[verifier::external_body]
fn tera_ctx_new() -> (r: tera::Context)
    ensures
        (ctx_model(r) == Map::<Seq<char>, CtxVal>::empty()),
{
    tera::Context::new()
}

/// Relies on `tera::Context::insert`: stores a string value under the key,
/// replacing any earlier value with that key.
#[verifier::external_body]
fn tera_ctx_insert_str(c: &mut tera::Context, key: &str, val: &str)
    ensures
        ctx_model(*final(c)) == ctx_model(*old(c)).insert(key@, CtxVal::Str(val@)),
{
    c.insert(key, val);
}

/// Relies on `tera::Context::insert`: stores a signed integer under the key,
/// replacing any earlier value with that key.
#[verifier::external_body]
fn tera_ctx_insert_int(c: &mut tera::Context, key: &str, val: i64)
    ensures
        ctx_model(*final(c)) == ctx_model(*old(c)).insert(key@, CtxVal::Num(val as int)),
{
    c.insert(key, &val);
}

/// Relies on `tera::Context::insert`: stores an unsigned integer under the
/// key, replacing any earlier value with that key.
#[verifier::external_body]
fn tera_ctx_insert_uint(c: &mut tera::Context, key: &str, val: u64)
    ensures
        ctx_model(*final(c)) == ctx_model(*old(c)).insert(key@, CtxVal::Num(val as int)),
{
    c.insert(key, &val);
}

/// Relies on `tera::Context::insert`: stores a boolean under the key,
/// replacing any earlier value with that key.
#[verifier::external_body]
fn tera_ctx_insert_bool(c: &mut tera::Context, key: &str, val: bool)
    ensures
        ctx_model(*final(c)) == ctx_model(*old(c)).insert(key@, CtxVal::Bool(val)),
{
    c.insert(key, &val);
}

/// Relies on `tera::Context::insert` and `str::parse::<serde_json::Number>`:
/// stores the number the text denotes under the key (or a null value, should
/// the text not parse as a number, as the engine itself does with numbers it
/// cannot represent), replacing any earlier value with that key.
#[verifier::external_body]
fn tera_ctx_insert_float_text(c: &mut tera::Context, key: &str, val: &str)
    ensures
        ctx_model(*final(c)) == ctx_model(*old(c)).insert(key@, CtxVal::Float(float_ctx_val(val@))),
{
    match val.parse::<serde_json::Number>() {
        Ok(n) => c.insert(key, &serde_json::Value::Number(n)),
        Err(_) => c.insert(key, &serde_json::Value::Null),
    }
}

/// Relies on `tera::Context::insert`: stores the molecule, encoded as
/// `molecule_to_value` encodes it, replacing any earlier value with that key.
#[verifier::external_body]
fn tera_ctx_insert_molecule(c: &mut tera::Context, key: &str, val: &Molecule)
    ensures
        ctx_model(*final(c)) == ctx_model(*old(c)).insert(key@, CtxVal::Mol(val@)),
{
    c.insert(key, &molecule_to_value(val));
}

/// Glue registered in place of the engine's ambient builtins (`now`,
/// `get_random`, `get_env`): always fails, so no rendering can depend on the
/// time, on randomness or on the process environment.  Relies on
/// `tera::Error::msg`; registered by `tera_render`, called by the engine
/// only.
#[verifier::external_body]
fn ambient_stub_fn(_args: &std::collections::HashMap<String, serde_json::Value>) -> Result<
    serde_json::Value,
    tera::Error,
> {
    Err(tera::Error::msg("not available here"))
}

/// Glue the engine calls for `print_molecule`: hands the `molecule` argument
/// to `helper_print`.  Relies on `HashMap::get` and `tera::Error::msg`;
/// registered by `tera_render`, called by the engine only.
#[verifier::external_body]
fn print_molecule_fn(args: &std::collections::HashMap<String, serde_json::Value>) -> Result<
    serde_json::Value,
    tera::Error,
> {
    match helper_print(args.get("molecule")) {
        Ok(s) => Ok(serde_json::Value::String(s)),
        Err(msg) => Err(tera::Error::msg(msg)),
    }
}

/// Glue the engine calls for `split_molecule`: hands the `molecule` and
/// `index` arguments to `helper_split`.  Relies on `HashMap::get` and
/// `tera::Error::msg`; registered by `tera_render`, called by the engine
/// only.
#[verifier::external_body]
fn split_molecule_fn(args: &std::collections::HashMap<String, serde_json::Value>) -> Result<
    serde_json::Value,
    tera::Error,
> {
    match helper_split(args.get("molecule"), args.get("index")) {
        Ok(v) => Ok(v),
        Err(msg) => Err(tera::Error::msg(msg)),
    }
}

/// The engine's error, with every cause in its chain appended, so that a
/// helper's own message (the offending variable or index) reaches the caller.
/// Relies on `tera::Error`'s message and source chain; called by
/// `tera_render` only.
#[verifier::external_body]
fn render_error_text(e: &tera::Error) -> String {
    let mut msg = e.to_string();
    let mut src = std::error::Error::source(e);
    while let Some(cause) = src {
        msg = format!("{}: {}", msg, cause);
        src = cause.source();
    }
    msg
}

/// What the engine renders for a body against context contents, with the two
/// molecule helpers available: the output text, or `None` for any failure
/// (an unresolved variable, a malformed construct, a helper error).
pub uninterp spec fn tera_output(body: Seq<char>, ctx: Map<Seq<char>, CtxVal>) -> Option<Seq<char>>;

/// Relies on `tera::Tera` (`add_raw_template`, `render`) with the molecule
/// helpers registered and the ambient builtins (`now`, `get_random`,
/// `get_env`) replaced by failing stubs: the outcome is a function of the
/// body text and the context contents alone; the error carries the engine's
/// message.
#[verifier::external_body]
fn tera_render(body: &str, c: &tera::Context) -> (r: Result<String, String>)
    ensures
        r is Ok <==> tera_output(body@, ctx_model(*c)) is Some,
        (r matches Ok(s) ==> tera_output(body@, ctx_model(*c)) == Some(s@)),
{
    let mut t = tera::Tera::default();
    t.register_function("now", ambient_stub_fn);
    t.register_function("get_random", ambient_stub_fn);
    t.register_function("get_env", ambient_stub_fn);
    t.register_function("print_molecule", print_molecule_fn);
    t.register_function("split_molecule", split_molecule_fn);
    if let Err(e) = t.add_raw_template("template", body) {
        return Err(e.to_string());
    }
    match t.render("template", c) {
        Ok(s) => Ok(s),
        Err(e) => Err(render_error_text(&e)),
    }
}

/// Render a template body against a context.  The output is exactly what the
/// engine produces for this body and these context contents; any failure is
/// reported as `RenderError::Failed` with the engine's message.
pub fn render(body: &str, context: &RenderContext) -> (r: Result<String, RenderError>)
    ensures
        r is Ok <==> tera_output(body@, ctx_map(context@)) is Some,
        (r matches Ok(s) ==> tera_output(body@, ctx_map(context@)) == Some(s@)),
        (r matches Err(e) ==> e matches RenderError::Failed(_)),
{
    let mut c = tera_ctx_new();
    let mut i: usize = 0;
    proof {
        lemma_ctx_map_take_zero(context@);
    }
    while i < context.entries.len()
        invariant
            0 <= i <= context.entries.len(),
            context@.len() == context.entries.len(),
            ctx_model(c) == ctx_map(context@.take(i as int)),
        decreases context.entries.len() - i,
    {
        proof {
            assert(context@[i as int] == (context.entries@[i as int].0@, context.entries@[
                i as int].1@));
        }
        let (key, val) = &context.entries[i];
        match val {
            CtxValue::Str(s) => tera_ctx_insert_str(&mut c, key.as_str(), s.as_str()),
            CtxValue::Int(n) => tera_ctx_insert_int(&mut c, key.as_str(), *n),
            CtxValue::UInt(n) => tera_ctx_insert_uint(&mut c, key.as_str(), *n),
            CtxValue::Bool(b) => tera_ctx_insert_bool(&mut c, key.as_str(), *b),
            CtxValue::Float(s) => tera_ctx_insert_float_text(&mut c, key.as_str(), s.as_str()),
            CtxValue::Mol(m) => tera_ctx_insert_molecule(&mut c, key.as_str(), m),
        }
        proof {
            lemma_ctx_map_take_step(context@, i as int);
        }
        i = i + 1;
    }
    proof {
        assert(context@.take(context@.len() as int) =~= context@);
    }
    match tera_render(body, &c) {
        Ok(s) => Ok(s),
        Err(msg) => Err(RenderError::Failed(msg)),
    }
}

impl Template {
    /// Render this template's body against the context.
    pub fn render(&self, context: &RenderContext) -> (r: Result<String, RenderError>)
        ensures
            r is Ok <==> tera_output(self.body@, ctx_map(context@)) is Some,
            (r matches Ok(s) ==> tera_output(self.body@, ctx_map(context@)) == Some(s@)),
            (r matches Err(e) ==> e matches RenderError::Failed(_)),
    {
        render(self.body.as_str(), context)
    }
}

} // verus!
