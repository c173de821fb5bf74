//! Input generation: assemble the parameter context from the resolved
//! configuration and the explicit overrides, render once per molecule (or
//! once with no molecule), and derive each output's file name.

use vstd::prelude::*;

use crate::config::GedentConfig;
use crate::error::RenderError;
use crate::molecule::Molecule;
use crate::render::{ctx_map, render, tera_output, CtxVal, RenderContext};
use crate::template::Template;
use crate::text::{lemma_rfind_bounds, rfind, rfind_char};

verus! {

/// One rendering result: the file name to write and the rendered text.
#[derive(Debug, PartialEq)]
pub struct Input {
    pub filename: String,
    pub content: String,
}

// ---------------------------------------------------------------------------
// Output file names
// ---------------------------------------------------------------------------

/// `p` with its extension replaced by `ext`: within the last `/`-separated
/// component, everything from the last `.` on (if it stands past the
/// component's first character) is dropped, and `.ext` is appended unless
/// `ext` is empty.
pub open spec fn with_ext(p: Seq<char>, ext: Seq<char>) -> Seq<char> {
    let comp_start = rfind(p, '/') + 1;
    let comp = p.skip(comp_start);
    let d = rfind(comp, '.');
    let stem = if d > 0 {
        p.take(comp_start + d)
    } else {
        p
    };
    if ext.len() == 0 {
        stem
    } else {
        stem + seq!['.'] + ext
    }
}

/// The output name for a template rendered without molecules: the last path
/// component of the template's name, with the resolved extension.
pub open spec fn output_name(name: Seq<char>, ext: Seq<char>) -> Seq<char> {
    let w = with_ext(name, ext);
    w.skip(rfind(w, '/') + 1)
}

/// Replace a path's extension.
pub fn with_ext_str(p: &str, ext: &str) -> (r: String)
    ensures
        r@ == with_ext(p@, ext@),
{
    let n = p.unicode_len();
    proof {
        lemma_rfind_bounds(p@, '/');
    }
    let comp_start = match rfind_char(p, '/') {
        Some(i) => i + 1,
        None => 0,
    };
    proof {
        assert(comp_start == rfind(p@, '/') + 1);
    }
    let comp = p.substring_char(comp_start, n);
    proof {
        assert(comp@ =~= p@.skip(comp_start as int));
        assert(comp@.len() == n - comp_start);
        lemma_rfind_bounds(comp@, '.');
    }
    let stem_end = match rfind_char(comp, '.') {
        Some(d) => if d > 0 {
            comp_start + d
        } else {
            n
        },
        None => n,
    };
    let mut out = p.substring_char(0, stem_end).to_owned();
    proof {
        if rfind(comp@, '.') > 0 {
            assert(out@ =~= p@.take(comp_start + rfind(comp@, '.')));
        } else {
            assert(out@ =~= p@);
        }
    }
    if ext.unicode_len() > 0 {
        proof {
            reveal_strlit(".");
        }
        out.append(".");
        out.append(ext);
        proof {
            assert(out@ =~= with_ext(p@, ext@));
        }
    } else {
        proof {
            assert(out@ =~= with_ext(p@, ext@));
        }
    }
    out
}

/// The output name for a template rendered without molecules.
pub fn output_name_str(name: &str, ext: &str) -> (r: String)
    ensures
        r@ == output_name(name@, ext@),
{
    let w = with_ext_str(name, ext);
    let n = w.as_str().unicode_len();
    proof {
        lemma_rfind_bounds(w@, '/');
    }
    let start = match rfind_char(w.as_str(), '/') {
        Some(i) => i + 1,
        None => 0,
    };
    proof {
        assert(start == rfind(w@, '/') + 1);
    }
    let r = w.as_str().substring_char(start, n).to_owned();
    proof {
        assert(r@ =~= w@.skip(start as int));
    }
    r
}

// ---------------------------------------------------------------------------
// Context assembly
// ---------------------------------------------------------------------------

/// One optional string parameter, inserted only when it was given.
pub open spec fn opt_str_entry(key: Seq<char>, v: Option<String>) -> Seq<(Seq<char>, CtxVal)> {
    match v {
        None => Seq::empty(),
        Some(s) => seq![(key, CtxVal::Str(s@))],
    }
}

/// One optional count parameter, inserted only when it was given.
pub open spec fn opt_uint_entry(key: Seq<char>, v: Option<usize>) -> Seq<(Seq<char>, CtxVal)> {
    match v {
        None => Seq::empty(),
        Some(u) => seq![(key, CtxVal::Num(u as int))],
    }
}

/// A flag parameter, inserted only when it is set.
pub open spec fn flag_entry(key: Seq<char>, b: bool) -> Seq<(Seq<char>, CtxVal)> {
    if b {
        seq![(key, CtxVal::Bool(true))]
    } else {
        Seq::empty()
    }
}

/// The solvation override: asking for solvation sets `solvation`, and names
/// the solvent when one was given.
pub open spec fn solvation_entries(v: Option<Option<String>>) -> Seq<(Seq<char>, CtxVal)> {
    match v {
        None => Seq::empty(),
        Some(solvent) => seq![("solvation"@, CtxVal::Bool(true))] + (match solvent {
            None => Seq::empty(),
            Some(s) => seq![("solvent"@, CtxVal::Str(s@))],
        }),
    }
}

/// Every explicitly-given override, in insertion order.  A value that was not
/// given is never inserted: absence, not an implicit default, is what the
/// rendered output sees.
pub open spec fn override_entries(
    solvation: Option<Option<String>>,
    mult: Option<usize>,
    charge: Option<usize>,
    method: Option<String>,
    basis_set: Option<String>,
    dispersion: Option<String>,
    solvation_model: Option<String>,
    hessian: bool,
    nprocs: Option<usize>,
    mem: Option<usize>,
    split_index: Option<usize>,
) -> Seq<(Seq<char>, CtxVal)> {
    solvation_entries(solvation) + flag_entry("hessian"@, hessian) + opt_uint_entry(
        "charge"@,
        charge,
    ) + opt_uint_entry("mult"@, mult) + opt_uint_entry("nprocs"@, nprocs) + opt_uint_entry(
        "mem"@,
        mem,
    ) + opt_uint_entry("split_index"@, split_index) + opt_str_entry("method"@, method)
        + opt_str_entry("basis_set"@, basis_set) + opt_str_entry("dispersion"@, dispersion)
        + opt_str_entry("solvation_model"@, solvation_model)
}

/// The context a molecule's render sees: the base entries plus the molecule
/// under the fixed key `Molecule`.
pub open spec fn molecule_ctx(
    base: Seq<(Seq<char>, CtxVal)>,
    m: crate::molecule::MoleculeView,
) -> Map<Seq<char>, CtxVal> {
    ctx_map(base.push(("Molecule"@, CtxVal::Mol(m))))
}

// ---------------------------------------------------------------------------
// The driver
// ---------------------------------------------------------------------------

/// Insert an optional string override.
fn add_opt_str(ctx: &mut RenderContext, key: &str, v: &Option<String>)
    ensures
        final(ctx)@ == old(ctx)@ + opt_str_entry(key@, *v),
{
    match v {
        None => {
            proof {
                assert(old(ctx)@ + opt_str_entry(key@, *v) =~= old(ctx)@);
            }
        },
        Some(val) => {
            ctx.insert_str(key, val.as_str());
            proof {
                assert(old(ctx)@.push((key@, CtxVal::Str(val@))) =~= old(ctx)@ + opt_str_entry(
                    key@,
                    *v,
                ));
            }
        },
    }
}

/// Insert an optional count override.
fn add_opt_uint(ctx: &mut RenderContext, key: &str, v: &Option<usize>)
    ensures
        final(ctx)@ == old(ctx)@ + opt_uint_entry(key@, *v),
{
    match v {
        None => {
            proof {
                assert(old(ctx)@ + opt_uint_entry(key@, *v) =~= old(ctx)@);
            }
        },
        Some(val) => {
            ctx.insert_uint(key, *val as u64);
            proof {
                assert(old(ctx)@.push((key@, CtxVal::Num(*val as int))) =~= old(ctx)@
                    + opt_uint_entry(key@, *v));
            }
        },
    }
}

/// Insert a flag override when it is set.
fn add_flag(ctx: &mut RenderContext, key: &str, b: bool)
    ensures
        final(ctx)@ == old(ctx)@ + flag_entry(key@, b),
{
    if b {
        ctx.insert_bool(key, true);
        proof {
            assert(old(ctx)@.push((key@, CtxVal::Bool(true))) =~= old(ctx)@ + flag_entry(key@, b));
        }
    } else {
        proof {
            assert(old(ctx)@ + flag_entry(key@, b) =~= old(ctx)@);
        }
    }
}

/// Insert the solvation override.
fn add_solvation(ctx: &mut RenderContext, v: &Option<Option<String>>)
    ensures
        final(ctx)@ == old(ctx)@ + solvation_entries(*v),
{
    match v {
        None => {
            proof {
                assert(old(ctx)@ + solvation_entries(*v) =~= old(ctx)@);
            }
        },
        Some(solvent) => {
            ctx.insert_bool("solvation", true);
            match solvent {
                None => {
                    proof {
                        assert(old(ctx)@.push(("solvation"@, CtxVal::Bool(true))) =~= old(ctx)@
                            + solvation_entries(*v));
                    }
                },
                Some(sv) => {
                    ctx.insert_str("solvent", sv.as_str());
                    proof {
                        assert(old(ctx)@.push(("solvation"@, CtxVal::Bool(true))).push(
                            ("solvent"@, CtxVal::Str(sv@)),
                        ) =~= old(ctx)@ + solvation_entries(*v));
                    }
                },
            }
        },
    }
}

/// The base context of one generation request: the resolved configuration
/// parameters, followed by every explicitly-given override.
pub fn build_context(
    params: &RenderContext,
    solvation: &Option<Option<String>>,
    mult: &Option<usize>,
    charge: &Option<usize>,
    method: &Option<String>,
    basis_set: &Option<String>,
    dispersion: &Option<String>,
    solvation_model: &Option<String>,
    hessian: bool,
    nprocs: &Option<usize>,
    mem: &Option<usize>,
    split_index: &Option<usize>,
) -> (c: RenderContext)
    ensures
        c@ == params@ + override_entries(
            *solvation,
            *mult,
            *charge,
            *method,
            *basis_set,
            *dispersion,
            *solvation_model,
            hessian,
            *nprocs,
            *mem,
            *split_index,
        ),
{
    let mut ctx = params.duplicate();
    add_solvation(&mut ctx, solvation);
    add_flag(&mut ctx, "hessian", hessian);
    add_opt_uint(&mut ctx, "charge", charge);
    add_opt_uint(&mut ctx, "mult", mult);
    add_opt_uint(&mut ctx, "nprocs", nprocs);
    add_opt_uint(&mut ctx, "mem", mem);
    add_opt_uint(&mut ctx, "split_index", split_index);
    add_opt_str(&mut ctx, "method", method);
    add_opt_str(&mut ctx, "basis_set", basis_set);
    add_opt_str(&mut ctx, "dispersion", dispersion);
    add_opt_str(&mut ctx, "solvation_model", solvation_model);
    proof {
        let p = params@;
        let s1 = solvation_entries(*solvation);
        let s2 = flag_entry("hessian"@, hessian);
        let s3 = opt_uint_entry("charge"@, *charge);
        let s4 = opt_uint_entry("mult"@, *mult);
        let s5 = opt_uint_entry("nprocs"@, *nprocs);
        let s6 = opt_uint_entry("mem"@, *mem);
        let s7 = opt_uint_entry("split_index"@, *split_index);
        let s8 = opt_str_entry("method"@, *method);
        let s9 = opt_str_entry("basis_set"@, *basis_set);
        let s10 = opt_str_entry("dispersion"@, *dispersion);
        let s11 = opt_str_entry("solvation_model"@, *solvation_model);
        assert((p + s1) + s2 =~= p + (s1 + s2));
        assert((p + (s1 + s2)) + s3 =~= p + (s1 + s2 + s3));
        assert((p + (s1 + s2 + s3)) + s4 =~= p + (s1 + s2 + s3 + s4));
        assert((p + (s1 + s2 + s3 + s4)) + s5 =~= p + (s1 + s2 + s3 + s4 + s5));
        assert((p + (s1 + s2 + s3 + s4 + s5)) + s6 =~= p + (s1 + s2 + s3 + s4 + s5 + s6));
        assert((p + (s1 + s2 + s3 + s4 + s5 + s6)) + s7 =~= p + (s1 + s2 + s3 + s4 + s5 + s6
            + s7));
        assert((p + (s1 + s2 + s3 + s4 + s5 + s6 + s7)) + s8 =~= p + (s1 + s2 + s3 + s4 + s5 + s6
            + s7 + s8));
        assert((p + (s1 + s2 + s3 + s4 + s5 + s6 + s7 + s8)) + s9 =~= p + (s1 + s2 + s3 + s4 + s5
            + s6 + s7 + s8 + s9));
        assert((p + (s1 + s2 + s3 + s4 + s5 + s6 + s7 + s8 + s9)) + s10 =~= p + (s1 + s2 + s3 + s4
            + s5 + s6 + s7 + s8 + s9 + s10));
        assert((p + (s1 + s2 + s3 + s4 + s5 + s6 + s7 + s8 + s9 + s10)) + s11 =~= p + (s1 + s2
            + s3 + s4 + s5 + s6 + s7 + s8 + s9 + s10 + s11));
    }
    ctx
}

/// Generate one rendered input per molecule, or a single one when no
/// molecules were given.
///
/// The context is the resolved configuration parameters followed by the
/// explicitly-given overrides; each molecule is rendered against its own copy
/// of that context with the molecule inserted under `Molecule`.  The output
/// extension is the template's declared one, or the configuration's default.
/// Outputs are named by each molecule's derived filename (or, with no
/// molecules, by the template's own name) with that extension.  The first
/// render failure aborts the whole batch: no partial results come back.
#[verifier::rlimit(50)]
pub fn generate_input(
    template: &Template,
    molecules: &Vec<Molecule>,
    solvation: Option<Option<String>>,
    mult: Option<usize>,
    charge: Option<usize>,
    method: Option<String>,
    basis_set: Option<String>,
    dispersion: Option<String>,
    solvation_model: Option<String>,
    hessian: bool,
    nprocs: Option<usize>,
    mem: Option<usize>,
    split_index: Option<usize>,
    params: &RenderContext,
    cfg: &GedentConfig,
) -> (r: Result<Vec<Input>, RenderError>)
    ensures
        ({
            let base = params@ + override_entries(
                solvation,
                mult,
                charge,
                method,
                basis_set,
                dispersion,
                solvation_model,
                hessian,
                nprocs,
                mem,
                split_index,
            );
            let ext = match template.options.extension {
                Some(e) => e@,
                None => cfg.default_extension@,
            };
            &&& (r matches Err(e) ==> e matches RenderError::Failed(_))
            &&& (molecules@.len() == 0 ==> {
                &&& (r is Ok <==> tera_output(template.body@, ctx_map(base)) is Some)
                &&& (r matches Ok(v) ==> {
                    &&& v@.len() == 1
                    &&& v@[0].filename@ == output_name(template.name@, ext)
                    &&& v@[0].content@ == tera_output(template.body@, ctx_map(base))->Some_0
                })
            })
            &&& (molecules@.len() > 0 ==> {
                &&& (r is Ok <==> (forall|i: int|
                    0 <= i < molecules@.len() ==> (#[trigger] tera_output(
                        template.body@,
                        molecule_ctx(base, molecules@[i]@),
                    )) is Some))
                &&& (r matches Ok(v) ==> {
                    &&& v@.len() == molecules@.len()
                    &&& (forall|i: int|
                        0 <= i < molecules@.len() ==> {
                            &&& (#[trigger] v@[i]).filename@ == with_ext(
                                molecules@[i]@.filename,
                                ext,
                            )
                            &&& v@[i].content@ == tera_output(
                                template.body@,
                                molecule_ctx(base, molecules@[i]@),
                            )->Some_0
                        })
                })
            })
        }),
{
    let ghost base = params@ + override_entries(
        solvation,
        mult,
        charge,
        method,
        basis_set,
        dispersion,
        solvation_model,
        hessian,
        nprocs,
        mem,
        split_index,
    );
    let ctx = build_context(
        params,
        &solvation,
        &mult,
        &charge,
        &method,
        &basis_set,
        &dispersion,
        &solvation_model,
        hessian,
        &nprocs,
        &mem,
        &split_index,
    );
    let ext: &str = match &template.options.extension {
        Some(e) => e.as_str(),
        None => cfg.default_extension.as_str(),
    };
    let ghost ext_v = ext@;
    let mut results: Vec<Input> = Vec::new();
    if molecules.len() == 0 {
        let filename = output_name_str(template.name.as_str(), ext);
        match render(template.body.as_str(), &ctx) {
            Ok(content) => {
                results.push(Input { filename, content });
                Ok(results)
            },
            Err(e) => Err(e),
        }
    } else {
        let mut i: usize = 0;
        while i < molecules.len()
            invariant
                0 <= i <= molecules.len(),
                base == params@ + override_entries(
                    solvation,
                    mult,
                    charge,
                    method,
                    basis_set,
                    dispersion,
                    solvation_model,
                    hessian,
                    nprocs,
                    mem,
                    split_index,
                ),
                ctx@ == base,
                ext@ == ext_v,
                results@.len() == i,
                forall|j: int|
                    0 <= j < i ==> (#[trigger] tera_output(
                        template.body@,
                        molecule_ctx(base, molecules@[j]@),
                    )) is Some,
                forall|j: int|
                    0 <= j < i ==> {
                        &&& (#[trigger] results@[j]).filename@ == with_ext(
                            molecules@[j]@.filename,
                            ext_v,
                        )
                        &&& results@[j].content@ == tera_output(
                            template.body@,
                            molecule_ctx(base, molecules@[j]@),
                        )->Some_0
                    },
            decreases molecules.len() - i,
        {
            let mut mol_ctx = ctx.duplicate();
            mol_ctx.insert_molecule("Molecule", &molecules[i]);
            proof {
                assert(mol_ctx@ =~= base.push(("Molecule"@, CtxVal::Mol(molecules@[i as int]@))));
            }
            match render(template.body.as_str(), &mol_ctx) {
                Err(e) => {
                    proof {
                        assert(tera_output(
                            template.body@,
                            molecule_ctx(base, molecules@[i as int]@),
                        ) is None);
                    }
                    return Err(e);
                },
                Ok(content) => {
                    let filename = with_ext_str(molecules[i].filename.as_str(), ext);
                    results.push(Input { filename, content });
                },
            }
            i = i + 1;
        }
        Ok(results)
    }
}

} // verus!
