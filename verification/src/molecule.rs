//! Molecules: parsing multi-frame geometry text into validated frame records,
//! and splitting a molecule in two by an atom index.

use vstd::prelude::*;

use crate::error::{GeometryFormatError, IndexOutOfRange};
use crate::text::{
    blank_tokens, check_coordinate, dec_str, dec_val, is_coordinate, is_count_line, line_seq,
    parse_count, split_blanks, split_lines, usize_to_string,
};

verus! {

/// A single geometry frame: a named, ordered sequence of raw atom lines.
#[derive(Debug, PartialEq)]
pub struct Molecule {
    /// Output stem derived from the source file, unique per frame.
    pub filename: String,
    /// The free-text comment line that follows the atom-count line.
    pub annotations: String,
    /// The raw atom lines, kept verbatim.
    pub atoms: Vec<String>,
}

/// The mathematical content of a molecule.
pub ghost struct MoleculeView {
    pub filename: Seq<char>,
    pub annotations: Seq<char>,
    pub atoms: Seq<Seq<char>>,
}

impl View for Molecule {
    type V = MoleculeView;

    open spec fn view(&self) -> MoleculeView {
        MoleculeView {
            filename: self.filename@,
            annotations: self.annotations@,
            atoms: self.atoms.deep_view(),
        }
    }
}

/// Copy a vector of strings, keeping its contents.
pub fn clone_string_vec(v: &Vec<String>) -> (r: Vec<String>)
    ensures
        r.deep_view() == v.deep_view(),
        r@ =~= v@,
{
    let r = v.clone();
    proof {
        assert forall|i: int| 0 <= i < v.len() implies r[i] == v[i] by {
            assert(cloned::<String>(v[i], r[i]));
        }
        assert(r@ =~= v@);
        assert(r.deep_view() =~= v.deep_view());
    }
    r
}

impl Clone for Molecule {
    /// Cloning keeps every field.
    fn clone(&self) -> (r: Molecule)
        ensures
            r@ == self@,
    {
        Molecule {
            filename: self.filename.clone(),
            annotations: self.annotations.clone(),
            atoms: clone_string_vec(&self.atoms),
        }
    }
}

impl Molecule {
    /// An empty molecule: no name, no annotations, no atoms.
    pub fn new() -> (m: Molecule)
        ensures
            m@.filename.len() == 0,
            m@.annotations.len() == 0,
            m@.atoms.len() == 0,
    {
        Molecule { filename: String::new(), annotations: String::new(), atoms: Vec::new() }
    }

    /// Split the molecule before atom `index`: the first half keeps atoms
    /// `[0, index)` under the name `<filename>_split_1`, the second keeps
    /// atoms `[index, len)` under `<filename>_split_2`, and both keep the
    /// annotations.  An index at or past the end is rejected and nothing is
    /// produced.  The input is never changed.
    pub fn split(&self, index: usize) -> (r: Result<(Molecule, Molecule), IndexOutOfRange>)
        ensures
            index < self@.atoms.len() ==> {
                &&& r is Ok
                &&& {
                    let (m1, m2) = r.unwrap();
                    &&& m1@.filename == self@.filename + "_split_1"@
                    &&& m2@.filename == self@.filename + "_split_2"@
                    &&& m1@.annotations == self@.annotations
                    &&& m2@.annotations == self@.annotations
                    &&& m1@.atoms == self@.atoms.take(index as int)
                    &&& m2@.atoms == self@.atoms.skip(index as int)
                    &&& m1@.atoms + m2@.atoms == self@.atoms
                }
            },
            index >= self@.atoms.len() ==> r == Err::<(Molecule, Molecule), IndexOutOfRange>(
                IndexOutOfRange { index, len: self.atoms.len() },
            ),
    {
        if index >= self.atoms.len() {
            return Err(IndexOutOfRange { index, len: self.atoms.len() });
        }
        let mut atoms1: Vec<String> = Vec::new();
        let mut i: usize = 0;
        while i < index
            invariant
                0 <= i <= index,
                index < self.atoms.len(),
                atoms1.deep_view() =~= self@.atoms.take(i as int),
            decreases index - i,
        {
            atoms1.push(self.atoms[i].clone());
            proof {
                assert(atoms1.deep_view() =~= self@.atoms.take(i as int).push(self@.atoms[i as int]));
                assert(self@.atoms.take(i as int).push(self@.atoms[i as int]) =~= self@.atoms.take(
                    i as int + 1,
                ));
            }
            i = i + 1;
        }
        let mut atoms2: Vec<String> = Vec::new();
        let mut j: usize = index;
        while j < self.atoms.len()
            invariant
                index <= j <= self.atoms.len(),
                atoms2.deep_view() =~= self@.atoms.subrange(index as int, j as int),
            decreases self.atoms.len() - j,
        {
            atoms2.push(self.atoms[j].clone());
            proof {
                assert(atoms2.deep_view() =~= self@.atoms.subrange(index as int, j as int).push(
                    self@.atoms[j as int],
                ));
                assert(self@.atoms.subrange(index as int, j as int).push(self@.atoms[j as int])
                    =~= self@.atoms.subrange(index as int, j as int + 1));
            }
            j = j + 1;
        }
        let m1 = Molecule {
            filename: self.filename.clone().concat("_split_1"),
            annotations: self.annotations.clone(),
            atoms: atoms1,
        };
        let m2 = Molecule {
            filename: self.filename.clone().concat("_split_2"),
            annotations: self.annotations.clone(),
            atoms: atoms2,
        };
        proof {
            assert(m2@.atoms =~= self@.atoms.skip(index as int));
            assert(m1@.atoms + m2@.atoms =~= self@.atoms);
        }
        Ok((m1, m2))
    }
}

// ---------------------------------------------------------------------------
// The geometry format, modelled over the input's lines
// ---------------------------------------------------------------------------

/// Outcome of scanning geometry lines: either the finalized frames, each an
/// `(annotations, atoms)` pair in source order, or the first failure.
pub ghost enum GeomParse {
    Frames { frames: Seq<(Seq<char>, Seq<Seq<char>>)> },
    Empty,
    LeadingContent,
    MissingAnnotation { frame: int },
    CountMismatch { frame: int, expected: nat, found: nat },
}

/// Scan the remaining lines.  `done` holds the finalized frames; `declared`,
/// `ann` and `atoms` describe the frame being accumulated.  A count line
/// finalizes the current frame (its atom tally must equal its declared count)
/// and opens a new one whose annotation is the following line; any other line
/// is one more atom of the current frame; the end of input finalizes the last
/// frame.
pub open spec fn geom_scan(
    lines: Seq<Seq<char>>,
    done: Seq<(Seq<char>, Seq<Seq<char>>)>,
    declared: nat,
    ann: Seq<char>,
    atoms: Seq<Seq<char>>,
) -> GeomParse
    decreases lines.len(),
{
    if lines.len() == 0 {
        if atoms.len() == declared {
            GeomParse::Frames { frames: done.push((ann, atoms)) }
        } else {
            GeomParse::CountMismatch {
                frame: done.len() as int,
                expected: declared,
                found: atoms.len(),
            }
        }
    } else if is_count_line(lines[0]) {
        if atoms.len() != declared {
            GeomParse::CountMismatch {
                frame: done.len() as int,
                expected: declared,
                found: atoms.len(),
            }
        } else if lines.len() == 1 {
            GeomParse::MissingAnnotation { frame: done.len() as int + 1 }
        } else {
            geom_scan(
                lines.skip(2),
                done.push((ann, atoms)),
                dec_val(lines[0]),
                lines[1],
                Seq::empty(),
            )
        }
    } else {
        geom_scan(lines.drop_first(), done, declared, ann, atoms.push(lines[0]))
    }
}

proof fn lemma_scan_eof(
    done: Seq<(Seq<char>, Seq<Seq<char>>)>,
    d: nat,
    ann: Seq<char>,
    atoms: Seq<Seq<char>>,
)
    ensures
        (geom_scan(Seq::empty(), done, d, ann, atoms) == if atoms.len() == d {
            GeomParse::Frames { frames: done.push((ann, atoms)) }
        } else {
            GeomParse::CountMismatch { frame: done.len() as int, expected: d, found: atoms.len() }
        }),
{
}

proof fn lemma_scan_mismatch(
    lines: Seq<Seq<char>>,
    done: Seq<(Seq<char>, Seq<Seq<char>>)>,
    d: nat,
    ann: Seq<char>,
    atoms: Seq<Seq<char>>,
)
    requires
        lines.len() != 0,
        is_count_line(lines[0]),
        atoms.len() != d,
    ensures
        (geom_scan(lines, done, d, ann, atoms) == GeomParse::CountMismatch {
            frame: done.len() as int,
            expected: d,
            found: atoms.len(),
        }),
{
}

proof fn lemma_scan_missing_ann(
    lines: Seq<Seq<char>>,
    done: Seq<(Seq<char>, Seq<Seq<char>>)>,
    d: nat,
    ann: Seq<char>,
    atoms: Seq<Seq<char>>,
)
    requires
        lines.len() == 1,
        is_count_line(lines[0]),
        atoms.len() == d,
    ensures
        (geom_scan(lines, done, d, ann, atoms) == GeomParse::MissingAnnotation {
            frame: done.len() as int + 1,
        }),
{
}

proof fn lemma_scan_new_frame(
    lines: Seq<Seq<char>>,
    done: Seq<(Seq<char>, Seq<Seq<char>>)>,
    d: nat,
    ann: Seq<char>,
    atoms: Seq<Seq<char>>,
)
    requires
        lines.len() >= 2,
        is_count_line(lines[0]),
        atoms.len() == d,
    ensures
        geom_scan(lines, done, d, ann, atoms) == geom_scan(
            lines.skip(2),
            done.push((ann, atoms)),
            dec_val(lines[0]),
            lines[1],
            Seq::empty(),
        ),
{
}

proof fn lemma_scan_atom(
    lines: Seq<Seq<char>>,
    done: Seq<(Seq<char>, Seq<Seq<char>>)>,
    d: nat,
    ann: Seq<char>,
    atoms: Seq<Seq<char>>,
)
    requires
        lines.len() != 0,
        !is_count_line(lines[0]),
    ensures
        geom_scan(lines, done, d, ann, atoms) == geom_scan(
            lines.drop_first(),
            done,
            d,
            ann,
            atoms.push(lines[0]),
        ),
{
}

/// Parse geometry lines from the start: the first line must be an atom-count
/// line and must be followed by an annotation line.
pub open spec fn geom_parse(lines: Seq<Seq<char>>) -> GeomParse {
    if lines.len() == 0 {
        GeomParse::Empty
    } else if !is_count_line(lines[0]) {
        GeomParse::LeadingContent
    } else if lines.len() == 1 {
        GeomParse::MissingAnnotation { frame: 0 }
    } else {
        geom_scan(lines.skip(2), Seq::empty(), dec_val(lines[0]), lines[1], Seq::empty())
    }
}

// ---------------------------------------------------------------------------
// Laws of the geometry parser
// ---------------------------------------------------------------------------

/// One frame of the wire format as a `(count line, annotation, atom lines)`
/// triple: the count line declares exactly as many atoms as follow, and no
/// atom line could be mistaken for a count line.
pub open spec fn wf_frame_block(b: (Seq<char>, Seq<char>, Seq<Seq<char>>)) -> bool {
    &&& is_count_line(b.0)
    &&& dec_val(b.0) == b.2.len()
    &&& forall|i: int| 0 <= i < b.2.len() ==> !is_count_line(#[trigger] b.2[i])
}

pub open spec fn wf_blocks(blocks: Seq<(Seq<char>, Seq<char>, Seq<Seq<char>>)>) -> bool {
    forall|i: int| 0 <= i < blocks.len() ==> wf_frame_block(#[trigger] blocks[i])
}

/// The lines of one frame block.
pub open spec fn frame_lines(b: (Seq<char>, Seq<char>, Seq<Seq<char>>)) -> Seq<Seq<char>> {
    seq![b.0, b.1] + b.2
}

/// The lines of a whole document: the frame blocks, concatenated.
pub open spec fn frames_lines(blocks: Seq<(Seq<char>, Seq<char>, Seq<Seq<char>>)>) -> Seq<
    Seq<char>,
>
    decreases blocks.len(),
{
    if blocks.len() == 0 {
        Seq::empty()
    } else {
        frame_lines(blocks[0]) + frames_lines(blocks.drop_first())
    }
}

/// The frames that a block sequence should parse to.
pub open spec fn blocks_frames(blocks: Seq<(Seq<char>, Seq<char>, Seq<Seq<char>>)>) -> Seq<
    (Seq<char>, Seq<Seq<char>>),
> {
    Seq::new(blocks.len(), |i: int| (blocks[i].1, blocks[i].2))
}

/// Lines that are not count lines are simply accumulated as atoms.
proof fn lemma_scan_append_atoms(
    noncount: Seq<Seq<char>>,
    rest: Seq<Seq<char>>,
    done: Seq<(Seq<char>, Seq<Seq<char>>)>,
    d: nat,
    ann: Seq<char>,
    atoms: Seq<Seq<char>>,
)
    requires
        forall|i: int| 0 <= i < noncount.len() ==> !is_count_line(#[trigger] noncount[i]),
    ensures
        geom_scan(noncount + rest, done, d, ann, atoms) == geom_scan(
            rest,
            done,
            d,
            ann,
            atoms + noncount,
        ),
    decreases noncount.len(),
{
    if noncount.len() == 0 {
        assert(noncount + rest =~= rest);
        assert(atoms + noncount =~= atoms);
    } else {
        let l = noncount + rest;
        assert(l[0] == noncount[0]);
        lemma_scan_atom(l, done, d, ann, atoms);
        assert(l.drop_first() =~= noncount.drop_first() + rest);
        assert(forall|i: int|
            0 <= i < noncount.drop_first().len() ==> !is_count_line(
                #[trigger] noncount.drop_first()[i],
            ));
        lemma_scan_append_atoms(noncount.drop_first(), rest, done, d, ann, atoms.push(l[0]));
        assert(atoms.push(l[0]) + noncount.drop_first() =~= atoms + noncount);
    }
}

/// Scanning a sequence of well-formed frame blocks from a state whose current
/// frame is complete finalizes the current frame and then every block, in
/// order.
proof fn lemma_scan_blocks(
    blocks: Seq<(Seq<char>, Seq<char>, Seq<Seq<char>>)>,
    done: Seq<(Seq<char>, Seq<Seq<char>>)>,
    d: nat,
    ann: Seq<char>,
    atoms: Seq<Seq<char>>,
)
    requires
        wf_blocks(blocks),
        atoms.len() == d,
    ensures
        (geom_scan(frames_lines(blocks), done, d, ann, atoms) == GeomParse::Frames {
            frames: done.push((ann, atoms)) + blocks_frames(blocks),
        }),
    decreases blocks.len(),
{
    if blocks.len() == 0 {
        assert(frames_lines(blocks) =~= Seq::<Seq<char>>::empty());
        lemma_scan_eof(done, d, ann, atoms);
        assert(done.push((ann, atoms)) + blocks_frames(blocks) =~= done.push((ann, atoms)));
    } else {
        let b0 = blocks[0];
        assert(wf_frame_block(b0));
        let l = frames_lines(blocks);
        assert(l =~= seq![b0.0, b0.1] + (b0.2 + frames_lines(blocks.drop_first())));
        assert(l[0] == b0.0);
        assert(l[1] == b0.1);
        assert(l.len() >= 2);
        lemma_scan_new_frame(l, done, d, ann, atoms);
        assert(l.skip(2) =~= b0.2 + frames_lines(blocks.drop_first()));
        lemma_scan_append_atoms(
            b0.2,
            frames_lines(blocks.drop_first()),
            done.push((ann, atoms)),
            dec_val(b0.0),
            b0.1,
            Seq::empty(),
        );
        assert(Seq::<Seq<char>>::empty() + b0.2 =~= b0.2);
        assert(wf_blocks(blocks.drop_first()));
        lemma_scan_blocks(blocks.drop_first(), done.push((ann, atoms)), dec_val(b0.0), b0.1, b0.2);
        assert(done.push((ann, atoms)).push((b0.1, b0.2)) + blocks_frames(blocks.drop_first())
            =~= done.push((ann, atoms)) + blocks_frames(blocks));
    }
}

/// A document made of `k >= 1` well-formed frame blocks parses to exactly
/// those `k` frames, in source order, each holding its own annotation line
/// and exactly the atom lines its count line declared.
pub proof fn lemma_parse_frames(blocks: Seq<(Seq<char>, Seq<char>, Seq<Seq<char>>)>)
    requires
        blocks.len() >= 1,
        wf_blocks(blocks),
    ensures
        (geom_parse(frames_lines(blocks)) == GeomParse::Frames { frames: blocks_frames(blocks) }),
{
    let b0 = blocks[0];
    assert(wf_frame_block(b0));
    let l = frames_lines(blocks);
    assert(l =~= seq![b0.0, b0.1] + (b0.2 + frames_lines(blocks.drop_first())));
    assert(l[0] == b0.0);
    assert(l[1] == b0.1);
    assert(l.len() >= 2);
    assert(geom_parse(l) == geom_scan(l.skip(2), Seq::empty(), dec_val(l[0]), l[1], Seq::empty()));
    assert(l.skip(2) =~= b0.2 + frames_lines(blocks.drop_first()));
    lemma_scan_append_atoms(
        b0.2,
        frames_lines(blocks.drop_first()),
        Seq::empty(),
        dec_val(b0.0),
        b0.1,
        Seq::empty(),
    );
    assert(Seq::<Seq<char>>::empty() + b0.2 =~= b0.2);
    assert(wf_blocks(blocks.drop_first()));
    lemma_scan_blocks(blocks.drop_first(), Seq::empty(), dec_val(b0.0), b0.1, b0.2);
    assert(Seq::<(Seq<char>, Seq<Seq<char>>)>::empty().push((b0.1, b0.2)) + blocks_frames(
        blocks.drop_first(),
    ) =~= blocks_frames(blocks));
}

/// A well-formed single frame — a count line declaring `N`, an annotation
/// line, and exactly `N` atom lines — parses to exactly one frame holding
/// those atoms, and `parse_geometry` then names it by the source stem alone.
pub proof fn lemma_parse_single_frame(b: (Seq<char>, Seq<char>, Seq<Seq<char>>))
    requires
        wf_frame_block(b),
    ensures
        (geom_parse(frame_lines(b)) == GeomParse::Frames { frames: seq![(b.1, b.2)] }),
        (forall|stem: Seq<char>| frame_filename(stem, 1, 0) == stem),
{
    let blocks = seq![b];
    assert(wf_blocks(blocks));
    assert(blocks[0] == b);
    assert(blocks.drop_first() =~= Seq::<(Seq<char>, Seq<char>, Seq<Seq<char>>)>::empty());
    assert(frames_lines(blocks.drop_first()) == Seq::<Seq<char>>::empty());
    assert(frames_lines(blocks) =~= frame_lines(b));
    lemma_parse_frames(blocks);
    assert(blocks_frames(blocks) =~= seq![(b.1, b.2)]);
}

/// After well-formed frame blocks, a frame whose atom-line tally (found
/// before the next frame boundary or the end of input) differs from its
/// declared count makes the whole parse fail with a count mismatch naming
/// that frame, its declared count and the tally found; no frames come out.
proof fn lemma_scan_mismatch_blocks(
    blocks: Seq<(Seq<char>, Seq<char>, Seq<Seq<char>>)>,
    c: Seq<char>,
    ann2: Seq<char>,
    atoms2: Seq<Seq<char>>,
    rest: Seq<Seq<char>>,
    done: Seq<(Seq<char>, Seq<Seq<char>>)>,
    d: nat,
    ann: Seq<char>,
    atoms: Seq<Seq<char>>,
)
    requires
        wf_blocks(blocks),
        atoms.len() == d,
        is_count_line(c),
        forall|i: int| 0 <= i < atoms2.len() ==> !is_count_line(#[trigger] atoms2[i]),
        atoms2.len() != dec_val(c),
        rest.len() > 0 ==> is_count_line(rest[0]),
    ensures
        (geom_scan(frames_lines(blocks) + seq![c, ann2] + atoms2 + rest, done, d, ann, atoms)
            == GeomParse::CountMismatch {
            frame: done.len() + 1 + blocks.len() as int,
            expected: dec_val(c),
            found: atoms2.len(),
        }),
    decreases blocks.len(),
{
    if blocks.len() == 0 {
        let l = frames_lines(blocks) + seq![c, ann2] + atoms2 + rest;
        assert(l =~= seq![c, ann2] + (atoms2 + rest));
        assert(l[0] == c);
        assert(l[1] == ann2);
        assert(l.len() >= 2);
        lemma_scan_new_frame(l, done, d, ann, atoms);
        assert(l.skip(2) =~= atoms2 + rest);
        lemma_scan_append_atoms(
            atoms2,
            rest,
            done.push((ann, atoms)),
            dec_val(c),
            ann2,
            Seq::empty(),
        );
        assert(Seq::<Seq<char>>::empty() + atoms2 =~= atoms2);
        if rest.len() == 0 {
            assert(rest =~= Seq::<Seq<char>>::empty());
            lemma_scan_eof(done.push((ann, atoms)), dec_val(c), ann2, atoms2);
        } else {
            lemma_scan_mismatch(rest, done.push((ann, atoms)), dec_val(c), ann2, atoms2);
        }
    } else {
        let b0 = blocks[0];
        assert(wf_frame_block(b0));
        let tail = frames_lines(blocks.drop_first()) + seq![c, ann2] + atoms2 + rest;
        let l = frames_lines(blocks) + seq![c, ann2] + atoms2 + rest;
        assert(l =~= seq![b0.0, b0.1] + (b0.2 + tail));
        assert(l[0] == b0.0);
        assert(l[1] == b0.1);
        assert(l.len() >= 2);
        lemma_scan_new_frame(l, done, d, ann, atoms);
        assert(l.skip(2) =~= b0.2 + tail);
        lemma_scan_append_atoms(
            b0.2,
            tail,
            done.push((ann, atoms)),
            dec_val(b0.0),
            b0.1,
            Seq::empty(),
        );
        assert(Seq::<Seq<char>>::empty() + b0.2 =~= b0.2);
        assert(wf_blocks(blocks.drop_first()));
        lemma_scan_mismatch_blocks(
            blocks.drop_first(),
            c,
            ann2,
            atoms2,
            rest,
            done.push((ann, atoms)),
            dec_val(b0.0),
            b0.1,
            b0.2,
        );
    }
}

/// A document whose frame `k` (zero-based, after `k` well-formed frames)
/// declares one count but holds another number of atom lines before the next
/// boundary or the end of input fails with a count mismatch naming frame `k`
/// and both counts; the parse yields no frames at all.
pub proof fn lemma_parse_count_mismatch(
    blocks: Seq<(Seq<char>, Seq<char>, Seq<Seq<char>>)>,
    c: Seq<char>,
    ann2: Seq<char>,
    atoms2: Seq<Seq<char>>,
    rest: Seq<Seq<char>>,
)
    requires
        wf_blocks(blocks),
        is_count_line(c),
        forall|i: int| 0 <= i < atoms2.len() ==> !is_count_line(#[trigger] atoms2[i]),
        atoms2.len() != dec_val(c),
        rest.len() > 0 ==> is_count_line(rest[0]),
    ensures
        (geom_parse(frames_lines(blocks) + seq![c, ann2] + atoms2 + rest)
            == GeomParse::CountMismatch {
            frame: blocks.len() as int,
            expected: dec_val(c),
            found: atoms2.len(),
        }),
{
    let l = frames_lines(blocks) + seq![c, ann2] + atoms2 + rest;
    if blocks.len() == 0 {
        assert(l =~= seq![c, ann2] + (atoms2 + rest));
        assert(l[0] == c);
        assert(l[1] == ann2);
        assert(l.len() >= 2);
        assert(geom_parse(l) == geom_scan(
            l.skip(2),
            Seq::empty(),
            dec_val(l[0]),
            l[1],
            Seq::empty(),
        ));
        assert(l.skip(2) =~= atoms2 + rest);
        lemma_scan_append_atoms(atoms2, rest, Seq::empty(), dec_val(c), ann2, Seq::empty());
        assert(Seq::<Seq<char>>::empty() + atoms2 =~= atoms2);
        if rest.len() == 0 {
            assert(rest =~= Seq::<Seq<char>>::empty());
            lemma_scan_eof(Seq::empty(), dec_val(c), ann2, atoms2);
        } else {
            lemma_scan_mismatch(rest, Seq::empty(), dec_val(c), ann2, atoms2);
        }
    } else {
        let b0 = blocks[0];
        assert(wf_frame_block(b0));
        let tail = frames_lines(blocks.drop_first()) + seq![c, ann2] + atoms2 + rest;
        assert(l =~= seq![b0.0, b0.1] + (b0.2 + tail));
        assert(l[0] == b0.0);
        assert(l[1] == b0.1);
        assert(l.len() >= 2);
        assert(geom_parse(l) == geom_scan(
            l.skip(2),
            Seq::empty(),
            dec_val(l[0]),
            l[1],
            Seq::empty(),
        ));
        assert(l.skip(2) =~= b0.2 + tail);
        lemma_scan_append_atoms(b0.2, tail, Seq::empty(), dec_val(b0.0), b0.1, Seq::empty());
        assert(Seq::<Seq<char>>::empty() + b0.2 =~= b0.2);
        assert(wf_blocks(blocks.drop_first()));
        lemma_scan_mismatch_blocks(
            blocks.drop_first(),
            c,
            ann2,
            atoms2,
            rest,
            Seq::empty(),
            dec_val(b0.0),
            b0.1,
            b0.2,
        );
    }
}

/// The output stem of frame `i` out of `k`: the source stem alone for a
/// single-frame document, `<stem>_<i>` (zero-based) when several frames share
/// one source document.
pub open spec fn frame_filename(stem: Seq<char>, k: nat, i: int) -> Seq<char> {
    if k <= 1 {
        stem
    } else {
        stem + seq!['_'] + dec_str(i as nat)
    }
}

/// Pair annotation and atom sequences up into frames.
spec fn zip_frames(anns: Seq<Seq<char>>, atoms: Seq<Seq<Seq<char>>>) -> Seq<
    (Seq<char>, Seq<Seq<char>>),
> {
    Seq::new(anns.len(), |i: int| (anns[i], atoms[i]))
}

/// Build the output stem of one frame.
fn build_frame_filename(stem: &str, k: usize, i: usize) -> (r: String)
    requires
        i < k,
    ensures
        r@ == frame_filename(stem@, k as nat, i as int),
{
    if k <= 1 {
        stem.to_owned()
    } else {
        let mut f = stem.to_owned();
        proof {
            reveal_strlit("_");
        }
        f.append("_");
        let num = usize_to_string(i);
        f.append(num.as_str());
        proof {
            assert(f@ =~= stem@ + seq!['_'] + dec_str(i as nat));
        }
        f
    }
}

/// Parse a multi-frame geometry document into one validated `Molecule` per
/// frame, in source order.  `stem` is the source path with its extension
/// already stripped; it names the frames as `frame_filename` says.  The parse
/// fails, yielding no molecules, on empty input, on content before the first
/// count line, on a count line that ends the input, and on any frame whose
/// atom-line tally differs from its declared count.
pub fn parse_geometry(text: &str, stem: &str) -> (r: Result<Vec<Molecule>, GeometryFormatError>)
    ensures
        match geom_parse(line_seq(text@)) {
            GeomParse::Frames { frames } => {
                &&& r is Ok
                &&& r.unwrap()@.len() == frames.len()
                &&& forall|i: int|
                    0 <= i < frames.len() ==> {
                        let m = #[trigger] r.unwrap()@[i];
                        &&& m@.filename == frame_filename(stem@, frames.len(), i)
                        &&& m@.annotations == frames[i].0
                        &&& m@.atoms == frames[i].1
                    }
            },
            GeomParse::Empty => r == Err::<Vec<Molecule>, GeometryFormatError>(
                GeometryFormatError::EmptyInput,
            ),
            GeomParse::LeadingContent => r == Err::<Vec<Molecule>, GeometryFormatError>(
                GeometryFormatError::LeadingContent,
            ),
            GeomParse::MissingAnnotation { frame } => {
                &&& r is Err
                &&& r->Err_0 matches GeometryFormatError::MissingAnnotation { frame: f } && f
                    == frame
            },
            GeomParse::CountMismatch { frame, expected, found } => {
                &&& r is Err
                &&& r->Err_0 matches GeometryFormatError::CountMismatch {
                    frame: f,
                    expected: e,
                    found: fd,
                } && f == frame && e == expected && fd == found
            },
        },
{
    let lines = split_lines(text);
    let ghost lv = line_seq(text@);
    if lines.len() == 0 {
        return Err(GeometryFormatError::EmptyInput);
    }
    let first = parse_count(lines[0].as_str());
    let mut declared: usize;
    match first {
        None => {
            return Err(GeometryFormatError::LeadingContent);
        },
        Some(c0) => {
            declared = c0;
        },
    }
    if lines.len() == 1 {
        return Err(GeometryFormatError::MissingAnnotation { frame: 0 });
    }
    let mut ann: String = lines[1].clone();
    let mut atoms: Vec<String> = Vec::new();
    let mut anns: Vec<String> = Vec::new();
    let mut atoms_list: Vec<Vec<String>> = Vec::new();
    let mut i: usize = 2;
    proof {
        assert(zip_frames(anns.deep_view(), atoms_list.deep_view()) =~= Seq::<
            (Seq<char>, Seq<Seq<char>>),
        >::empty());
        assert(geom_parse(lv) == geom_scan(
            lv.skip(2),
            Seq::empty(),
            dec_val(lv[0]),
            lv[1],
            Seq::empty(),
        ));
        assert(atoms.deep_view() =~= Seq::<Seq<char>>::empty());
    }
    while i < lines.len()
        invariant
            2 <= i <= lines.len(),
            2 * anns.len() + 2 <= i,
            lv == line_seq(text@),
            lines.deep_view() == lv,
            anns.len() == atoms_list.len(),
            geom_parse(lv) == geom_scan(
                lv.skip(i as int),
                zip_frames(anns.deep_view(), atoms_list.deep_view()),
                declared as nat,
                ann@,
                atoms.deep_view(),
            ),
        decreases lines.len() - i,
    {
        let ghost rest = lv.skip(i as int);
        let ghost done = zip_frames(anns.deep_view(), atoms_list.deep_view());
        proof {
            assert(lv.len() == lines@.len());
            assert(rest.len() == lv.len() - i);
            assert(rest[0] == lv[i as int]);
            assert(lv[i as int] == lines[i as int]@);
            assert(done.len() == anns.len());
            assert(atoms.deep_view().len() == atoms.len());
        }
        match parse_count(lines[i].as_str()) {
            Some(c) => {
                proof {
                    assert(is_count_line(rest[0]));
                }
                if atoms.len() != declared {
                    proof {
                        lemma_scan_mismatch(rest, done, declared as nat, ann@, atoms.deep_view());
                    }
                    return Err(GeometryFormatError::CountMismatch {
                        frame: anns.len(),
                        expected: declared,
                        found: atoms.len(),
                    });
                }
                if i + 1 >= lines.len() {
                    proof {
                        assert(rest.len() == 1);
                        lemma_scan_missing_ann(rest, done, declared as nat, ann@, atoms.deep_view());
                    }
                    return Err(GeometryFormatError::MissingAnnotation { frame: anns.len() + 1 });
                }
                proof {
                    lemma_scan_new_frame(rest, done, declared as nat, ann@, atoms.deep_view());
                    assert(rest.skip(2) =~= lv.skip(i as int + 2));
                    assert(rest[1] == lv[i as int + 1]);
                    assert(lv[i as int + 1] == lines[i as int + 1]@);
                    assert(dec_val(rest[0]) == c as nat);
                }
                let ghost old_zip = done;
                let ghost old_ann = ann@;
                let ghost old_atoms_dv = atoms.deep_view();
                anns.push(ann);
                atoms_list.push(atoms);
                ann = lines[i + 1].clone();
                atoms = Vec::new();
                declared = c;
                proof {
                    assert(zip_frames(anns.deep_view(), atoms_list.deep_view()) =~= old_zip.push(
                        (old_ann, old_atoms_dv),
                    ));
                    assert(atoms.deep_view() =~= Seq::<Seq<char>>::empty());
                }
                i = i + 2;
            },
            None => {
                proof {
                    assert(!is_count_line(rest[0]));
                    lemma_scan_atom(rest, done, declared as nat, ann@, atoms.deep_view());
                    assert(rest.drop_first() =~= lv.skip(i as int + 1));
                }
                let ghost old_atoms = atoms.deep_view();
                atoms.push(lines[i].clone());
                proof {
                    assert(atoms.deep_view() =~= old_atoms.push(lv[i as int]));
                }
                i = i + 1;
            },
        }
    }
    proof {
        assert(lv.len() == lines@.len());
        assert(lv.skip(lines.len() as int) =~= Seq::<Seq<char>>::empty());
        lemma_scan_eof(
            zip_frames(anns.deep_view(), atoms_list.deep_view()),
            declared as nat,
            ann@,
            atoms.deep_view(),
        );
        assert(zip_frames(anns.deep_view(), atoms_list.deep_view()).len() == anns.len());
        assert(atoms.deep_view().len() == atoms.len());
    }
    if atoms.len() != declared {
        return Err(GeometryFormatError::CountMismatch {
            frame: anns.len(),
            expected: declared,
            found: atoms.len(),
        });
    }
    let ghost old_zip = zip_frames(anns.deep_view(), atoms_list.deep_view());
    let ghost old_ann = ann@;
    let ghost old_atoms_dv = atoms.deep_view();
    proof {
        assert(geom_parse(lv) == GeomParse::Frames { frames: old_zip.push((old_ann, old_atoms_dv)) });
    }
    anns.push(ann);
    atoms_list.push(atoms);
    proof {
        assert(zip_frames(anns.deep_view(), atoms_list.deep_view()) =~= old_zip.push(
            (old_ann, old_atoms_dv),
        ));
    }
    let ghost frames = zip_frames(anns.deep_view(), atoms_list.deep_view());
    proof {
        assert(frames == old_zip.push((old_ann, old_atoms_dv)));
        assert(geom_parse(lv) == GeomParse::Frames { frames });
        assert(frames.len() == anns.len());
    }
    let k = anns.len();
    let mut out: Vec<Molecule> = Vec::new();
    let mut idx: usize = 0;
    while idx < k
        invariant
            0 <= idx <= k,
            k == anns.len(),
            anns.len() == atoms_list.len(),
            frames == zip_frames(anns.deep_view(), atoms_list.deep_view()),
            out@.len() == idx,
            forall|j: int|
                0 <= j < idx ==> {
                    let m = #[trigger] out@[j];
                    &&& m@.filename == frame_filename(stem@, k as nat, j)
                    &&& m@.annotations == frames[j].0
                    &&& m@.atoms == frames[j].1
                },
        decreases k - idx,
    {
        let filename = build_frame_filename(stem, k, idx);
        out.push(
            Molecule {
                filename,
                annotations: anns[idx].clone(),
                atoms: clone_string_vec(&atoms_list[idx]),
            },
        );
        idx = idx + 1;
    }
    Ok(out)
}


// ---------------------------------------------------------------------------
// The parsed atom representation
// ---------------------------------------------------------------------------

/// An atom line in parsed form: the element symbol and its coordinate
/// tokens.  The raw-line form on `Molecule` keeps the file's formatting
/// exactly; this form is for callers that need the fields, with the
/// coordinates' syntax checked strictly.
#[derive(Debug, PartialEq, Clone)]
pub struct AtomRecord {
    pub element: String,
    pub coordinates: Vec<String>,
}

/// The mathematical content of a parsed atom line.
pub ghost struct AtomRecordView {
    pub element: Seq<char>,
    pub coordinates: Seq<Seq<char>>,
}

impl View for AtomRecord {
    type V = AtomRecordView;

    open spec fn view(&self) -> AtomRecordView {
        AtomRecordView {
            element: self.element@,
            coordinates: self.coordinates.deep_view(),
        }
    }
}

/// A well-formed atom line: an element symbol followed by three or more
/// decimal coordinates, separated by blanks.
pub open spec fn wf_atom_line(line: Seq<char>) -> bool {
    let toks = blank_tokens(line);
    &&& toks.len() >= 4
    &&& forall|i: int| 1 <= i < toks.len() ==> is_coordinate(#[trigger] toks[i])
}

/// Parse one atom line strictly: the first blank-separated token is the
/// element, the rest are its coordinates, of which there must be at least
/// three and every one must be a decimal coordinate.  Any other line yields
/// nothing.
pub fn parse_atom_line(line: &str) -> (r: Option<AtomRecord>)
    ensures
        r is Some <==> wf_atom_line(line@),
        (r matches Some(a) ==> {
            &&& a@.element == blank_tokens(line@)[0]
            &&& a@.coordinates == blank_tokens(line@).skip(1)
        }),
{
    let mut toks = split_blanks(line);
    if toks.len() < 4 {
        return None;
    }
    let mut i: usize = 1;
    while i < toks.len()
        invariant
            1 <= i <= toks.len(),
            toks.deep_view() == blank_tokens(line@),
            forall|j: int| 1 <= j < i ==> is_coordinate(#[trigger] blank_tokens(line@)[j]),
        decreases toks.len() - i,
    {
        if !check_coordinate(toks[i].as_str()) {
            proof {
                assert(!is_coordinate(blank_tokens(line@)[i as int]));
            }
            return None;
        }
        i = i + 1;
    }
    let element = toks.remove(0);
    proof {
        assert(element@ == blank_tokens(line@)[0]);
        assert(toks.deep_view() =~= blank_tokens(line@).skip(1));
    }
    Some(AtomRecord { element, coordinates: toks })
}

impl Molecule {
    /// Every atom line in parsed form, in order, when each one is a
    /// well-formed atom line; nothing otherwise.  This validates the
    /// coordinates strictly, while `atoms` keeps the raw lines untouched.
    pub fn parsed_atoms(&self) -> (r: Option<Vec<AtomRecord>>)
        ensures
            r is Some <==> (forall|i: int|
                0 <= i < self@.atoms.len() ==> wf_atom_line(#[trigger] self@.atoms[i])),
            (r matches Some(v) ==> {
                &&& v@.len() == self@.atoms.len()
                &&& (forall|i: int|
                    0 <= i < self@.atoms.len() ==> {
                        &&& (#[trigger] v@[i])@.element == blank_tokens(self@.atoms[i])[0]
                        &&& v@[i]@.coordinates == blank_tokens(self@.atoms[i]).skip(1)
                    })
            }),
    {
        let mut out: Vec<AtomRecord> = Vec::new();
        let mut i: usize = 0;
        while i < self.atoms.len()
            invariant
                0 <= i <= self.atoms.len(),
                out@.len() == i,
                forall|j: int| 0 <= j < i ==> wf_atom_line(#[trigger] self@.atoms[j]),
                forall|j: int|
                    0 <= j < i ==> {
                        &&& (#[trigger] out@[j])@.element == blank_tokens(self@.atoms[j])[0]
                        &&& out@[j]@.coordinates == blank_tokens(self@.atoms[j]).skip(1)
                    },
            decreases self.atoms.len() - i,
        {
            proof {
                assert(self.atoms[i as int]@ == self@.atoms[i as int]);
            }
            match parse_atom_line(self.atoms[i].as_str()) {
                None => {
                    proof {
                        assert(!wf_atom_line(self@.atoms[i as int]));
                    }
                    return None;
                },
                Some(a) => out.push(a),
            }
            i = i + 1;
        }
        Some(out)
    }
}

} // verus!
