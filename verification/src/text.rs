//! Verified text utilities: line splitting, decimal numbers, joining and
//! searching, shared by the geometry parser and the template compiler.

use vstd::prelude::*;

verus! {

// ---------------------------------------------------------------------------
// Decimal digits and non-negative decimal numbers
// ---------------------------------------------------------------------------

/// `c` is an ASCII decimal digit.
pub open spec fn is_digit_char(c: char) -> bool {
    '0' <= c && c <= '9'
}

/// Numeric value of a digit character.
pub open spec fn digit_val(c: char) -> nat {
    (c as nat - '0' as nat) as nat
}

/// Every character of `s` is a decimal digit.
pub open spec fn all_digits(s: Seq<char>) -> bool {
    forall|i: int| 0 <= i < s.len() ==> is_digit_char(#[trigger] s[i])
}

/// Value of a digit string read in base ten.
pub open spec fn dec_val(s: Seq<char>) -> nat
    decreases s.len(),
{
    if s.len() == 0 {
        0
    } else {
        dec_val(s.drop_last()) * 10 + digit_val(s.last())
    }
}

/// A line that declares an atom count: one or more digits whose value fits in
/// `usize`.
pub open spec fn is_count_line(s: Seq<char>) -> bool {
    s.len() > 0 && all_digits(s) && dec_val(s) <= usize::MAX as nat
}

/// The digit character for a value below ten.
pub open spec fn digit_char(d: nat) -> char {
    ((48 + d) as u8) as char
}

/// Decimal representation of `n`, most significant digit first.
pub open spec fn dec_str(n: nat) -> Seq<char>
    decreases n,
{
    if n < 10 {
        seq![digit_char(n)]
    } else {
        dec_str(n / 10) + seq![digit_char(n % 10)]
    }
}

/// A longer digit string never has a smaller value than one of its prefixes.
proof fn lemma_dec_val_prefix(s: Seq<char>, j: int)
    requires
        0 <= j <= s.len(),
    ensures
        dec_val(s) >= dec_val(s.subrange(0, j)),
    decreases s.len() - j,
{
    if j < s.len() {
        assert(s.subrange(0, j + 1).drop_last() =~= s.subrange(0, j));
        assert(dec_val(s.subrange(0, j + 1)) == dec_val(s.subrange(0, j)) * 10 + digit_val(
            s.subrange(0, j + 1).last(),
        ));
        lemma_dec_val_prefix(s, j + 1);
    } else {
        assert(s.subrange(0, j) =~= s);
    }
}

/// Parse a whole line as a non-negative decimal integer, as the geometry
/// format's frame headers require.  Returns the value exactly when the line
/// consists of digits only and the value fits in `usize`.
pub fn parse_count(line: &str) -> (r: Option<usize>)
    ensures
        r is Some <==> is_count_line(line@),
        r is Some ==> r.unwrap() as nat == dec_val(line@),
{
    let n = line.unicode_len();
    if n == 0 {
        return None;
    }
    let mut acc: usize = 0;
    let mut i: usize = 0;
    while i < n
        invariant
            0 <= i <= n,
            n == line@.len(),
            all_digits(line@.subrange(0, i as int)),
            acc as nat == dec_val(line@.subrange(0, i as int)),
        decreases n - i,
    {
        let c = line.get_char(i);
        if c < '0' || c > '9' {
            assert(!is_digit_char(line@[i as int]));
            return None;
        }
        let d = (c as u32 - 48) as usize;
        assert(d as nat == digit_val(line@[i as int]));
        if acc > (usize::MAX - d) / 10 {
            proof {
                assert(line@.subrange(0, i as int + 1).drop_last() =~= line@.subrange(0, i as int));
                assert(dec_val(line@.subrange(0, i as int + 1)) == acc as nat * 10 + d as nat);
                assert(acc as nat * 10 + d as nat > usize::MAX as nat) by (nonlinear_arith)
                    requires
                        acc > (usize::MAX - d) / 10,
                        d <= 9,
                ;
                if all_digits(line@) {
                    lemma_dec_val_prefix(line@, i as int + 1);
                }
            }
            return None;
        }
        proof {
            assert(line@.subrange(0, i as int + 1).drop_last() =~= line@.subrange(0, i as int));
            assert(acc as nat * 10 + d as nat <= usize::MAX as nat) by (nonlinear_arith)
                requires
                    acc <= (usize::MAX - d) / 10,
                    d <= usize::MAX,
            ;
        }
        acc = acc * 10 + d;
        i = i + 1;
    }
    assert(line@.subrange(0, n as int) =~= line@);
    Some(acc)
}

/// The digit character of a value below ten, as a string slice.
pub fn digit_str(d: usize) -> (r: &'static str)
    requires
        d < 10,
    ensures
        r@ =~= seq![digit_char(d as nat)],
{
    proof {
        reveal_strlit("0");
        reveal_strlit("1");
        reveal_strlit("2");
        reveal_strlit("3");
        reveal_strlit("4");
        reveal_strlit("5");
        reveal_strlit("6");
        reveal_strlit("7");
        reveal_strlit("8");
        reveal_strlit("9");
    }
    if d == 0 {
        "0"
    } else if d == 1 {
        "1"
    } else if d == 2 {
        "2"
    } else if d == 3 {
        "3"
    } else if d == 4 {
        "4"
    } else if d == 5 {
        "5"
    } else if d == 6 {
        "6"
    } else if d == 7 {
        "7"
    } else if d == 8 {
        "8"
    } else {
        "9"
    }
}

/// Decimal rendering of a `usize`.
pub fn usize_to_string(n: usize) -> (r: String)
    ensures
        r@ == dec_str(n as nat),
    decreases n,
{
    if n < 10 {
        digit_str(n).to_owned()
    } else {
        let q = usize_to_string(n / 10);
        q.concat(digit_str(n % 10))
    }
}

// ---------------------------------------------------------------------------
// Lines
// ---------------------------------------------------------------------------

/// Index of the first newline in `s`, or `s.len()` if there is none.
pub open spec fn first_nl(s: Seq<char>) -> nat
    decreases s.len(),
{
    if s.len() == 0 {
        0
    } else if s[0] == '\n' {
        0
    } else {
        1 + first_nl(s.drop_first())
    }
}

proof fn lemma_first_nl(s: Seq<char>)
    ensures
        first_nl(s) <= s.len(),
        first_nl(s) < s.len() ==> s[first_nl(s) as int] == '\n',
        forall|j: int| 0 <= j < first_nl(s) ==> s[j] != '\n',
    decreases s.len(),
{
    if s.len() != 0 && s[0] != '\n' {
        lemma_first_nl(s.drop_first());
        assert(forall|j: int| 1 <= j < first_nl(s) ==> s[j] == s.drop_first()[j - 1]);
    }
}

/// Drop one carriage return from the end of a line, if present.
pub open spec fn strip_cr(s: Seq<char>) -> Seq<char> {
    if s.len() > 0 && s.last() == '\r' {
        s.drop_last()
    } else {
        s
    }
}

/// The lines of `s`: split at `'\n'`, dropping a `'\r'` that stands right
/// before the `'\n'`; a final line ending produces no extra empty line.
pub open spec fn line_seq(s: Seq<char>) -> Seq<Seq<char>>
    decreases s.len(),
    via line_seq_decreases
{
    if s.len() == 0 {
        Seq::empty()
    } else if first_nl(s) == s.len() {
        seq![s]
    } else {
        seq![strip_cr(s.take(first_nl(s) as int))] + line_seq(
            s.skip(first_nl(s) as int + 1),
        )
    }
}

#[via_fn]
proof fn line_seq_decreases(s: Seq<char>) {
    lemma_first_nl(s);
}

/// If `s` has no newline before `m` and either ends at `m` or has a newline
/// there, then `m` is the first newline position.
proof fn lemma_first_nl_at(s: Seq<char>, m: int)
    requires
        0 <= m <= s.len(),
        forall|j: int| 0 <= j < m ==> s[j] != '\n',
        m < s.len() ==> s[m] == '\n',
    ensures
        first_nl(s) == m,
    decreases m,
{
    if s.len() == 0 {
    } else if m == 0 {
    } else {
        assert(s.drop_first().len() == s.len() - 1);
        assert(forall|j: int| 0 <= j < m - 1 ==> s.drop_first()[j] != '\n');
        lemma_first_nl_at(s.drop_first(), m - 1);
    }
}

/// Split a string into its lines.
pub fn split_lines(s: &str) -> (r: Vec<String>)
    ensures
        r.deep_view() == line_seq(s@),
{
    let n = s.unicode_len();
    let mut r: Vec<String> = Vec::new();
    let mut pos: usize = 0;
    proof {
        assert(s@.skip(0) =~= s@);
        assert(r.deep_view() + line_seq(s@) =~= line_seq(s@));
    }
    while pos < n
        invariant
            0 <= pos <= n,
            n == s@.len(),
            line_seq(s@) == r.deep_view() + line_seq(s@.skip(pos as int)),
        decreases n - pos,
    {
        // find the next newline
        let mut j: usize = pos;
        while j < n && s.get_char(j) != '\n'
            invariant
                pos <= j <= n,
                n == s@.len(),
                forall|k: int| pos <= k < j ==> s@[k] != '\n',
            decreases n - j,
        {
            j = j + 1;
        }
        let ghost suffix = s@.skip(pos as int);
        proof {
            assert(forall|k: int| 0 <= k < j - pos ==> suffix[k] != '\n');
            lemma_first_nl_at(suffix, j - pos);
        }
        // the line runs from pos to j, minus a trailing '\r' if the line is
        // newline-terminated
        if j == n {
            let line = s.substring_char(pos, n).to_owned();
            proof {
                assert(suffix =~= s@.subrange(pos as int, n as int));
                assert(line_seq(suffix) =~= seq![suffix]);
                assert(r.deep_view().push(line@) =~= r.deep_view() + line_seq(suffix));
            }
            r.push(line);
            proof {
                assert(s@.skip(n as int) =~= Seq::<char>::empty());
                assert(r.deep_view() + line_seq(s@.skip(n as int)) =~= r.deep_view());
            }
            pos = n;
        } else {
            let mut end = j;
            if j > pos && s.get_char(j - 1) == '\r' {
                end = j - 1;
            }
            let line = s.substring_char(pos, end).to_owned();
            proof {
                assert(suffix.take(j - pos) =~= s@.subrange(pos as int, j as int));
                assert(strip_cr(s@.subrange(pos as int, j as int)) =~= s@.subrange(
                    pos as int,
                    end as int,
                ));
                assert(line@ =~= strip_cr(suffix.take(j - pos)));
                assert(suffix.skip(j - pos + 1) =~= s@.skip(j as int + 1));
                assert(line_seq(suffix) =~= seq![line@] + line_seq(s@.skip(j as int + 1)));
                assert(r.deep_view() + line_seq(suffix) =~= r.deep_view().push(line@) + line_seq(
                    s@.skip(j as int + 1),
                ));
            }
            r.push(line);
            pos = j + 1;
        }
    }
    proof {
        assert(s@.skip(n as int) =~= Seq::<char>::empty());
        assert(r.deep_view() + line_seq(s@.skip(n as int)) =~= r.deep_view());
    }
    r
}

// ---------------------------------------------------------------------------
// Joining lines
// ---------------------------------------------------------------------------

/// The lines joined with a single `'\n'` between them.
pub open spec fn join_nl(lines: Seq<Seq<char>>) -> Seq<char>
    decreases lines.len(),
{
    if lines.len() == 0 {
        Seq::empty()
    } else if lines.len() == 1 {
        lines[0]
    } else {
        lines[0] + seq!['\n'] + join_nl(lines.drop_first())
    }
}

/// Appending one more line to a join adds a separator exactly when the join
/// was not empty of lines.
proof fn lemma_join_nl_push(lines: Seq<Seq<char>>, x: Seq<char>)
    ensures
        join_nl(lines.push(x)) == if lines.len() == 0 {
            x
        } else {
            join_nl(lines) + seq!['\n'] + x
        },
    decreases lines.len(),
{
    if lines.len() == 0 {
        assert(lines.push(x).len() == 1);
        assert(join_nl(lines.push(x)) == lines.push(x)[0]);
    } else {
        assert(lines.push(x).drop_first() =~= lines.drop_first().push(x));
        lemma_join_nl_push(lines.drop_first(), x);
        if lines.len() == 1 {
            assert(lines.drop_first().len() == 0);
            assert(join_nl(lines.push(x)) == lines[0] + seq!['\n'] + x);
            assert(join_nl(lines) == lines[0]);
        } else {
            assert(join_nl(lines.push(x)) == lines[0] + seq!['\n'] + (join_nl(lines.drop_first())
                + seq!['\n'] + x));
            assert(lines.push(x)[0] == lines[0]);
            assert(join_nl(lines) + seq!['\n'] + x == (lines[0] + seq!['\n'] + join_nl(
                lines.drop_first(),
            )) + seq!['\n'] + x);
            assert(lines[0] + seq!['\n'] + (join_nl(lines.drop_first()) + seq!['\n'] + x) =~= (
            lines[0] + seq!['\n'] + join_nl(lines.drop_first())) + seq!['\n'] + x);
        }
    }
}

/// Join a vector of lines with `'\n'`.
pub fn join_lines(lines: &Vec<String>) -> (r: String)
    ensures
        r@ == join_nl(lines.deep_view()),
{
    let mut r = String::new();
    let mut i: usize = 0;
    while i < lines.len()
        invariant
            0 <= i <= lines.len(),
            r@ == join_nl(lines.deep_view().take(i as int)),
        decreases lines.len() - i,
    {
        proof {
            reveal_strlit("\n");
        }
        if i > 0 {
            r.append("\n");
        }
        r.append(lines[i].as_str());
        proof {
            let lv = lines.deep_view();
            assert(lv.take(i as int + 1) =~= lv.take(i as int).push(lv[i as int]));
            lemma_join_nl_push(lv.take(i as int), lv[i as int]);
            if i > 0 {
                assert(r@ =~= join_nl(lv.take(i as int)) + seq!['\n'] + lv[i as int]);
            } else {
                assert(lv.take(0).len() == 0);
                assert(r@ =~= lv[0]);
            }
        }
        i = i + 1;
    }
    proof {
        assert(lines.deep_view().take(lines.len() as int) =~= lines.deep_view());
    }
    r
}

// ---------------------------------------------------------------------------
// Searching from the end
// ---------------------------------------------------------------------------

/// Index of the last occurrence of `c` in `s`, or `-1` if there is none.
pub open spec fn rfind(s: Seq<char>, c: char) -> int
    decreases s.len(),
{
    if s.len() == 0 {
        -1
    } else if s.last() == c {
        s.len() - 1
    } else {
        rfind(s.drop_last(), c)
    }
}

pub proof fn lemma_rfind_bounds(s: Seq<char>, c: char)
    ensures
        -1 <= rfind(s, c) < s.len(),
    decreases s.len(),
{
    if s.len() != 0 && s.last() != c {
        lemma_rfind_bounds(s.drop_last(), c);
    }
}

/// Find the last occurrence of a character.
pub fn rfind_char(s: &str, c: char) -> (r: Option<usize>)
    ensures
        (r matches Some(i) ==> rfind(s@, c) == i),
        r is None ==> rfind(s@, c) == -1,
{
    let n = s.unicode_len();
    let mut i: usize = n;
    proof {
        assert(s@.take(n as int) =~= s@);
    }
    while i > 0
        invariant
            0 <= i <= n,
            n == s@.len(),
            rfind(s@, c) == rfind(s@.take(i as int), c),
        decreases i,
    {
        if s.get_char(i - 1) == c {
            proof {
                assert(s@.take(i as int).last() == s@[i - 1]);
            }
            return Some(i - 1);
        }
        proof {
            assert(s@.take(i as int).last() == s@[i - 1]);
            assert(s@.take(i as int).drop_last() =~= s@.take(i as int - 1));
        }
        i = i - 1;
    }
    proof {
        assert(s@.take(0) =~= Seq::<char>::empty());
    }
    None
}

// ---------------------------------------------------------------------------
// Substring search
// ---------------------------------------------------------------------------

/// `pat` occurs in `s` at position `i`.
pub open spec fn contains_at(s: Seq<char>, i: int, pat: Seq<char>) -> bool {
    0 <= i && i + pat.len() <= s.len() && s.subrange(i, i + pat.len()) == pat
}

/// `pat` occurs somewhere in `s`.
pub open spec fn contains_seq(s: Seq<char>, pat: Seq<char>) -> bool {
    exists|i: int| contains_at(s, i, pat)
}

/// Substring search.
pub fn contains_str(s: &str, pat: &str) -> (r: bool)
    ensures
        r == contains_seq(s@, pat@),
{
    let n = s.unicode_len();
    let m = pat.unicode_len();
    if m > n {
        assert(forall|i: int| !contains_at(s@, i, pat@));
        return false;
    }
    let mut i: usize = 0;
    while i <= n - m
        invariant
            0 <= i <= n - m + 1,
            m <= n,
            n == s@.len(),
            m == pat@.len(),
            forall|k: int| 0 <= k < i ==> !contains_at(s@, k, pat@),
        decreases n - i,
    {
        let mut k: usize = 0;
        let mut matches = true;
        while k < m
            invariant
                0 <= k <= m,
                i + m <= n,
                n == s@.len(),
                m == pat@.len(),
                matches == (forall|j: int| 0 <= j < k ==> s@[i + j] == pat@[j]),
                matches || k == m,
            decreases m - k,
        {
            if s.get_char(i + k) != pat.get_char(k) {
                matches = false;
                assert(s@[i + k] != pat@[k as int]);
                k = m;
            } else {
                proof {
                    assert(forall|j: int| 0 <= j < k ==> s@[i + j] == pat@[j]);
                    assert(s@[i + k] == pat@[k as int]);
                }
                k = k + 1;
            }
        }
        if matches {
            assert(s@.subrange(i as int, i + pat@.len()) =~= pat@);
            assert(contains_at(s@, i as int, pat@));
            return true;
        }
        assert(!contains_at(s@, i as int, pat@)) by {
            assert(exists|j: int| 0 <= j < m && s@[i + j] != pat@[j]);
            let j0 = choose|j: int| 0 <= j < m && s@[i + j] != pat@[j];
            if contains_at(s@, i as int, pat@) {
                assert(s@.subrange(i as int, i + pat@.len())[j0] == s@[i + j0]);
            }
        }
        i = i + 1;
    }
    assert(forall|k: int| k > n - m ==> !contains_at(s@, k, pat@));
    false
}


// ---------------------------------------------------------------------------
// Whitespace-separated tokens
// ---------------------------------------------------------------------------

/// Blank characters that separate the fields of an atom line.
pub open spec fn is_blank(c: char) -> bool {
    c == ' ' || c == '\t'
}

/// Index of the first blank in `s`, or `s.len()` if there is none.
pub open spec fn first_blank(s: Seq<char>) -> nat
    decreases s.len(),
{
    if s.len() == 0 {
        0
    } else if is_blank(s[0]) {
        0
    } else {
        1 + first_blank(s.drop_first())
    }
}

proof fn lemma_first_blank(s: Seq<char>)
    ensures
        first_blank(s) <= s.len(),
        first_blank(s) < s.len() ==> is_blank(s[first_blank(s) as int]),
        forall|j: int| 0 <= j < first_blank(s) ==> !is_blank(s[j]),
    decreases s.len(),
{
    if s.len() != 0 && !is_blank(s[0]) {
        lemma_first_blank(s.drop_first());
        assert(forall|j: int| 1 <= j < first_blank(s) ==> s[j] == s.drop_first()[j - 1]);
    }
}

/// If `s` has no blank before `m` and either ends at `m` or has a blank
/// there, then `m` is the first blank position.
proof fn lemma_first_blank_at(s: Seq<char>, m: int)
    requires
        0 <= m <= s.len(),
        forall|j: int| 0 <= j < m ==> !is_blank(s[j]),
        m < s.len() ==> is_blank(s[m]),
    ensures
        first_blank(s) == m,
    decreases m,
{
    if s.len() == 0 {
    } else if m == 0 {
    } else {
        assert(forall|j: int| 0 <= j < m - 1 ==> !is_blank(s.drop_first()[j]));
        lemma_first_blank_at(s.drop_first(), m - 1);
    }
}

/// The maximal blank-free runs of `s`, in order.
pub open spec fn blank_tokens(s: Seq<char>) -> Seq<Seq<char>>
    decreases s.len(),
    via blank_tokens_decreases
{
    if s.len() == 0 {
        Seq::empty()
    } else if is_blank(s[0]) {
        blank_tokens(s.drop_first())
    } else {
        seq![s.take(first_blank(s) as int)] + blank_tokens(s.skip(first_blank(s) as int))
    }
}

#[via_fn]
proof fn blank_tokens_decreases(s: Seq<char>) {
    lemma_first_blank(s);
}

/// Split a line into its blank-separated tokens.
pub fn split_blanks(s: &str) -> (r: Vec<String>)
    ensures
        r.deep_view() == blank_tokens(s@),
{
    let n = s.unicode_len();
    let mut r: Vec<String> = Vec::new();
    let mut pos: usize = 0;
    proof {
        assert(s@.skip(0) =~= s@);
        assert(r.deep_view() + blank_tokens(s@) =~= blank_tokens(s@));
    }
    while pos < n
        invariant
            0 <= pos <= n,
            n == s@.len(),
            blank_tokens(s@) == r.deep_view() + blank_tokens(s@.skip(pos as int)),
        decreases n - pos,
    {
        let ghost suffix = s@.skip(pos as int);
        let c = s.get_char(pos);
        if c == ' ' || c == '\t' {
            proof {
                assert(suffix[0] == s@[pos as int]);
                assert(suffix.drop_first() =~= s@.skip(pos as int + 1));
            }
            pos = pos + 1;
        } else {
            let mut j: usize = pos;
            while j < n && s.get_char(j) != ' ' && s.get_char(j) != '\t'
                invariant
                    pos <= j <= n,
                    n == s@.len(),
                    forall|k: int| pos <= k < j ==> !is_blank(s@[k]),
                decreases n - j,
            {
                j = j + 1;
            }
            proof {
                assert(suffix[0] == s@[pos as int]);
                assert(forall|k: int| 0 <= k < j - pos ==> suffix[k] == s@[pos + k]);
                lemma_first_blank_at(suffix, j - pos);
            }
            let tok = s.substring_char(pos, j).to_owned();
            proof {
                assert(tok@ =~= suffix.take(j - pos));
                assert(suffix.skip(j - pos) =~= s@.skip(j as int));
                assert(blank_tokens(suffix) =~= seq![tok@] + blank_tokens(s@.skip(j as int)));
                assert(r.deep_view() + blank_tokens(suffix) =~= r.deep_view().push(tok@)
                    + blank_tokens(s@.skip(j as int)));
            }
            r.push(tok);
            pos = j;
        }
    }
    proof {
        assert(s@.skip(n as int) =~= Seq::<char>::empty());
        assert(r.deep_view() + blank_tokens(s@.skip(n as int)) =~= r.deep_view());
    }
    r
}

// ---------------------------------------------------------------------------
// Decimal coordinate syntax
// ---------------------------------------------------------------------------

/// States of the coordinate acceptor, written as small integers: the start,
/// after a sign, inside the integer digits, after a leading dot, inside the
/// fraction digits, after a dot that follows digits, after the exponent mark,
/// after the exponent's sign, and inside the exponent digits.  `-1` is the
/// dead state.
pub open spec fn coord_step(st: int, c: char) -> int {
    if st == 0 {
        if c == '+' || c == '-' { 1 } else if is_digit_char(c) { 2 } else if c == '.' { 3 } else { -1 }
    } else if st == 1 {
        if is_digit_char(c) { 2 } else if c == '.' { 3 } else { -1 }
    } else if st == 2 {
        if is_digit_char(c) { 2 } else if c == '.' { 5 } else if c == 'e' || c == 'E' { 6 } else { -1 }
    } else if st == 3 {
        if is_digit_char(c) { 4 } else { -1 }
    } else if st == 4 || st == 5 {
        if is_digit_char(c) { st } else if c == 'e' || c == 'E' { 6 } else { -1 }
    } else if st == 6 {
        if c == '+' || c == '-' { 7 } else if is_digit_char(c) { 8 } else { -1 }
    } else if st == 7 || st == 8 {
        if is_digit_char(c) { 8 } else { -1 }
    } else {
        -1
    }
}

/// The accepting states: digits were seen, with any fraction or exponent
/// complete.
pub open spec fn coord_accepting(st: int) -> bool {
    st == 2 || st == 4 || st == 5 || st == 8
}

/// The state after reading all of `s` from the start state.
pub open spec fn coord_scan(s: Seq<char>) -> int
    decreases s.len(),
{
    if s.len() == 0 {
        0
    } else {
        coord_step(coord_scan(s.drop_last()), s.last())
    }
}

/// `s` is a decimal coordinate: an optional sign, digits with an optional
/// fractional part (or a leading dot with fraction digits), and an optional
/// exponent.
pub open spec fn is_coordinate(s: Seq<char>) -> bool {
    coord_accepting(coord_scan(s))
}

/// Decide whether a token is a decimal coordinate.
pub fn check_coordinate(s: &str) -> (r: bool)
    ensures
        r == is_coordinate(s@),
{
    let n = s.unicode_len();
    let mut st: i8 = 0;
    let mut i: usize = 0;
    while i < n
        invariant
            0 <= i <= n,
            n == s@.len(),
            st as int == coord_scan(s@.take(i as int)),
            -1 <= st <= 8,
        decreases n - i,
    {
        let c = s.get_char(i);
        let next: i8 = if st == 0 {
            if c == '+' || c == '-' { 1 } else if c >= '0' && c <= '9' { 2 } else if c == '.' { 3 } else { -1 }
        } else if st == 1 {
            if c >= '0' && c <= '9' { 2 } else if c == '.' { 3 } else { -1 }
        } else if st == 2 {
            if c >= '0' && c <= '9' { 2 } else if c == '.' { 5 } else if c == 'e' || c == 'E' { 6 } else { -1 }
        } else if st == 3 {
            if c >= '0' && c <= '9' { 4 } else { -1 }
        } else if st == 4 || st == 5 {
            if c >= '0' && c <= '9' { st } else if c == 'e' || c == 'E' { 6 } else { -1 }
        } else if st == 6 {
            if c == '+' || c == '-' { 7 } else if c >= '0' && c <= '9' { 8 } else { -1 }
        } else if st == 7 || st == 8 {
            if c >= '0' && c <= '9' { 8 } else { -1 }
        } else {
            -1
        };
        proof {
            assert(s@.take(i as int + 1).drop_last() =~= s@.take(i as int));
            assert(s@.take(i as int + 1).last() == s@[i as int]);
            assert(next as int == coord_step(st as int, s@[i as int]));
        }
        st = next;
        i = i + 1;
    }
    proof {
        assert(s@.take(n as int) =~= s@);
    }
    st == 2 || st == 4 || st == 5 || st == 8
}

} // verus!
