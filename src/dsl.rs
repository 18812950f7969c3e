//! The invariant description language: a line-oriented text format for
//! `InvariantSpec`, and temporal property expressions.

use vstd::prelude::*;
use crate::error::{ErrorView, FakError, FakResult};
use crate::text::{
    chars_of, is_space, is_space_exec, slice_chars, string_from_chars, trim, trim_bounds,
};
use crate::types::{InvariantSpec, InvariantView, ProofType};

verus! {

/// The pieces of `t` between occurrences of `sep` (one more piece than there
/// are separators).
pub open spec fn split_on(t: Seq<char>, sep: char) -> Seq<Seq<char>>
    decreases t.len(),
{
    if t.len() == 0 {
        seq![Seq::empty()]
    } else {
        let r = split_on(t.drop_last(), sep);
        if t.last() == sep {
            r.push(Seq::empty())
        } else {
            r.update(r.len() - 1, r.last().push(t.last()))
        }
    }
}

pub proof fn lemma_split_nonempty(t: Seq<char>, sep: char)
    ensures
        split_on(t, sep).len() >= 1,
    decreases t.len(),
{
    if t.len() > 0 {
        lemma_split_nonempty(t.drop_last(), sep);
    }
}

/// A line up to (not including) its first `#`.
pub open spec fn before_hash(line: Seq<char>) -> Seq<char>
    decreases line.len(),
{
    if line.len() == 0 {
        line
    } else if line[0] == '#' {
        Seq::empty()
    } else {
        seq![line[0]] + before_hash(line.drop_first())
    }
}

/// The pieces, each trimmed, the empty ones dropped.
pub open spec fn nonempty_trimmed(pieces: Seq<Seq<char>>) -> Seq<Seq<char>>
    decreases pieces.len(),
{
    if pieces.len() == 0 {
        Seq::empty()
    } else {
        let r = nonempty_trimmed(pieces.drop_last());
        if trim(pieces.last()).len() == 0 {
            r
        } else {
            r.push(trim(pieces.last()))
        }
    }
}

/// The pieces of `t` split at `sep`, with comments cut off when `cut` holds.
pub open spec fn segments(t: Seq<char>, sep: char, cut: bool) -> Seq<Seq<char>> {
    Seq::new(
        split_on(t, sep).len(),
        |i: int|
            if cut {
                before_hash(split_on(t, sep)[i])
            } else {
                split_on(t, sep)[i]
            },
    )
}

/// The lines, separated by line breaks.
pub open spec fn join_lines(lines: Seq<Seq<char>>) -> Seq<char>
    decreases lines.len(),
{
    if lines.len() == 0 {
        Seq::empty()
    } else if lines.len() == 1 {
        lines[0]
    } else {
        join_lines(lines.drop_last()) + seq!['\n'] + lines.last()
    }
}

/// The text with comments stripped: each line cut at its first `#` and
/// trimmed, blank lines dropped.
pub open spec fn cleaned(t: Seq<char>) -> Seq<char> {
    join_lines(nonempty_trimmed(segments(t, '\n', true)))
}

/// The index of the first `#` in `v[from..to]`, or `to`.
fn hash_cut(v: &Vec<char>, from: usize, to: usize) -> (r: usize)
    requires
        from <= to <= v@.len(),
    ensures
        from <= r <= to,
        v@.subrange(from as int, r as int) == before_hash(v@.subrange(from as int, to as int)),
{
    let mut j: usize = from;
    assert(v@.subrange(from as int, from as int) =~= Seq::<char>::empty());
    while j < to && v[j] != '#'
        invariant
            from <= j <= to,
            to <= v@.len(),
            before_hash(v@.subrange(from as int, to as int)) == v@.subrange(from as int, j as int)
                + before_hash(v@.subrange(j as int, to as int)),
        decreases to - j,
    {
        let ghost rest = v@.subrange(j as int, to as int);
        assert(rest.drop_first() =~= v@.subrange(j + 1, to as int));
        assert(v@.subrange(from as int, j + 1) =~= v@.subrange(from as int, j as int) + seq![
            v@[j as int],
        ]);
        j = j + 1;
    }
    assert(before_hash(v@.subrange(j as int, to as int)) =~= Seq::<char>::empty());
    assert(v@.subrange(from as int, j as int) + Seq::<char>::empty() =~= v@.subrange(
        from as int,
        j as int,
    ));
    j
}

/// The pieces of `v[from..to]` split at `sep`, comments cut off when `cut`
/// holds, each trimmed, the empty ones dropped.
fn split_clean(v: &Vec<char>, from: usize, to: usize, sep: char, cut: bool) -> (r: Vec<Vec<char>>)
    requires
        from <= to <= v@.len(),
    ensures
        Seq::new(r@.len(), |i: int| r@[i]@) == nonempty_trimmed(
            segments(v@.subrange(from as int, to as int), sep, cut),
        ),
{
    let mut out: Vec<Vec<char>> = Vec::new();
    let ghost mut done: Seq<Seq<char>> = Seq::empty();
    let mut start: usize = from;
    let mut i: usize = from;
    assert(v@.subrange(from as int, from as int) =~= Seq::<char>::empty());
    while i < to
        invariant
            from <= start <= i <= to,
            to <= v@.len(),
            split_on(v@.subrange(from as int, i as int), sep) == done.push(
                v@.subrange(start as int, i as int),
            ),
            Seq::new(out@.len(), |k: int| out@[k]@) == nonempty_trimmed(
                Seq::new(
                    done.len(),
                    |k: int|
                        if cut {
                            before_hash(done[k])
                        } else {
                            done[k]
                        },
                ),
            ),
        decreases to - i,
    {
        let ghost prefix = v@.subrange(from as int, i + 1);
        assert(prefix.drop_last() =~= v@.subrange(from as int, i as int));
        if v[i] == sep {
            let ghost piece = v@.subrange(start as int, i as int);
            let end = if cut {
                hash_cut(v, start, i)
            } else {
                i
            };
            let (a, b) = trim_bounds(v, start, end);
            let ghost cut_piece = if cut {
                before_hash(piece)
            } else {
                piece
            };
            assert(v@.subrange(start as int, end as int) == cut_piece);
            let ghost old_out = out@;
            if a < b {
                out.push(slice_chars(v, a, b));
            }
            proof {
                let old_cut = Seq::new(
                    done.len(),
                    |k: int|
                        if cut {
                            before_hash(done[k])
                        } else {
                            done[k]
                        },
                );
                done = done.push(piece);
                let new_cut = Seq::new(
                    done.len(),
                    |k: int|
                        if cut {
                            before_hash(done[k])
                        } else {
                            done[k]
                        },
                );
                assert(new_cut.drop_last() =~= old_cut);
                assert(new_cut.last() == cut_piece);
                assert(Seq::new(out@.len(), |k: int| out@[k]@) =~= nonempty_trimmed(new_cut));
                assert(v@.subrange(i + 1, i + 1) =~= Seq::<char>::empty());
            }
            start = i + 1;
        } else {
            proof {
                lemma_split_nonempty(v@.subrange(from as int, i as int), sep);
                assert(v@.subrange(start as int, i + 1) =~= v@.subrange(
                    start as int,
                    i as int,
                ).push(v@[i as int]));
                assert(split_on(prefix, sep) =~= done.push(v@.subrange(start as int, i + 1)));
            }
        }
        i = i + 1;
    }
    let ghost piece = v@.subrange(start as int, to as int);
    let end = if cut {
        hash_cut(v, start, to)
    } else {
        to
    };
    let (a, b) = trim_bounds(v, start, end);
    if a < b {
        out.push(slice_chars(v, a, b));
    }
    proof {
        let all = done.push(piece);
        let t = v@.subrange(from as int, to as int);
        assert(split_on(t, sep) == all);
        let old_cut = Seq::new(
            done.len(),
            |k: int|
                if cut {
                    before_hash(done[k])
                } else {
                    done[k]
                },
        );
        let new_cut = segments(t, sep, cut);
        assert(new_cut.drop_last() =~= old_cut);
        assert(Seq::new(out@.len(), |k: int| out@[k]@) =~= nonempty_trimmed(new_cut));
    }
    out
}

/// Strips comments: each line is cut at its first `#` and trimmed, and blank
/// lines are dropped.
fn strip_comments(spec_str: &str) -> (r: Vec<char>)
    ensures
        r@ == cleaned(spec_str@),
{
    let v = chars_of(spec_str);
    let lines = split_clean(&v, 0, v.len(), '\n', true);
    assert(v@.subrange(0, v@.len() as int) =~= spec_str@);
    let ghost ls = Seq::new(lines@.len(), |k: int| lines@[k]@);
    let mut out: Vec<char> = Vec::new();
    let mut i: usize = 0;
    while i < lines.len()
        invariant
            i <= lines@.len(),
            ls == Seq::new(lines@.len(), |k: int| lines@[k]@),
            out@ == join_lines(ls.take(i as int)),
        decreases lines@.len() - i,
    {
        let ghost before = out@;
        if i > 0 {
            out.push('\n');
        }
        let line = &lines[i];
        let mut j: usize = 0;
        let ghost base = out@;
        while j < line.len()
            invariant
                j <= line@.len(),
                out@ == base + line@.take(j as int),
            decreases line@.len() - j,
        {
            out.push(line[j]);
            assert(out@ =~= base + line@.take(j + 1));
            j = j + 1;
        }
        proof {
            assert(line@.take(line@.len() as int) =~= line@);
            assert(ls.take(i + 1).drop_last() =~= ls.take(i as int));
            if i == 0 {
                assert(out@ =~= ls.take(1)[0]);
            } else {
                assert(out@ =~= join_lines(ls.take(i as int)) + seq!['\n'] + ls[i as int]);
            }
        }
        i = i + 1;
    }
    assert(ls.take(lines@.len() as int) =~= ls);
    out
}

/// Whether `c` is a Unicode word character, the `\w` of regular
/// expressions: `Alphabetic`, `Join_Control`, a decimal number, a mark, or
/// connector punctuation.
pub uninterp spec fn is_word_char(c: char) -> bool;

/// Relies on `regex_syntax::try_is_word_character`: the Unicode word class
/// that the `regex` crate gives `\w`, a function of the character alone
/// (the crate's default features include its tables).
#[verifier::external_body]
fn is_word_char_exec(c: char) -> (r: bool)
    ensures
        r == is_word_char(c),
{
    regex_syntax::try_is_word_character(c).unwrap_or(false)
}

/// `w` occurs in `t` at position `p`.
pub open spec fn occurs_at(t: Seq<char>, p: int, w: Seq<char>) -> bool {
    0 <= p && p + w.len() <= t.len() && t.subrange(p, p + w.len()) == w
}

/// The end of the run of white space that starts at `q`.
pub open spec fn space_end(t: Seq<char>, q: int) -> int
    decreases t.len() - q,
{
    if 0 <= q < t.len() && is_space(t[q]) {
        space_end(t, q + 1)
    } else {
        q
    }
}

/// The end of the run of identifier characters that starts at `q`.
pub open spec fn word_end(t: Seq<char>, q: int) -> int
    decreases t.len() - q,
{
    if 0 <= q < t.len() && is_word_char(t[q]) {
        word_end(t, q + 1)
    } else {
        q
    }
}

/// The end of the line that `q` is on: the next line break, or the end.
pub open spec fn line_end(t: Seq<char>, q: int) -> int
    decreases t.len() - q,
{
    if 0 <= q < t.len() && t[q] != '\n' {
        line_end(t, q + 1)
    } else {
        q
    }
}

/// The identifier after `keyword` at position `p`: the keyword, white space
/// (at least some when `gap` holds), then one or more identifier characters.
pub open spec fn word_after(t: Seq<char>, p: int, keyword: Seq<char>, gap: bool) -> Option<
    Seq<char>,
> {
    let q = p + keyword.len();
    let e = space_end(t, q);
    if occurs_at(t, p, keyword) && (e > q || !gap) && e < t.len() && is_word_char(t[e]) {
        Some(t.subrange(e, word_end(t, e)))
    } else {
        None
    }
}

/// The first identifier in `t`, at or after `p`, that follows `keyword`.
pub open spec fn first_word_after(t: Seq<char>, p: int, keyword: Seq<char>, gap: bool) -> Option<
    Seq<char>,
>
    decreases t.len() - p,
{
    if p < 0 || p >= t.len() {
        None
    } else {
        match word_after(t, p, keyword, gap) {
            Some(w) => Some(w),
            None => first_word_after(t, p + 1, keyword, gap),
        }
    }
}

/// The value of field `name` declared at position `p` (`name:`, white space,
/// then the rest of a line), trimmed. When only white space follows up to the
/// end of the text, the value is empty, provided some of it is not a line
/// break.
pub open spec fn field_at(t: Seq<char>, p: int, name: Seq<char>) -> Option<Seq<char>> {
    let q = p + name.len() + 1;
    let e = space_end(t, q);
    if !occurs_at(t, p, name.push(':')) {
        None
    } else if e < t.len() {
        Some(trim(t.subrange(e, line_end(t, e))))
    } else if exists|j: int| q <= j < t.len() && t[j] != '\n' {
        Some(Seq::empty())
    } else {
        None
    }
}

/// The value of the first declaration of field `name` at or after `p`.
pub open spec fn first_field(t: Seq<char>, p: int, name: Seq<char>) -> Option<Seq<char>>
    decreases t.len() - p,
{
    if p < 0 || p >= t.len() {
        None
    } else {
        match field_at(t, p, name) {
            Some(v) => Some(v),
            None => first_field(t, p + 1, name),
        }
    }
}

/// The elements of a bracketed, comma-separated list, trimmed, empty ones
/// dropped; any other text gives no elements.
pub open spec fn list_items(s: Option<Seq<char>>) -> Seq<Seq<char>> {
    match s {
        Some(v) => if v.len() >= 2 && v[0] == '[' && v.last() == ']' {
            nonempty_trimmed(segments(v.subrange(1, v.len() - 1), ',', false))
        } else {
            Seq::empty()
        },
        None => Seq::empty(),
    }
}

/// `w` occurs in `v` at `p`.
fn occurs_at_exec(v: &Vec<char>, p: usize, w: &str) -> (r: bool)
    ensures
        r == occurs_at(v@, p as int, w@),
{
    let n = w.unicode_len();
    if p > v.len() || n > v.len() - p {
        return false;
    }
    let mut k: usize = 0;
    while k < n
        invariant
            n == w@.len(),
            p + n <= v@.len(),
            v@.len() == v.len(),
            k <= n,
            v@.subrange(p as int, p + k) == w@.take(k as int),
        decreases n - k,
    {
        assert(p + k < v@.len());
        if v[p + k] != w.get_char(k) {
            assert(v@.subrange(p as int, p + n)[k as int] != w@[k as int]);
            return false;
        }
        assert(v@.subrange(p as int, p + k + 1) =~= w@.take(k + 1));
        k = k + 1;
    }
    assert(w@.take(n as int) =~= w@);
    true
}

fn space_end_exec(v: &Vec<char>, q: usize) -> (r: usize)
    requires
        q <= v@.len(),
    ensures
        r as int == space_end(v@, q as int),
        q <= r <= v@.len(),
{
    let mut e = q;
    while e < v.len() && is_space_exec(v[e])
        invariant
            q <= e <= v@.len(),
            space_end(v@, q as int) == space_end(v@, e as int),
        decreases v@.len() - e,
    {
        e = e + 1;
    }
    e
}

fn word_end_exec(v: &Vec<char>, q: usize) -> (r: usize)
    requires
        q <= v@.len(),
    ensures
        r as int == word_end(v@, q as int),
        q <= r <= v@.len(),
{
    let mut e = q;
    while e < v.len() && is_word_char_exec(v[e])
        invariant
            q <= e <= v@.len(),
            word_end(v@, q as int) == word_end(v@, e as int),
        decreases v@.len() - e,
    {
        e = e + 1;
    }
    e
}

fn line_end_exec(v: &Vec<char>, q: usize) -> (r: usize)
    requires
        q <= v@.len(),
    ensures
        r as int == line_end(v@, q as int),
        q <= r <= v@.len(),
{
    let mut e = q;
    while e < v.len() && v[e] != '\n'
        invariant
            q <= e <= v@.len(),
            line_end(v@, q as int) == line_end(v@, e as int),
        decreases v@.len() - e,
    {
        e = e + 1;
    }
    e
}

/// The first identifier in `v` that follows `keyword` (see `first_word_after`).
fn find_word_after(v: &Vec<char>, keyword: &str, gap: bool) -> (r: Option<Vec<char>>)
    ensures
        match first_word_after(v@, 0, keyword@, gap) {
            Some(w) => r is Some && r->Some_0@ == w,
            None => r is None,
        },
{
    let n = keyword.unicode_len();
    let mut p: usize = 0;
    while p < v.len()
        invariant
            n == keyword@.len(),
            p <= v@.len(),
            first_word_after(v@, 0, keyword@, gap) == first_word_after(v@, p as int, keyword@, gap),
        decreases v@.len() - p,
    {
        if occurs_at_exec(v, p, keyword) {
            let q = p + n;
            let e = space_end_exec(v, q);
            if (e > q || !gap) && e < v.len() && is_word_char_exec(v[e]) {
                let w = word_end_exec(v, e);
                return Some(slice_chars(v, e, w));
            }
        }
        p = p + 1;
    }
    None
}

/// The value of the first declaration of field `name` in `v` (see
/// `first_field`).
fn find_field(v: &Vec<char>, name: &str) -> (r: Option<Vec<char>>)
    ensures
        match first_field(v@, 0, name@) {
            Some(w) => r is Some && r->Some_0@ == w,
            None => r is None,
        },
{
    let n = name.unicode_len();
    let mut key = String::from_str(name);
    key.append(":");
    proof {
        reveal_strlit(":");
    }
    assert(key@ =~= name@.push(':'));
    let mut p: usize = 0;
    while p < v.len()
        invariant
            n == name@.len(),
            key@ == name@.push(':'),
            p <= v@.len(),
            first_field(v@, 0, name@) == first_field(v@, p as int, name@),
        decreases v@.len() - p,
    {
        if occurs_at_exec(v, p, key.as_str()) {
            let q = p + n + 1;
            let e = space_end_exec(v, q);
            if e < v.len() {
                let l = line_end_exec(v, e);
                let (a, b) = trim_bounds(v, e, l);
                return Some(slice_chars(v, a, b));
            }
            let mut j: usize = q;
            while j < v.len() && v[j] == '\n'
                invariant
                    q <= j <= v@.len(),
                    forall|k: int| q <= k < j ==> v@[k] == '\n',
                decreases v@.len() - j,
            {
                j = j + 1;
            }
            if j < v.len() {
                return Some(Vec::new());
            }
        }
        p = p + 1;
    }
    None
}

/// The elements of a bracketed list (see `list_items`).
fn parse_list(value: &Option<Vec<char>>) -> (r: Vec<String>)
    ensures
        Seq::new(r@.len(), |i: int| r@[i]@) == list_items(
            match value {
                Some(v) => Some(v@),
                None => None,
            },
        ),
{
    match value {
        Some(v) => {
            if v.len() >= 2 && v[0] == '[' && v[v.len() - 1] == ']' {
                let pieces = split_clean(v, 1, v.len() - 1, ',', false);
                let mut out: Vec<String> = Vec::new();
                let mut i: usize = 0;
                while i < pieces.len()
                    invariant
                        i <= pieces@.len(),
                        out@.len() == i,
                        forall|k: int| 0 <= k < i ==> (#[trigger] out@[k])@ == pieces@[k]@,
                    decreases pieces@.len() - i,
                {
                    out.push(string_from_chars(&pieces[i]));
                    i = i + 1;
                }
                assert(Seq::new(out@.len(), |i: int| out@[i]@) =~= Seq::new(
                    pieces@.len(),
                    |i: int| pieces@[i]@,
                ));
                out
            } else {
                Vec::new()
            }
        },
        None => Vec::new(),
    }
}

/// The invariant that the text describes, if it declares a name.
pub open spec fn parsed_invariant(text: Seq<char>) -> Option<InvariantView> {
    let t = cleaned(text);
    match first_word_after(t, 0, "invariant"@, true) {
        None => None,
        Some(name) => Some(
            InvariantView {
                name,
                description: match first_field(t, 0, "description"@) {
                    Some(d) => d,
                    None => Seq::empty(),
                },
                precondition: first_field(t, 0, "precondition"@),
                postcondition: first_field(t, 0, "postcondition"@),
                temporal_properties: list_items(first_field(t, 0, "temporal_properties"@)),
                invariant_type: match declared_type(t) {
                    Some(pt) => pt,
                    None => ProofType::BehavioralSoundness,
                },
            },
        ),
    }
}

/// The proof type that a `type:` declaration names, if the first one names one.
pub open spec fn declared_type(t: Seq<char>) -> Option<ProofType> {
    match first_word_after(t, 0, "type:"@, false) {
        Some(w) => ProofType::parsed(w),
        None => None,
    }
}

/// `t` begins with `op`.
pub open spec fn starts_with(t: Seq<char>, op: Seq<char>) -> bool {
    op.len() <= t.len() && t.subrange(0, op.len() as int) == op
}

/// Operator `op` and the expression after it in `t`, or the message of a
/// missing expression.
pub open spec fn with_operator(op: Seq<char>, t: Seq<char>) -> Result<
    (Seq<char>, Seq<char>),
    Seq<char>,
> {
    let rest = trim(t.subrange(op.len() as int, t.len() as int));
    if rest.len() == 0 {
        Err("operator '"@ + op + "' requires an expression"@)
    } else {
        Ok((op, rest))
    }
}

/// The operator and expression of a temporal property, or the message of
/// why it is rejected. Operators are tried in the order `always`,
/// `eventually`, `until`, `next`, each as a plain prefix.
pub open spec fn temporal_outcome(s: Seq<char>) -> Result<(Seq<char>, Seq<char>), Seq<char>> {
    let t = trim(s);
    if starts_with(t, "always"@) {
        with_operator("always"@, t)
    } else if starts_with(t, "eventually"@) {
        with_operator("eventually"@, t)
    } else if starts_with(t, "until"@) {
        with_operator("until"@, t)
    } else if starts_with(t, "next"@) {
        with_operator("next"@, t)
    } else {
        Err("unknown temporal operator in: "@ + t)
    }
}

/// A temporal property: an operator and the expression it governs.
#[derive(Clone, Debug, PartialEq)]
pub struct TemporalProperty {
    pub operator: String,
    pub expression: String,
}

/// The optional fields of an invariant description.
#[derive(Clone, Debug, PartialEq)]
pub struct InvariantFields {
    pub description: Option<String>,
    pub precondition: Option<String>,
    pub postcondition: Option<String>,
    pub temporal_properties: Option<String>,
}

/// The optional content of a text.
pub open spec fn opt_text(o: Option<String>) -> Option<Seq<char>> {
    match o {
        Some(s) => Some(s@),
        None => None,
    }
}

fn opt_string(o: &Option<Vec<char>>) -> (r: Option<String>)
    ensures
        opt_text(r) == match o {
            Some(v) => Some(v@),
            None => None::<Seq<char>>,
        },
{
    match o {
        Some(v) => Some(string_from_chars(v)),
        None => None,
    }
}

/// Parser of the invariant description language.
#[derive(Clone, Debug, Default)]
pub struct InvariantDSL;

impl InvariantDSL {
    /// Parses an invariant description. The first `invariant <name>` names it
    /// (else a parse error); `description:`, `precondition:`,
    /// `postcondition:` and `temporal_properties: [a, b]` fill the optional
    /// fields, first declaration first; `type: <name>` selects the proof type,
    /// behavioral soundness by default.
    pub fn parse_invariant(spec_str: &str) -> (r: FakResult<InvariantSpec>)
        ensures
            match parsed_invariant(spec_str@) {
                Some(v) => r is Ok && r->Ok_0@ == v,
                None => r is Err && r->Err_0@ == (ErrorView::ParseError {
                    source: "invariant_spec"@,
                    message: "missing invariant name declaration"@,
                }),
            },
    {
        let clean = strip_comments(spec_str);
        let name = Self::extract_name_chars(&clean)?;
        let description = find_field(&clean, "description");
        let precondition = find_field(&clean, "precondition");
        let postcondition = find_field(&clean, "postcondition");
        let temporal = find_field(&clean, "temporal_properties");
        let temporal_properties = parse_list(&temporal);
        let invariant_type = match Self::extract_type_chars(&clean) {
            Some(t) => t,
            None => ProofType::BehavioralSoundness,
        };
        let description = match opt_string(&description) {
            Some(d) => d,
            None => String::new(),
        };
        let r = InvariantSpec {
            name: string_from_chars(&name),
            description,
            precondition: opt_string(&precondition),
            postcondition: opt_string(&postcondition),
            temporal_properties,
            invariant_type,
        };
        proof {
            let t = cleaned(spec_str@);
            assert(crate::types::strings_view(r.temporal_properties@) =~= Seq::new(
                r.temporal_properties@.len(),
                |i: int| r.temporal_properties@[i]@,
            ));
            assert(crate::types::opt_view(r.precondition) == first_field(t, 0, "precondition"@));
            assert(crate::types::opt_view(r.postcondition) == first_field(t, 0, "postcondition"@));
        }
        Ok(r)
    }

    /// The text with comments stripped: each line cut at its first `#` and
    /// trimmed, blank lines dropped.
    pub fn strip_comments(spec_str: &str) -> (r: String)
        ensures
            r@ == cleaned(spec_str@),
    {
        string_from_chars(&strip_comments(spec_str))
    }

    fn extract_name_chars(clean: &Vec<char>) -> (r: FakResult<Vec<char>>)
        ensures
            match first_word_after(clean@, 0, "invariant"@, true) {
                Some(w) => r is Ok && r->Ok_0@ == w,
                None => r is Err && r->Err_0@ == (ErrorView::ParseError {
                    source: "invariant_spec"@,
                    message: "missing invariant name declaration"@,
                }),
            },
    {
        match find_word_after(clean, "invariant", true) {
            Some(w) => Ok(w),
            None => Err(
                FakError::ParseError {
                    source: String::from_str("invariant_spec"),
                    message: String::from_str("missing invariant name declaration"),
                },
            ),
        }
    }

    fn extract_type_chars(clean: &Vec<char>) -> (r: Option<ProofType>)
        ensures
            r == declared_type(clean@),
    {
        match find_word_after(clean, "type:", false) {
            Some(w) => match ProofType::from_str(string_from_chars(&w).as_str()) {
                Ok(t) => Some(t),
                Err(_) => None,
            },
            None => None,
        }
    }

    /// The invariant name that `spec_str` declares first.
    pub fn extract_name(spec_str: &str) -> (r: FakResult<String>)
        ensures
            match first_word_after(spec_str@, 0, "invariant"@, true) {
                Some(w) => r is Ok && r->Ok_0@ == w,
                None => r is Err && r->Err_0@ == (ErrorView::ParseError {
                    source: "invariant_spec"@,
                    message: "missing invariant name declaration"@,
                }),
            },
    {
        let w = Self::extract_name_chars(&chars_of(spec_str))?;
        Ok(string_from_chars(&w))
    }

    /// The proof type that the first `type:` declaration of `spec_str` names.
    pub fn extract_type(spec_str: &str) -> (r: Option<ProofType>)
        ensures
            r == declared_type(spec_str@),
    {
        Self::extract_type_chars(&chars_of(spec_str))
    }

    /// The value of the first declaration of `field_name` in `spec_str`.
    pub fn extract_field_value(spec_str: &str, field_name: &str) -> (r: Option<String>)
        ensures
            opt_text(r) == first_field(spec_str@, 0, field_name@),
    {
        opt_string(&find_field(&chars_of(spec_str), field_name))
    }

    /// The optional fields that `spec_str` declares.
    pub fn extract_fields(spec_str: &str) -> (r: InvariantFields)
        ensures
            opt_text(r.description) == first_field(spec_str@, 0, "description"@),
            opt_text(r.precondition) == first_field(spec_str@, 0, "precondition"@),
            opt_text(r.postcondition) == first_field(spec_str@, 0, "postcondition"@),
            opt_text(r.temporal_properties) == first_field(spec_str@, 0, "temporal_properties"@),
    {
        InvariantFields {
            description: Self::extract_field_value(spec_str, "description"),
            precondition: Self::extract_field_value(spec_str, "precondition"),
            postcondition: Self::extract_field_value(spec_str, "postcondition"),
            temporal_properties: Self::extract_field_value(spec_str, "temporal_properties"),
        }
    }

    /// The elements of a bracketed, comma-separated list; any other text gives
    /// none.
    pub fn parse_temporal_properties_list(props_str: Option<&str>) -> (r: Vec<String>)
        ensures
            Seq::new(r@.len(), |i: int| r@[i]@) == list_items(
                match props_str {
                    Some(s) => Some(s@),
                    None => None,
                },
            ),
    {
        match props_str {
            Some(s) => parse_list(&Some(chars_of(s))),
            None => parse_list(&None),
        }
    }

    /// Parses `<operator> <expression>`, the operator one of `always`,
    /// `eventually`, `until` or `next`.
    pub fn parse_temporal_property(prop_str: &str) -> (r: FakResult<TemporalProperty>)
        ensures
            match temporal_outcome(prop_str@) {
                Ok((op, e)) => r is Ok && r->Ok_0.operator@ == op && r->Ok_0.expression@ == e,
                Err(m) => r is Err && r->Err_0@ == (ErrorView::ParseError {
                    source: "temporal_property"@,
                    message: m,
                }),
            },
    {
        let v = chars_of(prop_str);
        let (a, b) = trim_bounds(&v, 0, v.len());
        let t = slice_chars(&v, a, b);
        assert(v@.subrange(0, v@.len() as int) =~= prop_str@);
        let ops: [&str; 4] = ["always", "eventually", "until", "next"];
        let mut k: usize = 0;
        proof {
            reveal_with_fuel(InvariantDSL::outcome_from, 5);
        }
        while k < 4
            invariant
                t@ == trim(prop_str@),
                ops@ == seq!["always", "eventually", "until", "next"],
                0 <= k <= 4,
                temporal_outcome(prop_str@) == Self::outcome_from(t@, k as int),
            decreases 4 - k,
        {
            let op = ops[k];
            if occurs_at_exec(&t, 0, op) {
                let n = op.unicode_len();
                let (c, d) = trim_bounds(&t, n, t.len());
                if c == d {
                    let mut message = String::from_str("operator '");
                    message.append(op);
                    message.append("' requires an expression");
                    return Err(
                        FakError::ParseError {
                            source: String::from_str("temporal_property"),
                            message,
                        },
                    );
                }
                return Ok(
                    TemporalProperty {
                        operator: String::from_str(op),
                        expression: string_from_chars(&slice_chars(&t, c, d)),
                    },
                );
            }
            k = k + 1;
        }
        let mut message = String::from_str("unknown temporal operator in: ");
        let trimmed = string_from_chars(&t);
        message.append(trimmed.as_str());
        Err(FakError::ParseError { source: String::from_str("temporal_property"), message })
    }

    /// The outcome of trying the operators from the `k`-th on.
    pub open spec fn outcome_from(t: Seq<char>, k: int) -> Result<
        (Seq<char>, Seq<char>),
        Seq<char>,
    >
        decreases 4 - k,
    {
        let ops = seq!["always"@, "eventually"@, "until"@, "next"@];
        if k < 0 || k >= 4 {
            Err("unknown temporal operator in: "@ + t)
        } else if starts_with(t, ops[k]) {
            with_operator(ops[k], t)
        } else {
            Self::outcome_from(t, k + 1)
        }
    }
}

} // verus!
