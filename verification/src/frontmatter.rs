//! The metadata extractor: splits a note's raw text into a typed header
//! mapping and the remaining body.
//!
//! The header convention is fixed: the text must begin with a delimiter line
//! of three dashes, followed by header lines up to a closing delimiter line
//! of three dashes. Each non-blank header line is `key: value`, where the
//! value is a boolean literal (`true`/`false`), an integer literal (kept as
//! its digits), a double- or single-quoted or bare string, or an array of
//! such scalars — written inline as a bracketed, comma-separated list, or in
//! block style as dash-space item lines under a `key:` with no value on its
//! own line. Lines may end in LF or CRLF. A missing opening delimiter, a
//! missing closing delimiter, a line without a colon, an empty key, or an
//! unclosed bracket is a parse error; the caller skips the note and the scan
//! as a whole continues.
use vstd::prelude::*;

verus! {

/// One scalar header value: a string, a boolean, or a number kept as its
/// literal digits (the engine never does arithmetic on header numbers).
#[derive(Debug)]
pub enum HeaderScalar {
    Str(String),
    Bool(bool),
    Num(String),
}

/// Model of a scalar header value.
pub enum ScalarV {
    Str(Seq<char>),
    Bool(bool),
    Num(Seq<char>),
}

impl View for HeaderScalar {
    type V = ScalarV;

    open spec fn view(&self) -> ScalarV {
        match self {
            HeaderScalar::Str(s) => ScalarV::Str(s@),
            HeaderScalar::Bool(b) => ScalarV::Bool(*b),
            HeaderScalar::Num(s) => ScalarV::Num(s@),
        }
    }
}

impl DeepView for HeaderScalar {
    type V = ScalarV;

    open spec fn deep_view(&self) -> ScalarV {
        self.view()
    }
}

/// One header value: a scalar or an array of scalars.
#[derive(Debug)]
pub enum HeaderValue {
    Str(String),
    Bool(bool),
    Num(String),
    Arr(Vec<HeaderScalar>),
}

/// Model of a header value.
pub enum ValueV {
    Str(Seq<char>),
    Bool(bool),
    Num(Seq<char>),
    Arr(Seq<ScalarV>),
}

impl View for HeaderValue {
    type V = ValueV;

    open spec fn view(&self) -> ValueV {
        match self {
            HeaderValue::Str(s) => ValueV::Str(s@),
            HeaderValue::Bool(b) => ValueV::Bool(*b),
            HeaderValue::Num(s) => ValueV::Num(s@),
            HeaderValue::Arr(v) => ValueV::Arr(v.deep_view()),
        }
    }
}

impl DeepView for HeaderValue {
    type V = ValueV;

    open spec fn deep_view(&self) -> ValueV {
        self.view()
    }
}

/// One `key: value` binding of the header.
#[derive(Debug)]
pub struct HeaderEntry {
    pub key: String,
    pub value: HeaderValue,
}

/// Model of one header binding.
pub struct EntryV {
    pub key: Seq<char>,
    pub value: ValueV,
}

impl View for HeaderEntry {
    type V = EntryV;

    open spec fn view(&self) -> EntryV {
        EntryV { key: self.key@, value: self.value@ }
    }
}

impl DeepView for HeaderEntry {
    type V = EntryV;

    open spec fn deep_view(&self) -> EntryV {
        self.view()
    }
}

/// A parsed header: the bindings in the order they appear in the note. A
/// lookup returns the first binding of a key.
#[derive(Debug)]
pub struct Header {
    pub entries: Vec<HeaderEntry>,
}

impl View for Header {
    type V = Seq<EntryV>;

    open spec fn view(&self) -> Seq<EntryV> {
        self.entries.deep_view()
    }
}

/// The header block is absent or malformed; the note yields no records.
#[derive(Debug)]
pub struct ParseError;

// ---------------------------------------------------------------------------
// Character-level helpers.
// ---------------------------------------------------------------------------
/// The index of the first occurrence of `c` in `s` at or after `i`, or
/// `s.len()` if there is none.
pub open spec fn find_from(s: Seq<char>, i: int, c: char) -> int
    decreases s.len() - i,
    when 0 <= i <= s.len()
{
    if i >= s.len() {
        s.len() as int
    } else if s[i] == c {
        i
    } else {
        find_from(s, i + 1, c)
    }
}

pub proof fn lemma_find_from(s: Seq<char>, i: int, c: char)
    requires
        0 <= i <= s.len(),
    ensures
        i <= find_from(s, i, c) <= s.len(),
        find_from(s, i, c) < s.len() ==> s[find_from(s, i, c)] == c,
        forall|k: int| i <= k < find_from(s, i, c) ==> s[k] != c,
    decreases s.len() - i,
{
    if i < s.len() && s[i] != c {
        lemma_find_from(s, i + 1, c);
    }
}

pub(crate) fn find_char(s: &str, i: usize, c: char) -> (r: usize)
    requires
        i <= s@.len(),
    ensures
        r == find_from(s@, i as int, c),
        i <= r <= s@.len(),
    decreases s@.len() - i,
{
    let n = s.unicode_len();
    if i == n {
        n
    } else if s.get_char(i) == c {
        i
    } else {
        find_char(s, i + 1, c)
    }
}

/// The first index at or after `i` that does not hold a space.
pub open spec fn skip_spaces(s: Seq<char>, i: int) -> int
    decreases s.len() - i,
    when 0 <= i <= s.len()
{
    if i < s.len() && s[i] == ' ' {
        skip_spaces(s, i + 1)
    } else {
        i
    }
}

/// The least index at or below `j` such that everything from it up to `j`
/// holds spaces only.
pub open spec fn rskip_spaces(s: Seq<char>, j: int) -> int
    decreases j,
    when 0 <= j <= s.len()
{
    if j > 0 && s[j - 1] == ' ' {
        rskip_spaces(s, j - 1)
    } else {
        j
    }
}

/// `s` without its leading and trailing spaces.
pub open spec fn trim(s: Seq<char>) -> Seq<char> {
    let a = skip_spaces(s, 0);
    let b = rskip_spaces(s, s.len() as int);
    if a <= b {
        s.subrange(a, b)
    } else {
        Seq::empty()
    }
}

fn skip_spaces_exec(s: &str, i: usize) -> (r: usize)
    requires
        i <= s@.len(),
    ensures
        r == skip_spaces(s@, i as int),
        i <= r <= s@.len(),
    decreases s@.len() - i,
{
    if i < s.unicode_len() && s.get_char(i) == ' ' {
        skip_spaces_exec(s, i + 1)
    } else {
        i
    }
}

fn rskip_spaces_exec(s: &str, j: usize) -> (r: usize)
    requires
        j <= s@.len(),
    ensures
        r == rskip_spaces(s@, j as int),
        r <= j,
    decreases j,
{
    if j > 0 && s.get_char(j - 1) == ' ' {
        rskip_spaces_exec(s, j - 1)
    } else {
        j
    }
}

fn trim_str(s: &str) -> (r: String)
    ensures
        r@ == trim(s@),
{
    let n = s.unicode_len();
    let a = skip_spaces_exec(s, 0);
    let b = rskip_spaces_exec(s, n);
    if a <= b {
        s.substring_char(a, b).to_owned()
    } else {
        assert(trim(s@) =~= Seq::<char>::empty());
        String::new()
    }
}

/// Whether `c` is a decimal digit.
pub open spec fn is_digit(c: char) -> bool {
    ('0' as u32) <= (c as u32) && (c as u32) <= ('9' as u32)
}

/// Whether every character of `s` from `i` on is a decimal digit.
pub open spec fn all_digits(s: Seq<char>, i: int) -> bool {
    forall|k: int| i <= k < s.len() ==> is_digit(#[trigger] s[k])
}

fn all_digits_exec(s: &str, i: usize) -> (r: bool)
    requires
        i <= s@.len(),
    ensures
        r == all_digits(s@, i as int),
    decreases s@.len() - i,
{
    let n = s.unicode_len();
    if i == n {
        true
    } else {
        let c = s.get_char(i);
        if (c as u32) < ('0' as u32) || (c as u32) > ('9' as u32) {
            assert(!all_digits(s@, i as int)) by {
                assert(!is_digit(s@[i as int]));
            }
            false
        } else {
            let r = all_digits_exec(s, i + 1);
            proof {
                if r {
                    assert forall|k: int| i <= k < s@.len() implies is_digit(#[trigger] s@[k]) by {
                        if k > i {
                            assert(is_digit(s@[k]));
                        }
                    }
                } else {
                    assert(!all_digits(s@, i as int)) by {
                        let w = choose|k: int| i + 1 <= k < s@.len() && !is_digit(#[trigger] s@[k]);
                        assert(!is_digit(s@[w]));
                    }
                }
            }
            r
        }
    }
}

/// Whether `s` is an integer literal: digits with an optional leading minus.
pub open spec fn is_num_lit(s: Seq<char>) -> bool {
    if s.len() == 0 {
        false
    } else if s[0] == '-' {
        s.len() > 1 && all_digits(s, 1)
    } else {
        all_digits(s, 0)
    }
}

/// Whether `s` is exactly the literal `true`.
pub open spec fn is_true_lit(s: Seq<char>) -> bool {
    s.len() == 4 && s[0] == 't' && s[1] == 'r' && s[2] == 'u' && s[3] == 'e'
}

/// Whether `s` is exactly the literal `false`.
pub open spec fn is_false_lit(s: Seq<char>) -> bool {
    s.len() == 5 && s[0] == 'f' && s[1] == 'a' && s[2] == 'l' && s[3] == 's' && s[4] == 'e'
}

// ---------------------------------------------------------------------------
// Scalars.
// ---------------------------------------------------------------------------
/// The scalar denoted by the (already trimmed) text `s`: a boolean literal,
/// an integer literal, a double- or single-quoted string (quotes stripped),
/// or a bare string. Total: any text denotes some scalar.
pub open spec fn scalar_of(s: Seq<char>) -> ScalarV {
    if is_true_lit(s) {
        ScalarV::Bool(true)
    } else if is_false_lit(s) {
        ScalarV::Bool(false)
    } else if is_num_lit(s) {
        ScalarV::Num(s)
    } else if s.len() >= 2 && s[0] == '"' && s[s.len() - 1] == '"' {
        ScalarV::Str(s.subrange(1, s.len() - 1))
    } else if s.len() >= 2 && s[0] == '\'' && s[s.len() - 1] == '\'' {
        ScalarV::Str(s.subrange(1, s.len() - 1))
    } else {
        ScalarV::Str(s)
    }
}

fn parse_scalar(s: &str) -> (r: HeaderScalar)
    ensures
        r@ == scalar_of(s@),
{
    let n = s.unicode_len();
    if n == 4 && s.get_char(0) == 't' && s.get_char(1) == 'r' && s.get_char(2) == 'u'
        && s.get_char(3) == 'e' {
        HeaderScalar::Bool(true)
    } else if n == 5 && s.get_char(0) == 'f' && s.get_char(1) == 'a' && s.get_char(2) == 'l'
        && s.get_char(3) == 's' && s.get_char(4) == 'e' {
        HeaderScalar::Bool(false)
    } else if n > 0 && (if s.get_char(0) == '-' {
        n > 1 && all_digits_exec(s, 1)
    } else {
        all_digits_exec(s, 0)
    }) {
        HeaderScalar::Num(s.to_owned())
    } else if n >= 2 && s.get_char(0) == '"' && s.get_char(n - 1) == '"' {
        HeaderScalar::Str(s.substring_char(1, n - 1).to_owned())
    } else if n >= 2 && s.get_char(0) == '\'' && s.get_char(n - 1) == '\'' {
        HeaderScalar::Str(s.substring_char(1, n - 1).to_owned())
    } else {
        HeaderScalar::Str(s.to_owned())
    }
}

// ---------------------------------------------------------------------------
// Values.
// ---------------------------------------------------------------------------
/// The scalars of a comma-separated element list, reading `s` from `i`:
/// each element is trimmed and read as a scalar.
pub open spec fn elems_of(s: Seq<char>, i: int) -> Seq<ScalarV>
    decreases s.len() - i,
    when 0 <= i <= s.len()
    via elems_of_decreases
{
    let j = find_from(s, i, ',');
    let e = scalar_of(trim(s.subrange(i, j)));
    if j >= s.len() {
        seq![e]
    } else {
        seq![e] + elems_of(s, j + 1)
    }
}

#[via_fn]
proof fn elems_of_decreases(s: Seq<char>, i: int) {
    lemma_find_from(s, i, ',');
}

fn parse_elems(s: &str, i: usize) -> (r: Vec<HeaderScalar>)
    requires
        i <= s@.len(),
    ensures
        r.deep_view() == elems_of(s@, i as int),
    decreases s@.len() - i,
{
    let n = s.unicode_len();
    let j = find_char(s, i, ',');
    let piece = trim_str(s.substring_char(i, j));
    let e = parse_scalar(piece.as_str());
    if j == n {
        let mut v: Vec<HeaderScalar> = Vec::new();
        v.push(e);
        assert(v.deep_view() =~= elems_of(s@, i as int));
        v
    } else {
        let mut rest = parse_elems(s, j + 1);
        rest.insert(0, e);
        assert(rest.deep_view() =~= elems_of(s@, i as int));
        rest
    }
}

/// Turns a scalar into the corresponding header value.
pub open spec fn scalar_value(s: ScalarV) -> ValueV {
    match s {
        ScalarV::Str(x) => ValueV::Str(x),
        ScalarV::Bool(b) => ValueV::Bool(b),
        ScalarV::Num(x) => ValueV::Num(x),
    }
}

/// The value denoted by the (already trimmed) text `v`, or `None` if it is
/// malformed. A text opening a bracket must close it; anything else is some
/// scalar. An array whose inside is all spaces is empty.
pub open spec fn value_of(v: Seq<char>) -> Option<ValueV> {
    if v.len() > 0 && v[0] == '[' {
        if v.len() >= 2 && v[v.len() - 1] == ']' {
            let inner = v.subrange(1, v.len() - 1);
            if trim(inner).len() == 0 {
                Some(ValueV::Arr(Seq::empty()))
            } else {
                Some(ValueV::Arr(elems_of(inner, 0)))
            }
        } else {
            None
        }
    } else {
        Some(scalar_value(scalar_of(v)))
    }
}

fn parse_value(v: &str) -> (r: Option<HeaderValue>)
    ensures
        r is Some <==> value_of(v@) is Some,
        r matches Some(x) ==> value_of(v@) == Some(x@),
{
    let n = v.unicode_len();
    if n > 0 && v.get_char(0) == '[' {
        if n >= 2 && v.get_char(n - 1) == ']' {
            let inner = v.substring_char(1, n - 1);
            let a = skip_spaces_exec(inner, 0);
            let b = rskip_spaces_exec(inner, inner.unicode_len());
            if a >= b {
                let empty: Vec<HeaderScalar> = Vec::new();
                assert(empty.deep_view() =~= Seq::<ScalarV>::empty());
                Some(HeaderValue::Arr(empty))
            } else {
                Some(HeaderValue::Arr(parse_elems(inner, 0)))
            }
        } else {
            None
        }
    } else {
        match parse_scalar(v) {
            HeaderScalar::Str(s) => Some(HeaderValue::Str(s)),
            HeaderScalar::Bool(b) => Some(HeaderValue::Bool(b)),
            HeaderScalar::Num(s) => Some(HeaderValue::Num(s)),
        }
    }
}

// ---------------------------------------------------------------------------
// Lines and the whole header.
// ---------------------------------------------------------------------------
/// The end of the line that starts at `i` and whose line break is at `j`: a
/// carriage return just before the break belongs to the break, not to the
/// line, so both LF and CRLF endings read the same.
pub open spec fn line_end(s: Seq<char>, i: int, j: int) -> int {
    if j > i && s[j - 1] == '\r' {
        j - 1
    } else {
        j
    }
}

/// The outcome of reading one header line.
pub enum LineParse {
    /// All spaces: the line is skipped.
    Blank,
    /// A well-formed `key: value` binding.
    Binding(EntryV),
    /// A binding with an empty value: the following lines may hold the
    /// value as a block-style list.
    Opener(Seq<char>),
    /// No colon, an empty key, or a malformed value.
    Malformed,
}

/// Reads one header line: blank lines are skipped; otherwise the text before
/// the first colon, trimmed, is the key (it must be non-empty) and the
/// trimmed remainder denotes the value. An empty remainder leaves the value
/// to the lines that follow.
pub open spec fn line_of(line: Seq<char>) -> LineParse {
    if trim(line).len() == 0 {
        LineParse::Blank
    } else {
        let j = find_from(line, 0, ':');
        if j >= line.len() {
            LineParse::Malformed
        } else {
            let key = trim(line.subrange(0, j));
            if key.len() == 0 {
                LineParse::Malformed
            } else {
                let vt = trim(line.subrange(j + 1, line.len() as int));
                if vt.len() == 0 {
                    LineParse::Opener(key)
                } else {
                    match value_of(vt) {
                        Option::None => LineParse::Malformed,
                        Option::Some(v) => LineParse::Binding(EntryV { key: key, value: v }),
                    }
                }
            }
        }
    }
}

/// The exec counterpart of `LineParse`.
pub enum LineOut {
    Blank,
    Binding(HeaderEntry),
    Opener(String),
    Malformed,
}

impl View for LineOut {
    type V = LineParse;

    open spec fn view(&self) -> LineParse {
        match self {
            LineOut::Blank => LineParse::Blank,
            LineOut::Binding(e) => LineParse::Binding(e@),
            LineOut::Opener(k) => LineParse::Opener(k@),
            LineOut::Malformed => LineParse::Malformed,
        }
    }
}

fn parse_line(line: &str) -> (r: LineOut)
    ensures
        r@ == line_of(line@),
{
    let n = line.unicode_len();
    let a = skip_spaces_exec(line, 0);
    let b = rskip_spaces_exec(line, n);
    if a >= b {
        assert(trim(line@).len() == 0);
        return LineOut::Blank;
    }
    assert(trim(line@).len() != 0);
    let j = find_char(line, 0, ':');
    if j == n {
        return LineOut::Malformed;
    }
    let key = trim_str(line.substring_char(0, j));
    if key.as_str().is_empty() {
        return LineOut::Malformed;
    }
    let vtext = trim_str(line.substring_char(j + 1, n));
    if vtext.as_str().is_empty() {
        return LineOut::Opener(key);
    }
    match parse_value(vtext.as_str()) {
        Option::None => LineOut::Malformed,
        Option::Some(v) => LineOut::Binding(HeaderEntry { key: key, value: v }),
    }
}

/// Whether `line` is a delimiter line of three dashes.
pub open spec fn is_delim(line: Seq<char>) -> bool {
    line.len() == 3 && line[0] == '-' && line[1] == '-' && line[2] == '-'
}

/// Whether the line's trimmed text is a block-list item: a dash, a space,
/// and the item text. A delimiter line is never one.
pub open spec fn is_item_line(line: Seq<char>) -> bool {
    let t = trim(line);
    t.len() >= 2 && t[0] == '-' && t[1] == ' '
}

/// The scalar a block-list item line denotes: everything after the dash,
/// trimmed.
pub open spec fn item_of(line: Seq<char>) -> ScalarV {
    let t = trim(line);
    scalar_of(trim(t.subrange(2, t.len() as int)))
}

/// The items of a block-style list starting at line index `i`, together with
/// the index of the first line after it: the run of consecutive item lines.
pub open spec fn block_of(text: Seq<char>, i: int) -> (Seq<ScalarV>, int)
    decreases text.len() - i,
    when 0 <= i <= text.len()
    via block_of_decreases
{
    if i >= text.len() {
        (Seq::empty(), i)
    } else {
        let j = find_from(text, i, '\n');
        let line = text.subrange(i, line_end(text, i, j));
        if is_item_line(line) {
            let next = if j >= text.len() {
                text.len() as int
            } else {
                j + 1
            };
            let rest = block_of(text, next);
            (seq![item_of(line)] + rest.0, rest.1)
        } else {
            (Seq::empty(), i)
        }
    }
}

#[via_fn]
proof fn block_of_decreases(text: Seq<char>, i: int) {
    lemma_find_from(text, i, '\n');
}

proof fn lemma_block_of_bounds(text: Seq<char>, i: int)
    requires
        0 <= i <= text.len(),
    ensures
        i <= block_of(text, i).1 <= text.len(),
    decreases text.len() - i,
{
    if i < text.len() {
        lemma_find_from(text, i, '\n');
        let j = find_from(text, i, '\n');
        let line = text.subrange(i, line_end(text, i, j));
        if is_item_line(line) {
            let next = if j >= text.len() {
                text.len() as int
            } else {
                j + 1
            };
            lemma_block_of_bounds(text, next);
        }
    }
}

fn parse_block(text: &str, i: usize) -> (r: (Vec<HeaderScalar>, usize))
    requires
        i <= text@.len(),
    ensures
        r.0.deep_view() == block_of(text@, i as int).0,
        r.1 as int == block_of(text@, i as int).1,
        i <= r.1 <= text@.len(),
    decreases text@.len() - i,
{
    let n = text.unicode_len();
    if i == n {
        let empty: Vec<HeaderScalar> = Vec::new();
        assert(empty.deep_view() =~= Seq::<ScalarV>::empty());
        return (empty, i);
    }
    let j = find_char(text, i, '\n');
    let e = if j > i && text.get_char(j - 1) == '\r' {
        j - 1
    } else {
        j
    };
    assert(e as int == line_end(text@, i as int, j as int));
    let line = text.substring_char(i, e);
    let a = skip_spaces_exec(line, 0);
    let b = rskip_spaces_exec(line, line.unicode_len());
    if a <= b && b - a >= 2 && line.get_char(a) == '-' && line.get_char(a + 1) == ' ' {
        proof {
            assert(trim(line@) =~= line@.subrange(a as int, b as int));
            assert(is_item_line(line@));
        }
        let itext = trim_str(line.substring_char(a + 2, b));
        proof {
            assert(trim(line@).subrange(2, trim(line@).len() as int) =~= line@.subrange(
                a + 2,
                b as int,
            ));
            assert(itext@ == trim(trim(line@).subrange(2, trim(line@).len() as int)));
        }
        let item = parse_scalar(itext.as_str());
        assert(item@ == item_of(line@));
        let next = if j == n {
            n
        } else {
            j + 1
        };
        let p = parse_block(text, next);
        let (mut items, endi) = p;
        items.insert(0, item);
        assert(items.deep_view() =~= seq![item_of(line@)] + block_of(text@, next as int).0);
        (items, endi)
    } else {
        proof {
            if a <= b {
                assert(trim(line@) =~= line@.subrange(a as int, b as int));
            } else {
                assert(trim(line@) =~= Seq::<char>::empty());
            }
            assert(!is_item_line(line@));
        }
        let empty: Vec<HeaderScalar> = Vec::new();
        assert(empty.deep_view() =~= Seq::<ScalarV>::empty());
        (empty, i)
    }
}

/// Reads header lines from `i` up to the closing delimiter line. Returns the
/// bindings in order together with the index just past the delimiter's line
/// break (where the body starts), or `None` if a line is malformed or the
/// delimiter never comes. A binding with an empty value takes the run of
/// item lines that follows it as a block-style list, and stays an empty
/// string when there is none.
pub open spec fn lines_of(text: Seq<char>, i: int) -> Option<(Seq<EntryV>, int)>
    decreases text.len() - i,
    when 0 <= i <= text.len()
    via lines_of_decreases
{
    if i >= text.len() {
        None
    } else {
        let j = find_from(text, i, '\n');
        let line = text.subrange(i, line_end(text, i, j));
        let next = if j >= text.len() {
            text.len() as int
        } else {
            j + 1
        };
        if is_delim(line) {
            Some((Seq::empty(), next))
        } else {
            match line_of(line) {
                LineParse::Malformed => None,
                LineParse::Blank => lines_of(text, next),
                LineParse::Opener(key) => {
                    let blk = block_of(text, next);
                    let value = if blk.0.len() == 0 {
                        ValueV::Str(Seq::empty())
                    } else {
                        ValueV::Arr(blk.0)
                    };
                    match lines_of(text, blk.1) {
                        Option::None => None,
                        Option::Some(p) => Some(
                            (seq![EntryV { key: key, value: value }] + p.0, p.1),
                        ),
                    }
                },
                LineParse::Binding(e) => match lines_of(text, next) {
                    Option::None => None,
                    Option::Some(p) => Some((seq![e] + p.0, p.1)),
                },
            }
        }
    }
}

#[via_fn]
proof fn lines_of_decreases(text: Seq<char>, i: int) {
    lemma_find_from(text, i, '\n');
    if 0 <= i < text.len() {
        let j = find_from(text, i, '\n');
        let next = if j >= text.len() {
            text.len() as int
        } else {
            j + 1
        };
        lemma_block_of_bounds(text, next);
    }
}

fn parse_lines(text: &str, i: usize) -> (r: Option<(Vec<HeaderEntry>, usize)>)
    requires
        i <= text@.len(),
    ensures
        r is Some <==> lines_of(text@, i as int) is Some,
        r matches Some(p) ==> lines_of(text@, i as int) == Some((p.0.deep_view(), p.1 as int))
            && p.1 <= text@.len(),
    decreases text@.len() - i,
{
    let n = text.unicode_len();
    if i == n {
        return None;
    }
    let j = find_char(text, i, '\n');
    let e = if j > i && text.get_char(j - 1) == '\r' {
        j - 1
    } else {
        j
    };
    assert(e as int == line_end(text@, i as int, j as int));
    let next = if j == n {
        n
    } else {
        j + 1
    };
    let line = text.substring_char(i, e);
    if line.unicode_len() == 3 && line.get_char(0) == '-' && line.get_char(1) == '-'
        && line.get_char(2) == '-' {
        let empty: Vec<HeaderEntry> = Vec::new();
        assert(empty.deep_view() =~= Seq::<EntryV>::empty());
        return Some((empty, next));
    }
    assert(!is_delim(line@));
    match parse_line(line) {
        LineOut::Malformed => None,
        LineOut::Blank => parse_lines(text, next),
        LineOut::Opener(key) => {
            let p = parse_block(text, next);
            let (items, bend) = p;
            let value = if items.len() == 0 {
                assert(block_of(text@, next as int).0.len() == 0);
                let emptyv: String = String::new();
                HeaderValue::Str(emptyv)
            } else {
                HeaderValue::Arr(items)
            };
            let entry = HeaderEntry { key: key, value: value };
            match parse_lines(text, bend) {
                Option::None => None,
                Option::Some(q) => {
                    let (mut rest, b2) = q;
                    rest.insert(0, entry);
                    assert(rest.deep_view() =~= seq![entry@] + lines_of(
                        text@,
                        bend as int,
                    ).unwrap().0);
                    Some((rest, b2))
                },
            }
        },
        LineOut::Binding(e) => match parse_lines(text, next) {
            Option::None => None,
            Option::Some(p) => {
                let (mut rest, b) = p;
                rest.insert(0, e);
                assert(rest.deep_view() =~= seq![e@] + lines_of(
                    text@,
                    next as int,
                ).unwrap().0);
                Some((rest, b))
            },
        },
    }
}

/// The header bindings and the body of a note's raw text, or `None` when the
/// header block is absent or malformed. The text must open with a delimiter
/// line of three dashes; the body is everything after the closing delimiter
/// line.
pub open spec fn extract_spec(text: Seq<char>) -> Option<(Seq<EntryV>, Seq<char>)> {
    let j = find_from(text, 0, '\n');
    if j >= text.len() {
        None
    } else if is_delim(text.subrange(0, line_end(text, 0, j))) {
        match lines_of(text, j + 1) {
            Option::None => None,
            Option::Some(p) => Some((p.0, text.subrange(p.1, text.len() as int))),
        }
    } else {
        None
    }
}

/// Splits a note's raw text into its typed header and its body. Succeeds
/// exactly on the texts the header convention admits.
pub fn extract(text: &str) -> (r: Result<(Header, String), ParseError>)
    ensures
        r is Ok <==> extract_spec(text@) is Some,
        r matches Ok(p) ==> extract_spec(text@) == Some((p.0@, p.1@)),
{
    let n = text.unicode_len();
    let j = find_char(text, 0, '\n');
    if j == n {
        return Err(ParseError);
    }
    let e = if j > 0 && text.get_char(j - 1) == '\r' {
        j - 1
    } else {
        j
    };
    assert(e as int == line_end(text@, 0, j as int));
    let first = text.substring_char(0, e);
    if !(first.unicode_len() == 3 && first.get_char(0) == '-' && first.get_char(1) == '-'
        && first.get_char(2) == '-') {
        assert(!is_delim(first@));
        return Err(ParseError);
    }
    match parse_lines(text, j + 1) {
        Option::None => Err(ParseError),
        Option::Some(p) => {
            let (entries, b) = p;
            let body = text.substring_char(b, n).to_owned();
            Ok((Header { entries }, body))
        },
    }
}

// ---------------------------------------------------------------------------
// Lookup.
// ---------------------------------------------------------------------------
/// The value of the first binding of `key` in `h` at or after `i`, if any.
pub open spec fn lookup_from(h: Seq<EntryV>, key: Seq<char>, i: int) -> Option<ValueV>
    decreases h.len() - i,
    when 0 <= i <= h.len()
{
    if i >= h.len() {
        None
    } else if h[i].key == key {
        Some(h[i].value)
    } else {
        lookup_from(h, key, i + 1)
    }
}

/// The value bound to `key` in the header model `h`: its first binding.
pub open spec fn lookup(h: Seq<EntryV>, key: Seq<char>) -> Option<ValueV> {
    lookup_from(h, key, 0)
}

impl Header {
    fn get_from(&self, key: &String, i: usize) -> (r: Option<&HeaderValue>)
        requires
            i <= self@.len(),
        ensures
            r is Some <==> lookup_from(self@, key@, i as int) is Some,
            r matches Some(v) ==> lookup_from(self@, key@, i as int) == Some(v@),
        decreases self@.len() - i,
    {
        if i == self.entries.len() {
            None
        } else if self.entries[i].key == *key {
            Some(&self.entries[i].value)
        } else {
            self.get_from(key, i + 1)
        }
    }

    /// The value bound to `key`, reading the first binding if the key occurs
    /// more than once.
    pub fn get(&self, key: &String) -> (r: Option<&HeaderValue>)
        ensures
            r is Some <==> lookup(self@, key@) is Some,
            r matches Some(v) ==> lookup(self@, key@) == Some(v@),
    {
        self.get_from(key, 0)
    }
}

} // verus!
