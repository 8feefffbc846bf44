//! Character classes, text scanning, and the position tracker.
//!
//! Every scan below exists twice: a recursive `spec` function that defines the
//! stopping position mathematically, and an executable loop proved to compute
//! exactly that position.

use vstd::prelude::*;
use vstd::string::StrSliceExecFns;
use vstd::string::StringExecFns;

verus! {

/// True for the characters the script format treats as whitespace: the
/// Unicode `White_Space` set, which covers the ASCII blanks and line breaks.
pub open spec fn is_space(c: char) -> bool {
    c == ' ' || c == '\t' || c == '\n' || c == '\r' || c == '\u{B}' || c == '\u{C}'
        || c == '\u{85}' || c == '\u{A0}' || c == '\u{1680}' || c == '\u{2000}'
        || c == '\u{2001}' || c == '\u{2002}' || c == '\u{2003}' || c == '\u{2004}'
        || c == '\u{2005}' || c == '\u{2006}' || c == '\u{2007}' || c == '\u{2008}'
        || c == '\u{2009}' || c == '\u{200A}' || c == '\u{2028}' || c == '\u{2029}'
        || c == '\u{202F}' || c == '\u{205F}' || c == '\u{3000}'
}

/// Executable whitespace test.
pub fn is_space_char(c: char) -> (r: bool)
    ensures
        r == is_space(c),
{
    match c {
        ' ' | '\t' | '\n' | '\r' | '\u{B}' | '\u{C}' | '\u{85}' | '\u{A0}' | '\u{1680}'
            | '\u{2000}' | '\u{2001}' | '\u{2002}' | '\u{2003}' | '\u{2004}' | '\u{2005}'
            | '\u{2006}' | '\u{2007}' | '\u{2008}' | '\u{2009}' | '\u{200A}' | '\u{2028}'
            | '\u{2029}' | '\u{202F}' | '\u{205F}' | '\u{3000}' => true,
        _ => false,
    }
}

/// True for an ASCII letter, the only characters a directive name may hold.
pub open spec fn is_alpha(c: char) -> bool {
    (65 <= c as u32 && c as u32 <= 90) || (97 <= c as u32 && c as u32 <= 122)
}

/// Executable ASCII-letter test.
pub fn is_alpha_char(c: char) -> (r: bool)
    ensures
        r == is_alpha(c),
{
    let u = c as u32;
    (65 <= u && u <= 90) || (97 <= u && u <= 122)
}

/// First position at or after `pos` whose character is not whitespace, or the
/// end of the text.
pub open spec fn skip_ws(s: Seq<char>, pos: int) -> int
    decreases s.len() - pos,
{
    if pos < s.len() && is_space(s[pos]) {
        skip_ws(s, pos + 1)
    } else {
        pos
    }
}

/// First position at or after `pos` holding `]`, a line break, or the end of
/// the text: where a speaker name must stop.
pub open spec fn name_end(s: Seq<char>, pos: int) -> int
    decreases s.len() - pos,
{
    if pos < s.len() && !(s[pos] == ']' || s[pos] == '\n' || s[pos] == '\r') {
        name_end(s, pos + 1)
    } else {
        pos
    }
}

/// First position at or after `pos` whose character is not an ASCII letter:
/// the end of a directive name.
pub open spec fn alpha_end(s: Seq<char>, pos: int) -> int
    decreases s.len() - pos,
{
    if pos < s.len() && is_alpha(s[pos]) {
        alpha_end(s, pos + 1)
    } else {
        pos
    }
}

/// First position at or after `pos` holding `)` or a line break, or the end of
/// the text: where a directive's argument list must stop.
pub open spec fn args_end(s: Seq<char>, pos: int) -> int
    decreases s.len() - pos,
{
    if pos < s.len() && !(s[pos] == ')' || s[pos] == '\n' || s[pos] == '\r') {
        args_end(s, pos + 1)
    } else {
        pos
    }
}

/// First position at or after `pos` holding `\n`, or the end of the text.
pub open spec fn line_end(s: Seq<char>, pos: int) -> int
    decreases s.len() - pos,
{
    if pos < s.len() && s[pos] != '\n' {
        line_end(s, pos + 1)
    } else {
        pos
    }
}

/// First position in `pos .. hi` whose character is not whitespace, or `hi`
/// if there is none: where the next word of a dialogue body starts.
pub open spec fn word_start(s: Seq<char>, pos: int, hi: int) -> int
    decreases hi - pos,
{
    if pos < hi && pos < s.len() && is_space(s[pos]) {
        word_start(s, pos + 1, hi)
    } else {
        pos
    }
}

/// First position in `pos .. hi` whose character is whitespace, or `hi` if
/// there is none: where the current word of a dialogue body ends.
pub open spec fn word_end(s: Seq<char>, pos: int, hi: int) -> int
    decreases hi - pos,
{
    if pos < hi && pos < s.len() && !is_space(s[pos]) {
        word_end(s, pos + 1, hi)
    } else {
        pos
    }
}

/// A word-start scan stays within its bounds, and where it stops short of
/// them the character there is not whitespace.
pub proof fn lemma_word_start_props(s: Seq<char>, pos: int, hi: int)
    requires
        pos <= hi,
    ensures
        pos <= word_start(s, pos, hi) <= hi,
        word_start(s, pos, hi) < hi && word_start(s, pos, hi) < s.len() ==> !is_space(
            s[word_start(s, pos, hi)],
        ),
    decreases hi - pos,
{
    if pos < hi && pos < s.len() && is_space(s[pos]) {
        lemma_word_start_props(s, pos + 1, hi);
    }
}

/// A word-end scan stays within its bounds.
pub proof fn lemma_word_end_ge(s: Seq<char>, pos: int, hi: int)
    requires
        pos <= hi,
    ensures
        pos <= word_end(s, pos, hi) <= hi,
    decreases hi - pos,
{
    if pos < hi && pos < s.len() && !is_space(s[pos]) {
        lemma_word_end_ge(s, pos + 1, hi);
    }
}

/// Where a dialogue body stops: the first `\n` at or after `pos` that is
/// immediately followed by `@` or `#`, or the end of the text.
pub open spec fn body_end(s: Seq<char>, pos: int) -> int
    decreases s.len() - pos,
{
    if pos < s.len() {
        if s[pos] == '\n' && pos + 1 < s.len() && (s[pos + 1] == '@' || s[pos + 1] == '#') {
            pos
        } else {
            body_end(s, pos + 1)
        }
    } else {
        pos
    }
}

/// First position in `pos .. hi` holding `,`, or `hi` if there is none.
pub open spec fn comma_end(s: Seq<char>, pos: int, hi: int) -> int
    decreases hi - pos,
{
    if pos < hi && pos < s.len() && s[pos] != ',' {
        comma_end(s, pos + 1, hi)
    } else {
        pos
    }
}

/// A whitespace scan stays within the text and never moves backwards.
pub proof fn lemma_skip_ws_bounds(s: Seq<char>, pos: int)
    requires
        0 <= pos <= s.len(),
    ensures
        pos <= skip_ws(s, pos) <= s.len(),
    decreases s.len() - pos,
{
    if pos < s.len() && is_space(s[pos]) {
        lemma_skip_ws_bounds(s, pos + 1);
    }
}

/// A name scan stays within the text and never moves backwards.
pub proof fn lemma_name_end_bounds(s: Seq<char>, pos: int)
    requires
        0 <= pos <= s.len(),
    ensures
        pos <= name_end(s, pos) <= s.len(),
    decreases s.len() - pos,
{
    if pos < s.len() && !(s[pos] == ']' || s[pos] == '\n' || s[pos] == '\r') {
        lemma_name_end_bounds(s, pos + 1);
    }
}

/// A letter scan stays within the text and never moves backwards.
pub proof fn lemma_alpha_end_bounds(s: Seq<char>, pos: int)
    requires
        0 <= pos <= s.len(),
    ensures
        pos <= alpha_end(s, pos) <= s.len(),
    decreases s.len() - pos,
{
    if pos < s.len() && is_alpha(s[pos]) {
        lemma_alpha_end_bounds(s, pos + 1);
    }
}

/// An argument scan stays within the text and never moves backwards.
pub proof fn lemma_args_end_bounds(s: Seq<char>, pos: int)
    requires
        0 <= pos <= s.len(),
    ensures
        pos <= args_end(s, pos) <= s.len(),
    decreases s.len() - pos,
{
    if pos < s.len() && !(s[pos] == ')' || s[pos] == '\n' || s[pos] == '\r') {
        lemma_args_end_bounds(s, pos + 1);
    }
}

/// A line scan stays within the text and never moves backwards.
pub proof fn lemma_line_end_bounds(s: Seq<char>, pos: int)
    requires
        0 <= pos <= s.len(),
    ensures
        pos <= line_end(s, pos) <= s.len(),
    decreases s.len() - pos,
{
    if pos < s.len() && s[pos] != '\n' {
        lemma_line_end_bounds(s, pos + 1);
    }
}

/// A body scan stays within the text and never moves backwards.
pub proof fn lemma_body_end_bounds(s: Seq<char>, pos: int)
    requires
        0 <= pos <= s.len(),
    ensures
        pos <= body_end(s, pos) <= s.len(),
    decreases s.len() - pos,
{
    if pos < s.len() && !(s[pos] == '\n' && pos + 1 < s.len() && (s[pos + 1] == '@' || s[pos + 1]
        == '#')) {
        lemma_body_end_bounds(s, pos + 1);
    }
}

/// The sequence with its leading whitespace removed.
pub open spec fn trim_front(s: Seq<char>) -> Seq<char>
    decreases s.len(),
{
    if s.len() > 0 && is_space(s[0]) {
        trim_front(s.subrange(1, s.len() as int))
    } else {
        s
    }
}

/// The sequence with its trailing whitespace removed.
pub open spec fn trim_back(s: Seq<char>) -> Seq<char>
    decreases s.len(),
{
    if s.len() > 0 && is_space(s[s.len() - 1]) {
        trim_back(s.subrange(0, s.len() - 1))
    } else {
        s
    }
}

/// The sequence with whitespace removed from both ends.
pub open spec fn trim_value(s: Seq<char>) -> Seq<char> {
    trim_back(trim_front(s))
}

/// A body scan stops only at the end of the text or on a line break that
/// begins a directive or comment line.
pub proof fn lemma_body_end_boundary(s: Seq<char>, pos: int)
    requires
        0 <= pos <= s.len(),
    ensures
        body_end(s, pos) == s.len() || ({
            let b = body_end(s, pos);
            s[b] == '\n' && b + 1 < s.len() && (s[b + 1] == '@' || s[b + 1] == '#')
        }),
    decreases s.len() - pos,
{
    if pos < s.len() && !(s[pos] == '\n' && pos + 1 < s.len() && (s[pos + 1] == '@' || s[pos + 1]
        == '#')) {
        lemma_body_end_boundary(s, pos + 1);
    }
}

/// A trimmed sequence does not start with whitespace.
pub proof fn lemma_trim_front_no_leading(s: Seq<char>)
    ensures
        trim_front(s).len() == 0 || !is_space(trim_front(s)[0]),
    decreases s.len(),
{
    if s.len() > 0 && is_space(s[0]) {
        lemma_trim_front_no_leading(s.subrange(1, s.len() as int));
    }
}

/// A trimmed sequence does not end with whitespace.
pub proof fn lemma_trim_back_no_trailing(s: Seq<char>)
    ensures
        trim_back(s).len() == 0 || !is_space(trim_back(s).last()),
    decreases s.len(),
{
    if s.len() > 0 && is_space(s[s.len() - 1]) {
        lemma_trim_back_no_trailing(s.subrange(0, s.len() - 1));
    }
}

/// Trimming the back leaves the first character alone.
pub proof fn lemma_trim_back_keeps_head(s: Seq<char>)
    ensures
        trim_back(s).len() > 0 ==> trim_back(s)[0] == s[0],
    decreases s.len(),
{
    if s.len() > 0 && is_space(s[s.len() - 1]) {
        lemma_trim_back_keeps_head(s.subrange(0, s.len() - 1));
    }
}

/// Trimming is idempotent: a trimmed sequence trims to itself.
pub proof fn lemma_trim_idempotent(s: Seq<char>)
    ensures
        trim_value(trim_value(s)) == trim_value(s),
{
    let u = trim_front(s);
    let t = trim_back(u);
    lemma_trim_front_no_leading(s);
    lemma_trim_back_keeps_head(u);
    lemma_trim_back_no_trailing(u);
    assert(trim_front(t) == t);
    assert(trim_back(t) == t);
}

/// Every field the splitter produces is already trimmed: trimming it again
/// changes nothing.
pub proof fn lemma_split_fields_trimmed(s: Seq<char>, lo: int, hi: int)
    ensures
        forall|i: int|
            0 <= i < split_fields(s, lo, hi).len() ==> #[trigger] split_fields(s, lo, hi)[i]
                == trim_value(split_fields(s, lo, hi)[i]),
    decreases hi - lo,
{
    lemma_comma_end_ge(s, lo, hi);
    let c = comma_end(s, lo, hi);
    if c < hi {
        lemma_trim_idempotent(s.subrange(lo, c));
        lemma_split_fields_trimmed(s, c + 1, hi);
        let f = split_fields(s, lo, hi);
        let rest = split_fields(s, c + 1, hi);
        assert(f[0] == trim_value(s.subrange(lo, c)));
        assert(forall|i: int| 1 <= i < f.len() ==> f[i] == #[trigger] rest[i - 1]);
    } else {
        lemma_trim_idempotent(s.subrange(lo, hi));
        assert(split_fields(s, lo, hi)[0] == trim_value(s.subrange(lo, hi)));
    }
}

/// Every argument the splitter hands to the directive registry is trimmed,
/// so the choice labels and path of a parsed jump are exactly the trimmed
/// argument texts.
pub proof fn lemma_split_args_trimmed(s: Seq<char>, lo: int, hi: int)
    ensures
        forall|i: int|
            0 <= i < spec_split_args(s, lo, hi).len() ==> #[trigger] spec_split_args(s, lo, hi)[i]
                == trim_value(spec_split_args(s, lo, hi)[i]),
{
    lemma_split_fields_trimmed(s, lo, hi);
}

/// The normal form of the text in `pos .. hi`: its whitespace-separated
/// words rejoined with single spaces. Whitespace runs — line breaks
/// included — carry no meaning inside a dialogue body.
pub open spec fn norm_range(s: Seq<char>, pos: int, hi: int) -> Seq<char>
    decreases hi - pos,
    via norm_range_decreases
{
    let a = word_start(s, pos, hi);
    if a < hi && a < s.len() {
        let b = word_end(s, a, hi);
        let rest = norm_range(s, b, hi);
        if rest.len() == 0 {
            s.subrange(a, b)
        } else {
            s.subrange(a, b) + seq![' '] + rest
        }
    } else {
        Seq::<char>::empty()
    }
}

#[via_fn]
proof fn norm_range_decreases(s: Seq<char>, pos: int, hi: int) {
    if pos <= hi {
        lemma_word_start_props(s, pos, hi);
        let a = word_start(s, pos, hi);
        if a < hi && a < s.len() {
            assert(!is_space(s[a]));
            assert(word_end(s, a, hi) == word_end(s, a + 1, hi));
            lemma_word_end_ge(s, a + 1, hi);
        }
    }
}

/// A comma scan never moves backwards.
pub proof fn lemma_comma_end_ge(s: Seq<char>, pos: int, hi: int)
    ensures
        comma_end(s, pos, hi) >= pos,
    decreases hi - pos,
{
    if pos < hi && pos < s.len() && s[pos] != ',' {
        lemma_comma_end_ge(s, pos + 1, hi);
    }
}

/// The comma-separated fields of `s` in `lo .. hi`, each trimmed.
pub open spec fn split_fields(s: Seq<char>, lo: int, hi: int) -> Seq<Seq<char>>
    decreases hi - lo,
    via split_fields_decreases
{
    let c = comma_end(s, lo, hi);
    if c < hi {
        seq![trim_value(s.subrange(lo, c))] + split_fields(s, c + 1, hi)
    } else {
        seq![trim_value(s.subrange(lo, hi))]
    }
}

#[via_fn]
proof fn split_fields_decreases(s: Seq<char>, lo: int, hi: int) {
    lemma_comma_end_ge(s, lo, hi);
}

/// The argument list denoted by the raw text in `lo .. hi`: empty when the
/// text is empty, otherwise its trimmed comma-separated fields.
pub open spec fn spec_split_args(s: Seq<char>, lo: int, hi: int) -> Seq<Seq<char>> {
    if lo == hi {
        Seq::<Seq<char>>::empty()
    } else {
        split_fields(s, lo, hi)
    }
}

/// How many `\n` characters precede `pos`.
pub open spec fn count_nl(s: Seq<char>, pos: int) -> int
    decreases pos,
{
    if pos <= 0 {
        0
    } else {
        count_nl(s, pos - 1) + if 0 < pos <= s.len() && s[pos - 1] == '\n' {
            1int
        } else {
            0int
        }
    }
}

/// Where the line holding position `pos` starts: the position just after the
/// last line break before `pos`, or the start of the text.
pub open spec fn line_start(s: Seq<char>, pos: int) -> int
    decreases pos,
{
    if pos <= 0 {
        0
    } else if 0 < pos <= s.len() && s[pos - 1] == '\n' {
        pos
    } else {
        line_start(s, pos - 1)
    }
}

/// The (line, column) pair of the read position `pos`, both counted from
/// one: the line is one more than the number of line breaks before `pos`,
/// and the column is the distance from the start of the current line.
pub open spec fn line_col(s: Seq<char>, pos: int) -> (int, int) {
    (count_nl(s, pos) + 1, pos - line_start(s, pos) + 1)
}

/// Executable form of `skip_ws`.
pub fn skip_ws_at(text: &str, pos: usize) -> (r: usize)
    requires
        pos as int <= text@.len(),
    ensures
        r as int == skip_ws(text@, pos as int),
        pos <= r,
        r as int <= text@.len(),
{
    let n = text.unicode_len();
    let mut i = pos;
    while i < n && is_space_char(text.get_char(i))
        invariant
            pos <= i,
            i as int <= text@.len(),
            n as int == text@.len(),
            skip_ws(text@, pos as int) == skip_ws(text@, i as int),
        decreases n - i,
    {
        i = i + 1;
    }
    i
}

/// Executable form of `name_end`.
pub fn name_end_at(text: &str, pos: usize) -> (r: usize)
    requires
        pos as int <= text@.len(),
    ensures
        r as int == name_end(text@, pos as int),
        pos <= r,
        r as int <= text@.len(),
{
    let n = text.unicode_len();
    let mut i = pos;
    loop
        invariant
            pos <= i,
            i as int <= text@.len(),
            n as int == text@.len(),
            name_end(text@, pos as int) == name_end(text@, i as int),
        ensures
            i as int == name_end(text@, pos as int),
            pos <= i,
            i as int <= text@.len(),
        decreases n - i,
    {
        if i >= n {
            break ;
        }
        let c = text.get_char(i);
        if c == ']' || c == '\n' || c == '\r' {
            break ;
        }
        i = i + 1;
    }
    i
}

/// Executable form of `alpha_end`.
pub fn alpha_end_at(text: &str, pos: usize) -> (r: usize)
    requires
        pos as int <= text@.len(),
    ensures
        r as int == alpha_end(text@, pos as int),
        pos <= r,
        r as int <= text@.len(),
{
    let n = text.unicode_len();
    let mut i = pos;
    while i < n && is_alpha_char(text.get_char(i))
        invariant
            pos <= i,
            i as int <= text@.len(),
            n as int == text@.len(),
            alpha_end(text@, pos as int) == alpha_end(text@, i as int),
        decreases n - i,
    {
        i = i + 1;
    }
    i
}

/// Executable form of `args_end`.
pub fn args_end_at(text: &str, pos: usize) -> (r: usize)
    requires
        pos as int <= text@.len(),
    ensures
        r as int == args_end(text@, pos as int),
        pos <= r,
        r as int <= text@.len(),
{
    let n = text.unicode_len();
    let mut i = pos;
    loop
        invariant
            pos <= i,
            i as int <= text@.len(),
            n as int == text@.len(),
            args_end(text@, pos as int) == args_end(text@, i as int),
        ensures
            i as int == args_end(text@, pos as int),
            pos <= i,
            i as int <= text@.len(),
        decreases n - i,
    {
        if i >= n {
            break ;
        }
        let c = text.get_char(i);
        if c == ')' || c == '\n' || c == '\r' {
            break ;
        }
        i = i + 1;
    }
    i
}

/// Executable form of `line_end`.
pub fn line_end_at(text: &str, pos: usize) -> (r: usize)
    requires
        pos as int <= text@.len(),
    ensures
        r as int == line_end(text@, pos as int),
        pos <= r,
        r as int <= text@.len(),
{
    let n = text.unicode_len();
    let mut i = pos;
    while i < n && text.get_char(i) != '\n'
        invariant
            pos <= i,
            i as int <= text@.len(),
            n as int == text@.len(),
            line_end(text@, pos as int) == line_end(text@, i as int),
        decreases n - i,
    {
        i = i + 1;
    }
    i
}

/// Executable form of `word_start`.
pub fn word_start_at(text: &str, pos: usize, hi: usize) -> (r: usize)
    requires
        pos <= hi,
        hi as int <= text@.len(),
    ensures
        r as int == word_start(text@, pos as int, hi as int),
        pos <= r,
        r <= hi,
{
    let mut i = pos;
    loop
        invariant
            pos <= i,
            i <= hi,
            hi as int <= text@.len(),
            word_start(text@, pos as int, hi as int) == word_start(text@, i as int, hi as int),
        ensures
            i as int == word_start(text@, pos as int, hi as int),
            pos <= i,
            i <= hi,
        decreases hi - i,
    {
        if i >= hi {
            break ;
        }
        if !is_space_char(text.get_char(i)) {
            break ;
        }
        i = i + 1;
    }
    i
}

/// Executable form of `word_end`.
pub fn word_end_at(text: &str, pos: usize, hi: usize) -> (r: usize)
    requires
        pos <= hi,
        hi as int <= text@.len(),
    ensures
        r as int == word_end(text@, pos as int, hi as int),
        pos <= r,
        r <= hi,
{
    let mut i = pos;
    loop
        invariant
            pos <= i,
            i <= hi,
            hi as int <= text@.len(),
            word_end(text@, pos as int, hi as int) == word_end(text@, i as int, hi as int),
        ensures
            i as int == word_end(text@, pos as int, hi as int),
            pos <= i,
            i <= hi,
        decreases hi - i,
    {
        if i >= hi {
            break ;
        }
        if is_space_char(text.get_char(i)) {
            break ;
        }
        i = i + 1;
    }
    i
}

/// Executable form of `body_end`.
pub fn body_end_at(text: &str, pos: usize) -> (r: usize)
    requires
        pos as int <= text@.len(),
    ensures
        r as int == body_end(text@, pos as int),
        pos <= r,
        r as int <= text@.len(),
{
    let n = text.unicode_len();
    let mut i = pos;
    loop
        invariant
            pos <= i,
            i as int <= text@.len(),
            n as int == text@.len(),
            body_end(text@, pos as int) == body_end(text@, i as int),
        ensures
            i as int == body_end(text@, pos as int),
            pos <= i,
            i as int <= text@.len(),
        decreases n - i,
    {
        if i >= n {
            break ;
        }
        let c = text.get_char(i);
        if c == '\n' && i + 1 < n {
            let c2 = text.get_char(i + 1);
            if c2 == '@' || c2 == '#' {
                break ;
            }
        }
        i = i + 1;
    }
    i
}

/// Executable form of `comma_end`.
pub fn comma_end_at(text: &str, pos: usize, hi: usize) -> (r: usize)
    requires
        pos <= hi,
        hi as int <= text@.len(),
    ensures
        r as int == comma_end(text@, pos as int, hi as int),
        pos <= r,
        r <= hi,
{
    let mut i = pos;
    loop
        invariant
            pos <= i,
            i <= hi,
            hi as int <= text@.len(),
            comma_end(text@, pos as int, hi as int) == comma_end(text@, i as int, hi as int),
        ensures
            i as int == comma_end(text@, pos as int, hi as int),
            pos <= i,
            i <= hi,
        decreases hi - i,
    {
        if i >= hi {
            break ;
        }
        let c = text.get_char(i);
        if c == ',' {
            break ;
        }
        i = i + 1;
    }
    i
}

/// `trim_front` removes exactly the leading whitespace run: if the first `k`
/// characters are whitespace and the next one is not, what remains is the
/// suffix from `k`.
pub proof fn lemma_trim_front_exact(s: Seq<char>, k: int)
    requires
        0 <= k <= s.len(),
        forall|i: int| 0 <= i < k ==> is_space(s[i]),
        k == s.len() || !is_space(s[k]),
    ensures
        trim_front(s) == s.subrange(k, s.len() as int),
    decreases k,
{
    if k == 0 {
        assert(s.subrange(0, s.len() as int) =~= s);
    } else {
        let t = s.subrange(1, s.len() as int);
        assert(forall|i: int| 0 <= i < k - 1 ==> is_space(#[trigger] t[i]));
        lemma_trim_front_exact(t, k - 1);
        assert(t.subrange(k - 1, t.len() as int) =~= s.subrange(k, s.len() as int));
    }
}

/// `trim_back` removes exactly the trailing whitespace run: if everything from
/// `k` on is whitespace and the character before `k` is not, what remains is
/// the prefix up to `k`.
pub proof fn lemma_trim_back_exact(s: Seq<char>, k: int)
    requires
        0 <= k <= s.len(),
        forall|i: int| k <= i < s.len() ==> is_space(s[i]),
        k == 0 || !is_space(s[k - 1]),
    ensures
        trim_back(s) == s.subrange(0, k),
    decreases s.len() - k,
{
    if k == s.len() {
        assert(s.subrange(0, s.len() as int) =~= s);
    } else {
        let t = s.subrange(0, s.len() - 1);
        assert(forall|i: int| k <= i < t.len() ==> is_space(#[trigger] t[i]));
        lemma_trim_back_exact(t, k);
        assert(t.subrange(0, k) =~= s.subrange(0, k));
    }
}

/// The trimmed text of the region `lo .. hi`, as a fresh string.
pub fn trim_region(text: &str, lo: usize, hi: usize) -> (r: String)
    requires
        lo <= hi,
        hi as int <= text@.len(),
    ensures
        r@ == trim_value(text@.subrange(lo as int, hi as int)),
{
    let mut a = lo;
    while a < hi && is_space_char(text.get_char(a))
        invariant
            lo <= a <= hi,
            hi as int <= text@.len(),
            forall|j: int| lo <= j < a ==> is_space(#[trigger] text@[j]),
        decreases hi - a,
    {
        a = a + 1;
    }
    let mut b = hi;
    while b > a && is_space_char(text.get_char(b - 1))
        invariant
            a <= b <= hi,
            hi as int <= text@.len(),
            forall|j: int| b <= j < hi ==> is_space(#[trigger] text@[j]),
        decreases b,
    {
        b = b - 1;
    }
    proof {
        let sub = text@.subrange(lo as int, hi as int);
        assert(forall|i: int| 0 <= i < a - lo ==> is_space(#[trigger] sub[i]));
        lemma_trim_front_exact(sub, a as int - lo as int);
        assert(sub.subrange(a as int - lo as int, sub.len() as int) =~= text@.subrange(
            a as int,
            hi as int,
        ));
        let mid = text@.subrange(a as int, hi as int);
        assert(forall|i: int| b - a <= i < mid.len() ==> is_space(#[trigger] mid[i]));
        lemma_trim_back_exact(mid, b as int - a as int);
        assert(mid.subrange(0, b as int - a as int) =~= text@.subrange(a as int, b as int));
    }
    String::from_str(text.substring_char(a, b))
}

/// The whitespace-separated words of the region `lo .. hi`, rejoined with
/// single spaces, as a fresh string.
pub fn normalized_region(text: &str, lo: usize, hi: usize) -> (r: String)
    requires
        lo <= hi,
        hi as int <= text@.len(),
    ensures
        r@ == norm_range(text@, lo as int, hi as int),
    decreases hi - lo,
{
    let a = word_start_at(text, lo, hi);
    if a >= hi {
        return String::new();
    }
    let b = word_end_at(text, a, hi);
    proof {
        lemma_word_start_props(text@, lo as int, hi as int);
        lemma_word_end_ge(text@, a as int + 1, hi as int);
        assert(word_end(text@, a as int, hi as int) == word_end(text@, a as int + 1, hi as int));
    }
    let mut out = String::from_str(text.substring_char(a, b));
    let rest = normalized_region(text, b, hi);
    if rest.as_str().is_empty() {
        out
    } else {
        proof {
            reveal_strlit(" ");
            assert(" "@ =~= seq![' ']);
        }
        out.append(" ");
        out.append(rest.as_str());
        out
    }
}

/// The trimmed comma-separated fields of the region `lo .. hi`, in order; an
/// empty region denotes an empty argument list.
pub fn split_args(text: &str, lo: usize, hi: usize) -> (r: Vec<String>)
    requires
        lo <= hi,
        hi as int <= text@.len(),
    ensures
        r.deep_view() == spec_split_args(text@, lo as int, hi as int),
{
    let mut out: Vec<String> = Vec::new();
    if lo == hi {
        proof {
            assert(out.deep_view() =~= Seq::<Seq<char>>::empty());
        }
        return out;
    }
    let mut p = lo;
    loop
        invariant_except_break
            split_fields(text@, lo as int, hi as int) == out.deep_view() + split_fields(
                text@,
                p as int,
                hi as int,
            ),
        invariant
            lo <= p <= hi,
            hi as int <= text@.len(),
        ensures
            out.deep_view() == split_fields(text@, lo as int, hi as int),
        decreases hi - p,
    {
        let ghost old_dv = out.deep_view();
        let c = comma_end_at(text, p, hi);
        let piece = trim_region(text, p, c);
        out.push(piece);
        proof {
            assert(out.deep_view() =~= old_dv.push(piece@));
            if c < hi {
                assert(old_dv + split_fields(text@, p as int, hi as int) =~= old_dv.push(piece@)
                    + split_fields(text@, c as int + 1, hi as int));
            } else {
                assert(old_dv + split_fields(text@, p as int, hi as int) =~= old_dv.push(piece@));
            }
        }
        if c < hi {
            p = c + 1;
        } else {
            break ;
        }
    }
    proof {
        assert(out.deep_view() =~= split_fields(text@, lo as int, hi as int));
    }
    out
}

/// Whether two text slices hold the same characters.
pub fn str_eq(a: &str, b: &str) -> (r: bool)
    ensures
        r == (a@ == b@),
{
    let n = a.unicode_len();
    let m = b.unicode_len();
    if n != m {
        proof {
            if a@ == b@ {
                assert(a@.len() == b@.len());
            }
        }
        return false;
    }
    let mut i: usize = 0;
    while i < n
        invariant
            0 <= i <= n,
            n as int == a@.len(),
            n as int == b@.len(),
            forall|j: int| 0 <= j < i ==> a@[j] == b@[j],
        decreases n - i,
    {
        if a.get_char(i) != b.get_char(i) {
            proof {
                if a@ == b@ {
                    assert(a@[i as int] == b@[i as int]);
                }
            }
            return false;
        }
        i = i + 1;
    }
    proof {
        assert(a@ =~= b@);
    }
    true
}

/// The diagnostic position of the read offset `pos` in `text`: a one-based
/// (line, column) pair.
pub fn line_chars(text: &str, pos: usize) -> (r: (usize, usize))
    requires
        pos as int <= text@.len(),
        text@.len() < usize::MAX,
    ensures
        r.0 as int == line_col(text@, pos as int).0,
        r.1 as int == line_col(text@, pos as int).1,
{
    let mut lines: usize = 1;
    let mut start: usize = 0;
    let mut i: usize = 0;
    while i < pos
        invariant
            0 <= i <= pos,
            pos as int <= text@.len(),
            text@.len() < usize::MAX,
            lines as int == count_nl(text@, i as int) + 1,
            lines <= i + 1,
            start as int == line_start(text@, i as int),
            start <= i,
        decreases pos - i,
    {
        if text.get_char(i) == '\n' {
            lines = lines + 1;
            start = i + 1;
        }
        i = i + 1;
    }
    (lines, pos - start + 1)
}

} // verus!
