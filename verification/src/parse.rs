//! The element parsers and the script cursor.
//!
//! A script is an immutable text buffer with a movable read position. One
//! parse step trims leading whitespace and dispatches on the first character:
//! `[` opens a dialogue block, `@` a directive, `#` a comment line; anything
//! else — including the end of the text — terminates the element sequence.
//! The spec function `spec_step` defines the outcome of one step, and every
//! executable step is proved to produce exactly that outcome.

use vstd::prelude::*;
use vstd::string::StrSliceExecFns;

use crate::directive::spec_jump_parse;
use crate::directive::spec_loadbg_parse;
use crate::directive::Jump;
use crate::directive::JumpModel;
use crate::directive::LoadBG;
use crate::directive::LoadBgModel;
use crate::error::DirErrModel;
use crate::error::DirectiveError;
use crate::error::EngineError;
use crate::error::ErrModel;
use crate::util::alpha_end;
use crate::util::alpha_end_at;
use crate::util::args_end;
use crate::util::args_end_at;
use crate::util::body_end;
use crate::util::body_end_at;
use crate::util::line_col;
use crate::util::line_end;
use crate::util::line_end_at;
use crate::util::name_end;
use crate::util::name_end_at;
use crate::util::normalized_region;
use crate::util::skip_ws;
use crate::util::skip_ws_at;
use crate::util::spec_split_args;
use crate::util::split_args;
use crate::util::norm_range;
use crate::util::trim_region;
use crate::util::trim_value;

verus! {

/// One parsed element of a script.
#[derive(Debug, Clone, PartialEq, Eq)]
pub enum Context {
    Dialogue(Dialogue),
    Directive(Directive),
    Comment,
}

/// A block of narrative text attributed to a speaker.
#[derive(Debug, Clone, PartialEq, Eq)]
pub struct Dialogue {
    pub name: String,
    pub dialogue: String,
}

/// A resolved directive.
#[derive(Debug, Clone, PartialEq, Eq)]
pub enum Directive {
    Jump(Jump),
    LoadBG(LoadBG),
}

/// The view of a `Dialogue`.
pub struct DialogueModel {
    pub name: Seq<char>,
    pub dialogue: Seq<char>,
}

/// The view of a `Directive`.
pub enum DirectiveModel {
    Jump(JumpModel),
    LoadBG(LoadBgModel),
}

/// The view of a `Context`.
pub enum ContextModel {
    Dialogue(DialogueModel),
    Directive(DirectiveModel),
    Comment,
}

impl View for Dialogue {
    type V = DialogueModel;

    open spec fn view(&self) -> DialogueModel {
        DialogueModel { name: self.name@, dialogue: self.dialogue@ }
    }
}

impl View for Directive {
    type V = DirectiveModel;

    open spec fn view(&self) -> DirectiveModel {
        match self {
            Directive::Jump(j) => DirectiveModel::Jump(j@),
            Directive::LoadBG(d) => DirectiveModel::LoadBG(d@),
        }
    }
}

impl View for Context {
    type V = ContextModel;

    open spec fn view(&self) -> ContextModel {
        match self {
            Context::Dialogue(d) => ContextModel::Dialogue(d@),
            Context::Directive(d) => ContextModel::Directive(d@),
            Context::Comment => ContextModel::Comment,
        }
    }
}

/// The outcome of one parse step: an element with the position just past it,
/// a parse failure, or the end of the element sequence.
pub enum StepModel {
    Item { at: int, ctx: ContextModel },
    Fail(ErrModel),
    Done,
}

/// What the registry resolves a directive name and argument list to: the
/// kinds are tried in a fixed order, each gated on its canonical name first,
/// and a name no kind carries is an unknown-directive error holding that
/// exact name.
pub open spec fn spec_resolve(name: Seq<char>, args: Seq<Seq<char>>) -> Result<
    DirectiveModel,
    DirErrModel,
> {
    if name == "jump"@ {
        match spec_jump_parse(args) {
            Ok(j) => Ok(DirectiveModel::Jump(j)),
            Err(e) => Err(e),
        }
    } else if name == "loadbg"@ {
        match spec_loadbg_parse(args) {
            Ok(d) => Ok(DirectiveModel::LoadBG(d)),
            Err(e) => Err(e),
        }
    } else {
        Err(DirErrModel::Unknown { name })
    }
}

/// The outcome of parsing a dialogue block that opens with `[` at `p`: the
/// name is the trimmed text up to the matching `]`, which must come before a
/// line break; the body runs to the next line that begins a directive or
/// comment marker and is stored with its whitespace-separated words rejoined
/// by single spaces.
pub open spec fn spec_dialogue(s: Seq<char>, p: int) -> StepModel {
    let ne = name_end(s, p + 1);
    if ne < s.len() && s[ne] == ']' {
        let be = body_end(s, ne + 1);
        StepModel::Item {
            at: be,
            ctx: ContextModel::Dialogue(
                DialogueModel {
                    name: trim_value(s.subrange(p + 1, ne)),
                    dialogue: norm_range(s, ne + 1, be),
                },
            ),
        }
    } else {
        StepModel::Fail(ErrModel::Malformed { at: ne, expected: ']' })
    }
}

/// The outcome of parsing a directive that opens with `@` at `p`: a
/// non-empty alphabetic name up to `(`, a comma-separated argument list up to
/// `)` on the same line, and whatever the registry resolves them to.
pub open spec fn spec_directive(s: Seq<char>, p: int) -> StepModel {
    let ae = alpha_end(s, p + 1);
    if ae < s.len() && s[ae] == '(' && ae > p + 1 {
        let ce = args_end(s, ae + 1);
        if ce < s.len() && s[ce] == ')' {
            match spec_resolve(s.subrange(p + 1, ae), spec_split_args(s, ae + 1, ce)) {
                Ok(d) => StepModel::Item { at: ce + 1, ctx: ContextModel::Directive(d) },
                Err(e) => StepModel::Fail(ErrModel::Directive(e)),
            }
        } else {
            StepModel::Fail(ErrModel::Malformed { at: ce, expected: ')' })
        }
    } else {
        StepModel::Fail(ErrModel::Malformed { at: ae, expected: '(' })
    }
}

/// The outcome of one parse step from position `pos`.
pub open spec fn spec_step(s: Seq<char>, pos: int) -> StepModel {
    let p = skip_ws(s, pos);
    if p < s.len() && s[p] == '[' {
        spec_dialogue(s, p)
    } else if p < s.len() && s[p] == '@' {
        spec_directive(s, p)
    } else if p < s.len() && s[p] == '#' {
        let e = line_end(s, p);
        StepModel::Item {
            at: if e < s.len() {
                e + 1
            } else {
                e
            },
            ctx: ContextModel::Comment,
        }
    } else {
        StepModel::Done
    }
}

/// Whether an advancing step from `pos` that ended at `new_pos` with result
/// `r` reports exactly the outcome `spec_step` defines: an element moves the
/// position just past it, while a failure or the end of the sequence leaves
/// the position alone.
pub open spec fn step_matches(
    s: Seq<char>,
    pos: int,
    new_pos: int,
    r: Option<Result<Context, EngineError>>,
) -> bool {
    match spec_step(s, pos) {
        StepModel::Item { at, ctx } => new_pos == at && (r matches Some(Ok(c)) && c@ == ctx),
        StepModel::Fail(e) => new_pos == pos && (r matches Some(Err(err)) && err@ == e),
        StepModel::Done => new_pos == pos && r is None,
    }
}

/// Whether a non-advancing look at position `pos` with result `r` reports
/// exactly the outcome `spec_step` defines.
pub open spec fn peek_matches(
    s: Seq<char>,
    pos: int,
    r: Option<Result<Context, EngineError>>,
) -> bool {
    match spec_step(s, pos) {
        StepModel::Item { at, ctx } => r matches Some(Ok(c)) && c@ == ctx,
        StepModel::Fail(e) => r matches Some(Err(err)) && err@ == e,
        StepModel::Done => r is None,
    }
}

/// For every well-formed dialogue block — a `[` at the trimmed read
/// position with a matching `]` before any line break — one step yields
/// exactly the trimmed speaker name and the body in its normal form — its
/// words rejoined with single spaces — and
/// moves the cursor to the next line that begins a directive or comment
/// marker, or to the end of the input.
pub proof fn lemma_dialogue_step(s: Seq<char>, pos: int)
    requires
        0 <= pos <= s.len(),
        skip_ws(s, pos) < s.len(),
        s[skip_ws(s, pos)] == '[',
        name_end(s, skip_ws(s, pos) + 1) < s.len(),
        s[name_end(s, skip_ws(s, pos) + 1)] == ']',
    ensures
        ({
            let p = skip_ws(s, pos);
            let ne = name_end(s, p + 1);
            let be = body_end(s, ne + 1);
            spec_step(s, pos) == StepModel::Item {
                at: be,
                ctx: ContextModel::Dialogue(
                    DialogueModel {
                        name: trim_value(s.subrange(p + 1, ne)),
                        dialogue: norm_range(s, ne + 1, be),
                    },
                ),
            } && (be == s.len() || (s[be] == '\n' && be + 1 < s.len() && (s[be + 1] == '@' || s[be
                + 1] == '#')))
        }),
{
    let p = skip_ws(s, pos);
    let ne = name_end(s, p + 1);
    crate::util::lemma_skip_ws_bounds(s, pos);
    crate::util::lemma_name_end_bounds(s, p + 1);
    crate::util::lemma_body_end_bounds(s, ne + 1);
    crate::util::lemma_body_end_boundary(s, ne + 1);
}

/// For every well-formed three-argument jump directive at the read position
/// — `@jump(` after trimming, a closing `)` on the same line, and exactly
/// three comma-separated arguments `a, b, p` — one step yields a jump whose
/// choice labels equal the trimmed `a` and `b` and whose path equals the
/// trimmed `p`, and moves the cursor just past the `)`.
pub proof fn lemma_jump_step(s: Seq<char>, pos: int)
    requires
        0 <= pos <= s.len(),
        ({
            let p = skip_ws(s, pos);
            let ae = alpha_end(s, p + 1);
            let ce = args_end(s, ae + 1);
            p < s.len() && s[p] == '@' && ae < s.len() && s[ae] == '(' && s.subrange(p + 1, ae)
                == "jump"@ && ce < s.len() && s[ce] == ')' && spec_split_args(s, ae + 1, ce).len()
                == 3
        }),
    ensures
        ({
            let p = skip_ws(s, pos);
            let ae = alpha_end(s, p + 1);
            let ce = args_end(s, ae + 1);
            let args = spec_split_args(s, ae + 1, ce);
            spec_step(s, pos) == (StepModel::Item {
                at: ce + 1,
                ctx: ContextModel::Directive(
                    DirectiveModel::Jump(
                        JumpModel { choices: Some((args[0], args[1])), path: args[2] },
                    ),
                ),
            }) && args[0] == trim_value(args[0]) && args[1] == trim_value(args[1]) && args[2]
                == trim_value(args[2])
        }),
{
    let p = skip_ws(s, pos);
    let ae = alpha_end(s, p + 1);
    let ce = args_end(s, ae + 1);
    crate::util::lemma_skip_ws_bounds(s, pos);
    crate::util::lemma_alpha_end_bounds(s, p + 1);
    crate::util::lemma_args_end_bounds(s, ae + 1);
    reveal_strlit("jump");
    assert(ae - (p + 1) == 4) by {
        assert(s.subrange(p + 1, ae).len() == "jump"@.len());
    }
    crate::util::lemma_split_args_trimmed(s, ae + 1, ce);
}

impl Dialogue {
    /// Whether the remaining text opens a dialogue block.
    pub fn hint(ctx: &str) -> (r: bool)
        ensures
            r == (ctx@.len() > 0 && ctx@[0] == '['),
    {
        if ctx.is_empty() {
            false
        } else {
            ctx.get_char(0) == '['
        }
    }

    /// Parse the dialogue block opening at `pos`.
    pub fn parse(text: &str, pos: usize) -> (r: Result<(usize, Dialogue), EngineError>)
        requires
            (pos as int) < text@.len(),
            text@[pos as int] == '[',
        ensures
            match spec_dialogue(text@, pos as int) {
                StepModel::Item { at, ctx } => r matches Ok((np, d)) && np as int == at && ctx
                    == ContextModel::Dialogue(d@) && pos < np && at <= text@.len(),
                StepModel::Fail(e) => r matches Err(err) && err@ == e,
                StepModel::Done => false,
            },
    {
        let n = text.unicode_len();
        let ne = name_end_at(text, pos + 1);
        if ne < n && text.get_char(ne) == ']' {
            let name = trim_region(text, pos + 1, ne);
            let be = body_end_at(text, ne + 1);
            let body = normalized_region(text, ne + 1, be);
            Ok((be, Dialogue { name, dialogue: body }))
        } else {
            Err(EngineError::Malformed(ne, ']'))
        }
    }
}

impl Directive {
    /// Whether the remaining text opens a directive.
    pub fn hint(ctx: &str) -> (r: bool)
        ensures
            r == (ctx@.len() > 0 && ctx@[0] == '@'),
    {
        if ctx.is_empty() {
            false
        } else {
            ctx.get_char(0) == '@'
        }
    }

    /// The directive registry: try each kind in a fixed order, gating on its
    /// name before validating its argument shape; a name no kind carries is
    /// an unknown-directive error.
    pub fn resolve(name: &str, args: &Vec<String>) -> (r: Result<Directive, DirectiveError>)
        ensures
            match spec_resolve(name@, args.deep_view()) {
                Ok(d) => r matches Ok(dir) && dir@ == d,
                Err(e) => r matches Err(err) && err@ == e,
            },
    {
        match Jump::parse(name, args) {
            Some(res) => {
                return match res {
                    Ok(j) => Ok(Directive::Jump(j)),
                    Err(e) => Err(e),
                };
            },
            None => {},
        }
        match LoadBG::parse(name, args) {
            Some(res) => {
                return match res {
                    Ok(d) => Ok(Directive::LoadBG(d)),
                    Err(e) => Err(e),
                };
            },
            None => {},
        }
        Err(DirectiveError::UnknownDirective(name.to_owned()))
    }

    /// Parse the directive opening at `pos`.
    pub fn parse(text: &str, pos: usize) -> (r: Result<(usize, Directive), EngineError>)
        requires
            (pos as int) < text@.len(),
            text@[pos as int] == '@',
        ensures
            match spec_directive(text@, pos as int) {
                StepModel::Item { at, ctx } => r matches Ok((np, d)) && np as int == at && ctx
                    == ContextModel::Directive(d@) && pos < np && at <= text@.len(),
                StepModel::Fail(e) => r matches Err(err) && err@ == e,
                StepModel::Done => false,
            },
    {
        let n = text.unicode_len();
        let ae = alpha_end_at(text, pos + 1);
        if ae < n && text.get_char(ae) == '(' && ae > pos + 1 {
            let ce = args_end_at(text, ae + 1);
            if ce < n && text.get_char(ce) == ')' {
                let name = text.substring_char(pos + 1, ae);
                let args = split_args(text, ae + 1, ce);
                match Directive::resolve(name, &args) {
                    Ok(d) => Ok((ce + 1, d)),
                    Err(e) => Err(EngineError::Directive(e)),
                }
            } else {
                Err(EngineError::Malformed(ce, ')'))
            }
        } else {
            Err(EngineError::Malformed(ae, '('))
        }
    }
}

/// One parse step from `pos`: the new read position and the yielded element,
/// failure, or end of sequence.
pub fn parse_step(text: &str, pos: usize) -> (r: (usize, Option<Result<Context, EngineError>>))
    requires
        pos as int <= text@.len(),
    ensures
        step_matches(text@, pos as int, r.0 as int, r.1),
        pos <= r.0,
        r.0 as int <= text@.len(),
{
    let n = text.unicode_len();
    let p = skip_ws_at(text, pos);
    if p >= n {
        return (pos, None);
    }
    let c = text.get_char(p);
    if c == '[' {
        match Dialogue::parse(text, p) {
            Ok((np, d)) => (np, Some(Ok(Context::Dialogue(d)))),
            Err(e) => (pos, Some(Err(e))),
        }
    } else if c == '@' {
        match Directive::parse(text, p) {
            Ok((np, d)) => (np, Some(Ok(Context::Directive(d)))),
            Err(e) => (pos, Some(Err(e))),
        }
    } else if c == '#' {
        let e = line_end_at(text, p);
        let np = if e < n {
            e + 1
        } else {
            e
        };
        (np, Some(Ok(Context::Comment)))
    } else {
        (pos, None)
    }
}

/// A script: the full source text and a movable read position.
pub struct Script {
    ctx: String,
    cur: usize,
}

/// A borrowed cursor over a script's text, always starting at the beginning.
pub struct ScriptIter<'s> {
    ctx: &'s str,
    cur: usize,
}

impl Script {
    /// The source text.
    pub closed spec fn text(&self) -> Seq<char> {
        self.ctx@
    }

    /// The read position, in characters from the start of the text.
    pub closed spec fn pos(&self) -> int {
        self.cur as int
    }

    /// The read position never leaves the text.
    pub open spec fn wf(&self) -> bool {
        self.pos() <= self.text().len()
    }

    /// A script over the given source, positioned at its start.
    pub fn new(ctx: String) -> (s: Script)
        ensures
            s.text() == ctx@,
            s.pos() == 0,
            s.wf(),
    {
        Script { ctx, cur: 0 }
    }

    /// How many characters have been consumed.
    pub fn chars(&self) -> (r: usize)
        ensures
            r as int == self.pos(),
    {
        self.cur
    }

    /// The full source text.
    pub fn ctx(&self) -> (r: &str)
        ensures
            r@ == self.text(),
    {
        self.ctx.as_str()
    }

    /// The unconsumed remainder of the text.
    pub fn cur(&self) -> (r: &str)
        requires
            self.wf(),
        ensures
            r@ == self.text().subrange(self.pos(), self.text().len() as int),
    {
        let n = self.ctx.as_str().unicode_len();
        self.ctx.as_str().substring_char(self.cur, n)
    }

    /// The diagnostic (line, column) pair of the read position.
    pub fn line_chars(&self) -> (r: (usize, usize))
        requires
            self.wf(),
            self.text().len() < usize::MAX,
        ensures
            r.0 as int == line_col(self.text(), self.pos()).0,
            r.1 as int == line_col(self.text(), self.pos()).1,
    {
        crate::util::line_chars(self.ctx.as_str(), self.cur)
    }

    /// A fresh borrowed cursor over this script's text, from its beginning.
    pub fn iter<'s>(&'s self) -> (it: ScriptIter<'s>)
        requires
            self.wf(),
        ensures
            it.text() == self.text(),
            it.pos() == 0,
            it.wf(),
    {
        ScriptIter { ctx: self.ctx.as_str(), cur: 0 }
    }

    /// Advance one step: parse the next element and commit the new position.
    pub fn next(&mut self) -> (r: Option<Result<Context, EngineError>>)
        requires
            old(self).wf(),
        ensures
            final(self).wf(),
            final(self).text() == old(self).text(),
            step_matches(old(self).text(), old(self).pos(), final(self).pos(), r),
    {
        let (np, r) = parse_step(self.ctx.as_str(), self.cur);
        self.cur = np;
        r
    }

    /// Parse the next element without committing the position.
    pub fn peek(&self) -> (r: Option<Result<Context, EngineError>>)
        requires
            self.wf(),
        ensures
            peek_matches(self.text(), self.pos(), r),
    {
        let (_, r) = parse_step(self.ctx.as_str(), self.cur);
        r
    }
}

impl<'s> ScriptIter<'s> {
    /// The text under the cursor.
    pub closed spec fn text(&self) -> Seq<char> {
        self.ctx@
    }

    /// The read position, in characters from the start of the text.
    pub closed spec fn pos(&self) -> int {
        self.cur as int
    }

    /// The read position never leaves the text.
    pub open spec fn wf(&self) -> bool {
        self.pos() <= self.text().len()
    }

    /// A cursor over the given text, positioned at its start.
    pub fn new(ctx: &'s str) -> (it: ScriptIter<'s>)
        ensures
            it.text() == ctx@,
            it.pos() == 0,
            it.wf(),
    {
        ScriptIter { ctx, cur: 0 }
    }

    /// Advance one step: parse the next element and commit the new position.
    pub fn next(&mut self) -> (r: Option<Result<Context, EngineError>>)
        requires
            old(self).wf(),
        ensures
            final(self).wf(),
            final(self).text() == old(self).text(),
            step_matches(old(self).text(), old(self).pos(), final(self).pos(), r),
    {
        let (np, r) = parse_step(self.ctx, self.cur);
        self.cur = np;
        r
    }

    /// Parse the next element without committing the position.
    pub fn peek(&self) -> (r: Option<Result<Context, EngineError>>)
        requires
            self.wf(),
        ensures
            peek_matches(self.text(), self.pos(), r),
    {
        let (_, r) = parse_step(self.ctx, self.cur);
        r
    }

    /// The diagnostic (line, column) pair of the read position.
    pub fn line_chars(&self) -> (r: (usize, usize))
        requires
            self.wf(),
            self.text().len() < usize::MAX,
        ensures
            r.0 as int == line_col(self.text(), self.pos()).0,
            r.1 as int == line_col(self.text(), self.pos()).1,
    {
        crate::util::line_chars(self.ctx, self.cur)
    }
}

} // verus!
