//! The playback engine: a script cursor plus mutable playback state.
//!
//! Advancing the engine parses one element and runs any directive's effect
//! before the element reaches the caller. A jump directive transfers control
//! to another script file; since only the surrounding program can read files,
//! the engine reports the requested path and waits for the caller to hand
//! back the file's text (`provide_script`) or its failure (`jump_failed`).
//! Peeking runs no effect and moves nothing.

use vstd::prelude::*;
use vstd::pervasive::unreached;

use crate::directive::Jump;
use crate::error::EngineError;
use crate::error::ErrModel;
use crate::parse::peek_matches;
use crate::parse::spec_step;
use crate::parse::Context;
use crate::parse::ContextModel;
use crate::parse::Directive;
use crate::parse::DirectiveModel;
use crate::parse::Script;
use crate::parse::StepModel;

verus! {

/// The decoded-image type of the `image` crate. The engine only stores such
/// values in its caches, keyed by path; decoding is the renderer's business.
#[verifier::external_type_specification]
#[verifier::external_body]
pub struct ExDynamicImage(image::DynamicImage);

/// A sprite placed on screen; no directive manipulates these yet.
#[derive(Debug, Clone, PartialEq, Eq)]
pub struct Sprite {
    pub x: usize,
    pub y: usize,
    pub sprite: String,
    pub visible: bool,
}

/// What one advance of the engine produced.
#[derive(Debug)]
pub enum Step {
    /// An element was yielded; any effect it carries has already run.
    Ctx(Context),
    /// A jump directive was parsed: the engine awaits the text of the file
    /// at this path before the jump's element is yielded.
    Jumping(String),
    /// Parsing failed; the stream is over.
    Fail(EngineError),
    /// The element sequence is exhausted.
    End,
}

/// The engine: the current script and all playback state.
pub struct Engine {
    pub script: Script,
    pub bg_path: Option<String>,
    pub sprites: Vec<Sprite>,
    pub bgs_cache: Vec<(String, image::DynamicImage)>,
    pub sprites_cache: Vec<(String, image::DynamicImage)>,
    pub pending_jump: Option<Jump>,
}

/// The caches are keyed by path: no path appears twice.
pub open spec fn cache_wf(cache: Seq<(String, image::DynamicImage)>) -> bool {
    forall|i: int, j: int| 0 <= i < j < cache.len() ==> cache[i].0@ != cache[j].0@
}

impl Engine {
    /// The engine is well-formed when its script is and its caches are
    /// genuinely keyed by path.
    pub open spec fn wf(&self) -> bool {
        self.script.wf() && cache_wf(self.bgs_cache@) && cache_wf(self.sprites_cache@)
    }

    /// An engine over the given script source, with empty playback state.
    pub fn new(source: String) -> (e: Engine)
        ensures
            e.wf(),
            e.script.text() == source@,
            e.script.pos() == 0,
            e.bg_path is None,
            e.pending_jump is None,
            e.sprites@.len() == 0,
            e.bgs_cache@.len() == 0,
            e.sprites_cache@.len() == 0,
    {
        Engine {
            script: Script::new(source),
            bg_path: None,
            sprites: Vec::new(),
            bgs_cache: Vec::new(),
            sprites_cache: Vec::new(),
            pending_jump: None,
        }
    }

    /// Advance one step and run the yielded directive's effect, if any.
    ///
    /// A dialogue, comment, or background change is yielded directly (the
    /// background path is overwritten before the element is returned). A
    /// jump records itself as pending and asks the caller for the target
    /// file's text. A parse failure and the end of the sequence leave every
    /// part of the state as it was.
    pub fn next(&mut self) -> (r: Step)
        requires
            old(self).wf(),
        ensures
            final(self).wf(),
            final(self).script.text() == old(self).script.text(),
            final(self).sprites == old(self).sprites,
            final(self).bgs_cache == old(self).bgs_cache,
            final(self).sprites_cache == old(self).sprites_cache,
            match spec_step(old(self).script.text(), old(self).script.pos()) {
                StepModel::Done => r is End
                    && final(self).script.pos() == old(self).script.pos()
                    && final(self).bg_path == old(self).bg_path
                    && final(self).pending_jump == old(self).pending_jump,
                StepModel::Fail(e) => (r matches Step::Fail(err) && err@ == e)
                    && final(self).script.pos() == old(self).script.pos()
                    && final(self).bg_path == old(self).bg_path
                    && final(self).pending_jump == old(self).pending_jump,
                StepModel::Item { at, ctx } => final(self).script.pos() == at && match ctx {
                    ContextModel::Directive(DirectiveModel::Jump(jm)) => (r matches Step::Jumping(p)
                        && p@ == jm.path)
                        && (final(self).pending_jump matches Some(pj) && pj@ == jm)
                        && final(self).bg_path == old(self).bg_path,
                    ContextModel::Directive(DirectiveModel::LoadBG(bm)) => (r matches Step::Ctx(c)
                        && c@ == ctx)
                        && (final(self).bg_path matches Some(bp) && bp@ == bm.bg)
                        && final(self).pending_jump == old(self).pending_jump,
                    _ => (r matches Step::Ctx(c) && c@ == ctx)
                        && final(self).bg_path == old(self).bg_path
                        && final(self).pending_jump == old(self).pending_jump,
                },
            },
    {
        match self.script.next() {
            None => Step::End,
            Some(Err(e)) => Step::Fail(e),
            Some(Ok(ctx)) => match ctx {
                Context::Dialogue(d) => Step::Ctx(Context::Dialogue(d)),
                Context::Comment => Step::Ctx(Context::Comment),
                Context::Directive(dir) => match dir {
                    Directive::Jump(j) => {
                        j.exec(self);
                        Step::Jumping(j.path)
                    },
                    Directive::LoadBG(b) => {
                        b.exec(self);
                        Step::Ctx(Context::Directive(Directive::LoadBG(b)))
                    },
                },
            },
        }
    }

    /// Parse the next element without advancing and without any effect.
    pub fn peek(&self) -> (r: Option<Result<Context, EngineError>>)
        requires
            self.wf(),
        ensures
            peek_matches(self.script.text(), self.script.pos(), r),
    {
        self.script.peek()
    }

    /// Complete a pending jump: replace the current script wholesale with a
    /// fresh cursor over the given text and yield the jump's element. The
    /// old script's unread remainder is discarded.
    pub fn provide_script(&mut self, source: String) -> (r: Context)
        requires
            old(self).wf(),
            old(self).pending_jump is Some,
        ensures
            final(self).wf(),
            final(self).script.text() == source@,
            final(self).script.pos() == 0,
            final(self).pending_jump is None,
            final(self).bg_path == old(self).bg_path,
            final(self).sprites == old(self).sprites,
            final(self).bgs_cache == old(self).bgs_cache,
            final(self).sprites_cache == old(self).sprites_cache,
            (old(self).pending_jump matches Some(pj) && r@ == ContextModel::Directive(
                DirectiveModel::Jump(pj@),
            )),
    {
        let ctx = match &self.pending_jump {
            Some(j) => Context::Directive(Directive::Jump(j.duplicate())),
            None => unreached(),
        };
        self.script = Script::new(source);
        self.pending_jump = None;
        ctx
    }

    /// Abandon a pending jump whose target could not be read: the current
    /// script and all playback state stay exactly as they were, and the
    /// error to report is returned.
    pub fn jump_failed(&mut self) -> (r: EngineError)
        requires
            old(self).wf(),
            old(self).pending_jump is Some,
        ensures
            final(self).wf(),
            final(self).script == old(self).script,
            final(self).bg_path == old(self).bg_path,
            final(self).sprites == old(self).sprites,
            final(self).bgs_cache == old(self).bgs_cache,
            final(self).sprites_cache == old(self).sprites_cache,
            final(self).pending_jump is None,
            r@ == ErrModel::SourceUnreadable,
    {
        self.pending_jump = None;
        EngineError::SourceUnreadable
    }
}

/// What a peek reports depends only on the script's text and read position:
/// playback state — background path, pending jump, sprites, caches — never
/// affects it. Together with `peek` taking its receiver by shared reference,
/// any run of peeks between two advances reports value-equal results and
/// performs no directive effect.
pub proof fn lemma_peek_deterministic(a: Engine, b: Engine)
    requires
        a.script.text() == b.script.text(),
        a.script.pos() == b.script.pos(),
    ensures
        spec_step(a.script.text(), a.script.pos()) == spec_step(b.script.text(), b.script.pos()),
{
}

/// Every yielded element moves the read position strictly forward and never
/// past the end of the text: the element sequence of a script is finite.
pub proof fn lemma_step_progress(s: Seq<char>, pos: int)
    requires
        0 <= pos <= s.len(),
    ensures
        spec_step(s, pos) matches StepModel::Item { at, .. } ==> pos < at <= s.len(),
{
    crate::util::lemma_skip_ws_bounds(s, pos);
    let p = crate::util::skip_ws(s, pos);
    if p < s.len() && s[p] == '[' {
        crate::util::lemma_name_end_bounds(s, p + 1);
        let ne = crate::util::name_end(s, p + 1);
        if ne < s.len() && s[ne] == ']' {
            crate::util::lemma_body_end_bounds(s, ne + 1);
        }
    } else if p < s.len() && s[p] == '@' {
        crate::util::lemma_alpha_end_bounds(s, p + 1);
        let ae = crate::util::alpha_end(s, p + 1);
        if ae < s.len() && s[ae] == '(' && ae > p + 1 {
            crate::util::lemma_args_end_bounds(s, ae + 1);
        }
    } else if p < s.len() && s[p] == '#' {
        crate::util::lemma_line_end_bounds(s, p);
    }
}

} // verus!
