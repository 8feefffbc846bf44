//! The directive kinds the registry knows, with their recognition and
//! argument-shape rules.
//!
//! Each kind's `parse` first gates on its canonical name: a mismatch yields
//! `None` ("not applicable") and the registry tries the next kind, while a
//! name match with a bad argument shape is a hard error that no later kind
//! may mask.

use vstd::prelude::*;

use crate::engine::Engine;
use crate::error::DirErrModel;
use crate::error::DirectiveError;
use crate::util::str_eq;

verus! {

/// A control transfer to another script file, optionally packaged as a
/// two-choice branch.
#[derive(Debug, Clone, PartialEq, Eq)]
pub struct Jump {
    pub choices: Option<(String, String)>,
    pub path: String,
}

/// The view of a `Jump`.
pub struct JumpModel {
    pub choices: Option<(Seq<char>, Seq<char>)>,
    pub path: Seq<char>,
}

impl View for Jump {
    type V = JumpModel;

    open spec fn view(&self) -> JumpModel {
        JumpModel {
            choices: match self.choices {
                Some((a, b)) => Some((a@, b@)),
                None => None,
            },
            path: self.path@,
        }
    }
}

/// A change of the current background image path.
#[derive(Debug, Clone, PartialEq, Eq)]
pub struct LoadBG {
    pub bg: String,
}

/// The view of a `LoadBG`.
pub struct LoadBgModel {
    pub bg: Seq<char>,
}

impl View for LoadBG {
    type V = LoadBgModel;

    open spec fn view(&self) -> LoadBgModel {
        LoadBgModel { bg: self.bg@ }
    }
}

/// A placeholder for a future sprite directive; nothing resolves to it yet.
#[derive(Debug, Clone, PartialEq, Eq)]
pub struct Sprite {
    pub bg: String,
}

/// The message a jump directive reports when its argument count matches
/// neither accepted shape.
pub open spec fn jump_arity_msg() -> Seq<char> {
    "jump directive take either 1 or 3 arguments"@
}

/// What `Jump::parse` resolves a matching name and argument list to: one
/// argument is a plain jump, three are a two-choice branch plus destination,
/// and any other count is an arity error.
pub open spec fn spec_jump_parse(args: Seq<Seq<char>>) -> Result<JumpModel, DirErrModel> {
    if args.len() == 1 {
        Ok(JumpModel { choices: None, path: args[0] })
    } else if args.len() == 3 {
        Ok(JumpModel { choices: Some((args[0], args[1])), path: args[2] })
    } else {
        Err(DirErrModel::Custom { msg: jump_arity_msg() })
    }
}

/// What `LoadBG::parse` resolves a matching name and argument list to: the
/// first argument is the background path, and its absence is a missing
/// argument at position zero; extra arguments are ignored.
pub open spec fn spec_loadbg_parse(args: Seq<Seq<char>>) -> Result<LoadBgModel, DirErrModel> {
    if args.len() >= 1 {
        Ok(LoadBgModel { bg: args[0] })
    } else {
        Err(DirErrModel::Missing { position: 0, role: "bg path"@ })
    }
}

impl Jump {
    /// Recognize the name `jump` and validate the argument shape.
    pub fn parse(name: &str, args: &Vec<String>) -> (r: Option<Result<Jump, DirectiveError>>)
        ensures
            (r is None) <==> name@ != "jump"@,
            name@ == "jump"@ ==> match spec_jump_parse(args.deep_view()) {
                Ok(m) => r matches Some(Ok(j)) && j@ == m,
                Err(e) => r matches Some(Err(err)) && err@ == e,
            },
    {
        if !str_eq(name, "jump") {
            return None;
        }
        proof {
            assert(forall|i: int|
                0 <= i < args@.len() ==> args.deep_view()[i] == #[trigger] args@[i]@);
        }
        if args.len() == 1 {
            Some(Ok(Jump { choices: None, path: args[0].clone() }))
        } else if args.len() == 3 {
            Some(
                Ok(
                    Jump {
                        choices: Some((args[0].clone(), args[1].clone())),
                        path: args[2].clone(),
                    },
                ),
            )
        } else {
            Some(Err(DirectiveError::Custom("jump directive take either 1 or 3 arguments")))
        }
    }

    /// The jump's effect: record this jump as pending so that the caller can
    /// supply the target file's text. Nothing else of the engine moves.
    pub fn exec(&self, engine: &mut Engine)
        ensures
            (final(engine).pending_jump matches Some(pj) && pj@ == self@),
            final(engine).script == old(engine).script,
            final(engine).bg_path == old(engine).bg_path,
            final(engine).sprites == old(engine).sprites,
            final(engine).bgs_cache == old(engine).bgs_cache,
            final(engine).sprites_cache == old(engine).sprites_cache,
    {
        engine.pending_jump = Some(self.duplicate());
    }

    /// A value-equal copy.
    pub fn duplicate(&self) -> (r: Jump)
        ensures
            r@ == self@,
    {
        Jump {
            choices: match &self.choices {
                Some((a, b)) => Some((a.clone(), b.clone())),
                None => None,
            },
            path: self.path.clone(),
        }
    }
}

impl LoadBG {
    /// Recognize the name `loadbg` and validate the argument shape.
    pub fn parse(name: &str, args: &Vec<String>) -> (r: Option<Result<LoadBG, DirectiveError>>)
        ensures
            (r is None) <==> name@ != "loadbg"@,
            name@ == "loadbg"@ ==> match spec_loadbg_parse(args.deep_view()) {
                Ok(m) => r matches Some(Ok(d)) && d@ == m,
                Err(e) => r matches Some(Err(err)) && err@ == e,
            },
    {
        if !str_eq(name, "loadbg") {
            return None;
        }
        proof {
            assert(forall|i: int|
                0 <= i < args@.len() ==> args.deep_view()[i] == #[trigger] args@[i]@);
        }
        if args.len() >= 1 {
            Some(Ok(LoadBG { bg: args[0].clone() }))
        } else {
            Some(Err(DirectiveError::MissingArgument(0, "bg path")))
        }
    }

    /// The background change's effect: overwrite the engine's background
    /// path; the caches are left to the renderer. Nothing else moves.
    pub fn exec(&self, engine: &mut Engine)
        ensures
            (final(engine).bg_path matches Some(b) && b@ == self.bg@),
            final(engine).script == old(engine).script,
            final(engine).pending_jump == old(engine).pending_jump,
            final(engine).sprites == old(engine).sprites,
            final(engine).bgs_cache == old(engine).bgs_cache,
            final(engine).sprites_cache == old(engine).sprites_cache,
    {
        engine.bg_path = Some(self.bg.clone());
    }
}

} // verus!
