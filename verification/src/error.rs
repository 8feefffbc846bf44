//! The error taxonomy: directive resolution errors and the per-step engine
//! errors, each with a mathematical view used by the parsing contracts.

use vstd::prelude::*;

verus! {

/// Why a parsed directive could not be resolved.
#[derive(Debug, Clone, PartialEq, Eq)]
pub enum DirectiveError {
    /// No registered directive kind carries the parsed name.
    UnknownDirective(String),
    /// A required argument slot was absent: its position and its role.
    MissingArgument(usize, &'static str),
    /// The argument count matched no accepted shape of a recognized directive.
    Custom(&'static str),
}

/// The view of a `DirectiveError`.
pub enum DirErrModel {
    Unknown { name: Seq<char> },
    Missing { position: int, role: Seq<char> },
    Custom { msg: Seq<char> },
}

impl View for DirectiveError {
    type V = DirErrModel;

    open spec fn view(&self) -> DirErrModel {
        match self {
            DirectiveError::UnknownDirective(name) => DirErrModel::Unknown { name: name@ },
            DirectiveError::MissingArgument(position, role) => DirErrModel::Missing {
                position: *position as int,
                role: role@,
            },
            DirectiveError::Custom(msg) => DirErrModel::Custom { msg: msg@ },
        }
    }
}

/// What a single parse step can fail with.
#[derive(Debug, Clone, PartialEq, Eq)]
pub enum EngineError {
    /// A directive was parsed but could not be resolved.
    Directive(DirectiveError),
    /// A structural failure: the character position where parsing stopped and
    /// the token that was expected there.
    Malformed(usize, char),
    /// The initial or jumped-to script source could not be read.
    SourceUnreadable,
}

/// The view of an `EngineError`.
pub enum ErrModel {
    Directive(DirErrModel),
    Malformed { at: int, expected: char },
    SourceUnreadable,
}

impl View for EngineError {
    type V = ErrModel;

    open spec fn view(&self) -> ErrModel {
        match self {
            EngineError::Directive(e) => ErrModel::Directive(e@),
            EngineError::Malformed(at, expected) => ErrModel::Malformed {
                at: *at as int,
                expected: *expected,
            },
            EngineError::SourceUnreadable => ErrModel::SourceUnreadable,
        }
    }
}

} // verus!
