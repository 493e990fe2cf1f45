//! The choices that the command line makes besides algorithm and mode.

use vstd::prelude::*;

verus! {

/// Whether the input file is erased afterwards, and in how many passes.
#[derive(Clone, Copy, Debug, PartialEq, Eq, Structural)]
pub enum EraseMode {
    EraseFile(i32),
    IgnoreFile(i32),
}

/// Where a detached header is read from or written to, if anywhere.
#[derive(Debug)]
pub enum HeaderFile {
    Given(String),
    Absent,
}

/// The keyfile to take the raw key from, if any.
#[derive(Debug)]
pub enum KeyFile {
    Given(String),
    Absent,
}

/// Whether a password typed by the user takes precedence over other sources.
#[derive(Clone, Copy, Debug, PartialEq, Eq, Structural)]
pub enum PasswordMode {
    ForceUserProvidedPassword,
    NormalKeySourcePriority,
}

/// Whether confirmation prompts are shown.
#[derive(Clone, Copy, Debug, PartialEq, Eq, Structural)]
pub enum SkipMode {
    ShowPrompts,
    HidePrompts,
}

impl View for HeaderFile {
    type V = Option<Seq<char>>;

    open spec fn view(&self) -> Option<Seq<char>> {
        match self {
            HeaderFile::Given(name) => Some(name@),
            HeaderFile::Absent => None,
        }
    }
}

impl View for KeyFile {
    type V = Option<Seq<char>>;

    open spec fn view(&self) -> Option<Seq<char>> {
        match self {
            KeyFile::Given(name) => Some(name@),
            KeyFile::Absent => None,
        }
    }
}

} // verus!
