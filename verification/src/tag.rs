//! The classification of element names.

use crate::bytes::bytes_eq;
use vstd::prelude::*;
use vstd::std_specs::convert::FromSpecImpl;
use vstd::string::*;

verus! {

/// Classification of the element that was opened last and is not closed yet.
#[derive(Copy, Clone, Debug, PartialEq, Eq, Structural)]
pub enum CurrentTag {
    Address,
    Id,
    To,
    From,
    GrafcetNodeStep,
    GrafcetOrFork,
    GrafcetOrJunction,
    GrafcetTransition,
    InstructionLine,
    InstructionLineEntity,
    MainComment,
    Name,
    LadderElements,
    RungEntity,
    Symbol,
    Other,
    NoTag,
}

/// The classification of a local element name: one of the fifteen known
/// names, spelled exactly, or `Other`.
pub open spec fn classify(name: Seq<u8>) -> CurrentTag {
    if name == "Address".spec_bytes() {
        CurrentTag::Address
    } else if name == "Id".spec_bytes() {
        CurrentTag::Id
    } else if name == "From".spec_bytes() {
        CurrentTag::From
    } else if name == "To".spec_bytes() {
        CurrentTag::To
    } else if name == "GrafcetNodeStep".spec_bytes() {
        CurrentTag::GrafcetNodeStep
    } else if name == "GrafcetOrFork".spec_bytes() {
        CurrentTag::GrafcetOrFork
    } else if name == "GrafcetOrJunction".spec_bytes() {
        CurrentTag::GrafcetOrJunction
    } else if name == "GrafcetTransition".spec_bytes() {
        CurrentTag::GrafcetTransition
    } else if name == "InstructionLine".spec_bytes() {
        CurrentTag::InstructionLine
    } else if name == "InstructionLineEntity".spec_bytes() {
        CurrentTag::InstructionLineEntity
    } else if name == "LadderElements".spec_bytes() {
        CurrentTag::LadderElements
    } else if name == "MainComment".spec_bytes() {
        CurrentTag::MainComment
    } else if name == "Name".spec_bytes() {
        CurrentTag::Name
    } else if name == "RungEntity".spec_bytes() {
        CurrentTag::RungEntity
    } else if name == "Symbol".spec_bytes() {
        CurrentTag::Symbol
    } else {
        CurrentTag::Other
    }
}

impl Default for CurrentTag {
    fn default() -> (tag: Self)
        ensures
            tag == CurrentTag::NoTag,
    {
        CurrentTag::NoTag
    }
}

impl FromSpecImpl<&[u8]> for CurrentTag {
    open spec fn obeys_from_spec() -> bool {
        true
    }

    open spec fn from_spec(name: &[u8]) -> Self {
        classify(name@)
    }
}

impl From<&[u8]> for CurrentTag {
    fn from(name: &[u8]) -> (tag: Self) {
        if bytes_eq(name, "Address".as_bytes()) {
            CurrentTag::Address
        } else if bytes_eq(name, "Id".as_bytes()) {
            CurrentTag::Id
        } else if bytes_eq(name, "From".as_bytes()) {
            CurrentTag::From
        } else if bytes_eq(name, "To".as_bytes()) {
            CurrentTag::To
        } else if bytes_eq(name, "GrafcetNodeStep".as_bytes()) {
            CurrentTag::GrafcetNodeStep
        } else if bytes_eq(name, "GrafcetOrFork".as_bytes()) {
            CurrentTag::GrafcetOrFork
        } else if bytes_eq(name, "GrafcetOrJunction".as_bytes()) {
            CurrentTag::GrafcetOrJunction
        } else if bytes_eq(name, "GrafcetTransition".as_bytes()) {
            CurrentTag::GrafcetTransition
        } else if bytes_eq(name, "InstructionLine".as_bytes()) {
            CurrentTag::InstructionLine
        } else if bytes_eq(name, "InstructionLineEntity".as_bytes()) {
            CurrentTag::InstructionLineEntity
        } else if bytes_eq(name, "LadderElements".as_bytes()) {
            CurrentTag::LadderElements
        } else if bytes_eq(name, "MainComment".as_bytes()) {
            CurrentTag::MainComment
        } else if bytes_eq(name, "Name".as_bytes()) {
            CurrentTag::Name
        } else if bytes_eq(name, "RungEntity".as_bytes()) {
            CurrentTag::RungEntity
        } else if bytes_eq(name, "Symbol".as_bytes()) {
            CurrentTag::Symbol
        } else {
            CurrentTag::Other
        }
    }
}

} // verus!
