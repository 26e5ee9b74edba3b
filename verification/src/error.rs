//! Why a pass fails.

use crate::grafcet::GrafcetNode;
use crate::grafcet::GrafcetNodeView;
use vstd::prelude::*;

verus! {

/// Why a pass over a document was abandoned. Every variant is fatal: nothing
/// is retried and no partial result is handed out.
#[derive(Debug, PartialEq, Eq)]
pub enum Error {
    /// An identifier text of more than 36 bytes.
    IdentifierTooLong { text: Vec<u8> },
    /// An address or symbol text of more than 30 bytes.
    NameTooLong { text: Vec<u8> },
    /// A name text that is not UTF-8.
    NameNotUtf8 { text: Vec<u8> },
    /// An element of this name closed although none was open.
    UnbalancedClose { name: Vec<u8> },
    /// A counter of the pass reached the machine's limit.
    CounterOverflow,
    /// A control node closed at `close_depth` although its identifier was
    /// recorded at `open_depth`, more than one level further in. `node` is
    /// what had been put together of it.
    NodeDepthMismatch { node: GrafcetNode, open_depth: usize, close_depth: usize },
    /// A control node with neither exactly one incoming nor exactly one
    /// outgoing reference.
    NodeFanMismatch { node: GrafcetNode },
    /// The logic block opened as number `index` (from zero) has no record.
    MissingRung { index: usize },
    /// The control node opened as number `position` (from one) has no record.
    MissingNode { position: usize },
    /// A transition that does not have exactly one incoming and exactly one
    /// outgoing reference.
    AmbiguousTransition { node: GrafcetNode },
    /// No display name could be found for the identifier: the walk over its
    /// neighbours left the recorded nodes or used up its budget of steps.
    UnresolvedName { id: Vec<u8> },
    /// A visitor from outside this library gave up; the text says why. No
    /// visitor of this library answers so.
    Visitor { reason: String },
}

/// The mathematical content of an [`Error`].
pub enum ErrorView {
    IdentifierTooLong { text: Seq<u8> },
    NameTooLong { text: Seq<u8> },
    NameNotUtf8 { text: Seq<u8> },
    UnbalancedClose { name: Seq<u8> },
    CounterOverflow,
    NodeDepthMismatch { node: GrafcetNodeView, open_depth: usize, close_depth: usize },
    NodeFanMismatch { node: GrafcetNodeView },
    MissingRung { index: usize },
    MissingNode { position: usize },
    AmbiguousTransition { node: GrafcetNodeView },
    UnresolvedName { id: Seq<u8> },
    Visitor { reason: Seq<char> },
}

impl View for Error {
    type V = ErrorView;

    open spec fn view(&self) -> ErrorView {
        match *self {
            Error::IdentifierTooLong { text } => ErrorView::IdentifierTooLong { text: text@ },
            Error::NameTooLong { text } => ErrorView::NameTooLong { text: text@ },
            Error::NameNotUtf8 { text } => ErrorView::NameNotUtf8 { text: text@ },
            Error::UnbalancedClose { name } => ErrorView::UnbalancedClose { name: name@ },
            Error::CounterOverflow => ErrorView::CounterOverflow,
            Error::NodeDepthMismatch { node, open_depth, close_depth } => ErrorView::NodeDepthMismatch {
                node: node@,
                open_depth,
                close_depth,
            },
            Error::NodeFanMismatch { node } => ErrorView::NodeFanMismatch { node: node@ },
            Error::MissingRung { index } => ErrorView::MissingRung { index },
            Error::MissingNode { position } => ErrorView::MissingNode { position },
            Error::AmbiguousTransition { node } => ErrorView::AmbiguousTransition { node: node@ },
            Error::UnresolvedName { id } => ErrorView::UnresolvedName { id: id@ },
            Error::Visitor { reason } => ErrorView::Visitor { reason: reason@ },
        }
    }
}

/// The mathematical content of a result that may hold an [`Error`].
pub open spec fn result_view<T>(res: Result<T, Error>) -> Result<T, ErrorView> {
    match res {
        Ok(value) => Ok(value),
        Err(error) => Err(error@),
    }
}

} // verus!
