//! Brings the export of a PLC project into a form that a line-oriented diff
//! can compare.
//!
//! A document is a sequence of [`Event`]s. It is read twice. The collection
//! pass ([`pipeline::CollectionPass`]) changes nothing and gathers what can
//! only be known from the whole document: the symbols of the input and
//! output addresses, the path of names that leads to each logic block, the
//! display names of steps and transitions, and the network of control nodes.
//! The transform pass ([`pipeline::TransformPass`]) then leaves out the
//! content of ladder diagrams, puts small numbers in place of identifiers,
//! writes a context onto logic blocks and transitions, and brings the text
//! of instruction lines to a normal form.
//!
//! Each stage of a pass is an [`XmlNodeVisitor`]. What a stage does with an
//! event is stated by a `step` function over the mathematical content of its
//! state, and the `visit` of the stage is proved to do just that. The
//! functions of [`document`] run the passes over whole documents.

pub mod annotate;
pub mod arrays;
pub mod bytes;
pub mod document;
pub mod error;
pub mod event;
pub mod grafcet;
pub mod guid;
pub mod intern;
pub mod io_names;
pub mod name_tracker;
pub mod names;
pub mod normalize;
pub mod pipeline;
pub mod single_pass;
pub mod skip;
pub mod tag;
pub mod text;
pub mod xml;

pub use crate::error::Error;
pub use crate::event::Event;
pub use crate::event::StartTag;
pub use crate::event::VisitProcessing;
pub use crate::event::VisitResult;
pub use crate::event::XmlNodeVisitor;
pub use crate::guid::Guid;
pub use crate::intern::GuidMap;
pub use crate::pipeline::process_file;
pub use crate::tag::CurrentTag;
