//! A pretty-printer for SystemVerilog syntax trees.
//!
//! [`format`] renders a concrete syntax tree of a source text as canonically formatted
//! text: normalized spacing around operators, four-column indentation, port lists
//! wrapped at eighty columns, and blank lines between items kept but collapsed to one.
use vstd::prelude::*;

pub mod buffer;
pub mod error;
pub mod formatter;
pub mod identify_last;
pub mod laws;
pub mod rules;
pub mod syntax;

pub use buffer::{Buffer, BufferModel};
pub use error::Error;
pub use formatter::Formatter;
pub use identify_last::{IdentifyLast, Iter};
pub use rules::Context;
pub use syntax::{Classifier, Kind, Point, SyntaxNode};

verus! {

/// Formats `tree`, a syntax tree of `source` whose kinds `classifier` tells apart.
///
/// Fails with the first structural mismatch met, and then produces no text.
pub fn format(source: &str, classifier: Classifier, tree: &SyntaxNode) -> (r: Result<String, Error>)
    requires
        tree.well_formed(source@.len()),
    ensures
        match (Context { source: source@, table: classifier@ }).render(
            *tree,
            BufferModel::empty(),
        ) {
            Ok(b) => r matches Ok(s) && s@ == b.content,
            Err(e) => r == Err::<String, Error>(e),
        },
{
    let mut b = Buffer::with_capacity(source.len());
    let f = Formatter::new(source, classifier);
    match f.format_node(&mut b, tree) {
        Ok(()) => Ok(b.to_string()),
        Err(e) => Err(e),
    }
}

/// A flat dump of every node of `tree`, one line each: its kind, its field name, and for
/// a leaf its text.
pub fn debug(source: &str, tree: &SyntaxNode) -> (r: String)
    requires
        tree.well_formed(source@.len()),
    ensures
        r@ == (Context { source: source@, table: Seq::empty() }).dump(*tree, 0),
{
    let f = Formatter::new(source, Classifier::new(Vec::new()));
    let mut out: Vec<char> = Vec::new();
    f.debug_walk(&mut out, 0, tree);
    buffer::string_of(out.as_slice())
}

} // verus!
