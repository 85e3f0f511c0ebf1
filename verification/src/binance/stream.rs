//! The streams of the venue by their names.

use vstd::prelude::*;
use crate::engine::engine::StreamKind;
use crate::text::{ends_with, has_suffix};

verus! {

/// Which stream a message of the combined stream belongs to, by the name
/// of the stream it carries: a name that ends in `@depth@100ms` is the
/// depth stream, one that ends in `@trade` the trade stream, and any other
/// is unknown.
pub fn classify_stream(stream: &str) -> (kind: Option<StreamKind>)
    ensures
        kind == if has_suffix(stream@, "@depth@100ms"@) {
            Some(StreamKind::Depth)
        } else if has_suffix(stream@, "@trade"@) {
            Some(StreamKind::Trade)
        } else {
            None
        },
{
    if ends_with(stream, "@depth@100ms") {
        Some(StreamKind::Depth)
    } else if ends_with(stream, "@trade") {
        Some(StreamKind::Trade)
    } else {
        None
    }
}

} // verus!
