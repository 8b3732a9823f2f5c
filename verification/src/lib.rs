//! Turns the free-text status report of a UPS monitoring tool into a
//! Prometheus exposition-format metrics document.
//!
//! The parser scans the raw bytes of the captured report for a fixed
//! multi-line layout and extracts six numeric fields into a
//! [`record::StatusRecord`]; the renderer writes the record back out as
//! gauge metrics in the Prometheus exposition text format. Running the
//! status tool and serving the document over HTTP are left to the caller.

use vstd::prelude::*;

pub mod digits;
pub mod parser;
pub mod record;
pub mod render;
pub mod scan;

verus! {

use crate::parser::parse;
use crate::parser::spec_parse;
use crate::record::ParserError;
use crate::render::render;
use crate::render::spec_render;

/// What `metrics` returns on any captured text: the rendered document of
/// the parsed record, or the parse error unchanged.
pub open spec fn spec_metrics(s: Seq<u8>) -> Result<Seq<u8>, ParserError> {
    match spec_parse(s) {
        Ok(r) => Ok(spec_render(r)),
        Err(e) => Err(e),
    }
}

/// Produces the metrics document for one captured status text: parses the
/// text and renders the resulting record. Fails exactly when parsing fails,
/// with the parse error unchanged; no partial document is ever produced.
pub fn metrics(text: &[u8]) -> (r: Result<Vec<u8>, ParserError>)
    ensures
        match r {
            Ok(v) => spec_metrics(text@) == Ok::<Seq<u8>, ParserError>(v@),
            Err(e) => spec_metrics(text@) == Err::<Seq<u8>, ParserError>(e),
        },
{
    match parse(text) {
        Ok(record) => Ok(render(&record)),
        Err(e) => Err(e),
    }
}

/// The pipeline is a pure function of the captured text: parsing and
/// rendering the same bytes twice gives the same outcome, so repeated runs
/// over a fixed text are byte-identical.
pub proof fn lemma_metrics_deterministic(s: Seq<u8>, t: Seq<u8>)
    requires
        s == t,
    ensures
        spec_metrics(s) == spec_metrics(t),
{
}

} // verus!
