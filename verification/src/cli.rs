//! The options that the command line offers.

use vstd::prelude::*;

verus! {

/// The timeout that holds where none is given, in milliseconds.
pub const DEFAULT_TIMEOUT_MS: u64 = 500;

/// The options of one run.
#[derive(Clone, Debug, PartialEq, Eq)]
pub struct Cli {
    /// Pretty-print the output.
    pub pretty: bool,
    /// The fields to keep in the output, as a selector string.
    pub select: Option<String>,
    /// Skip the detection of the accounting application.
    pub no_tally: bool,
    /// The endpoint of the network probe, as `host:port`.
    pub tally_http: Option<String>,
    /// The time budget of the run, in milliseconds.
    pub timeout_ms: u64,
    /// The port on which to serve the document, if any.
    pub http: Option<u16>,
}

impl Default for Cli {
    /// The options of a run without arguments.
    fn default() -> (r: Cli)
        ensures
            !r.pretty,
            r.select is None,
            !r.no_tally,
            r.tally_http is None,
            r.timeout_ms == DEFAULT_TIMEOUT_MS,
            r.http is None,
    {
        Cli {
            pretty: false,
            select: None,
            no_tally: false,
            tally_http: None,
            timeout_ms: DEFAULT_TIMEOUT_MS,
            http: None,
        }
    }
}

} // verus!
