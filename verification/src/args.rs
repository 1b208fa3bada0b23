//! What one run is asked to do.

use vstd::prelude::*;
use crate::port::{accepted, parse_ports, parses_to, ParseError, Port};

verus! {

/// The arguments of one run: the host to knock on, the ports in the order of
/// the knocks, and the pause after each knock in milliseconds.
#[derive(Debug, PartialEq, Eq)]
pub struct Args {
    pub remote: String,
    pub ports: Vec<Port>,
    pub delay: u64,
}

impl Args {
    /// The arguments of a run, from the port specifications as they were
    /// typed.
    ///
    /// Every token is parsed before anything else is done. Where all of them
    /// parse, the ports stand in the order of the tokens; else the error of
    /// the first token that does not parse is handed back.
    pub fn new(remote: String, tokens: &Vec<String>, delay: u64) -> (outcome: Result<
        Args,
        ParseError,
    >)
        ensures
            match outcome {
                Ok(args) => {
                    &&& args.remote == remote
                    &&& args.delay == delay
                    &&& args.ports@.len() == tokens@.len()
                    &&& forall|i: int|
                        0 <= i < tokens@.len() ==> parses_to(
                            #[trigger] tokens@[i]@,
                            Ok(args.ports@[i]),
                        )
                },
                Err(error) => exists|k: int|
                    {
                        &&& 0 <= k < tokens@.len()
                        &&& #[trigger] parses_to(tokens@[k]@, Err(error))
                        &&& forall|i: int| 0 <= i < k ==> accepted(#[trigger] tokens@[i]@)
                    },
            },
    {
        match parse_ports(tokens) {
            Ok(ports) => Ok(Args { remote, ports, delay }),
            Err(error) => Err(error),
        }
    }
}

} // verus!
