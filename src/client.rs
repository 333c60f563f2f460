//! What the command line client decides without the network.
use vstd::prelude::*;

verus! {

/// The address the client connects to unless told otherwise.
pub open spec fn default_addr() -> Seq<char> {
    "ws://localhost:8000/opcode"@
}

/// The client's command line arguments.
pub struct Args {
    /// The web socket address of the server.
    pub connect_addr: String,
}

impl Default for Args {
    fn default() -> (r: Args)
        ensures
            r.connect_addr@ == default_addr(),
    {
        Args { connect_addr: String::from_str("ws://localhost:8000/opcode") }
    }
}

/// Whether a line typed by the user ends the client: exactly `quit` and a
/// newline.
pub fn is_quit_input(line: &str) -> (r: bool)
    ensures
        r == (line@ == "quit\n"@),
{
    String::from_str(line) == String::from_str("quit\n")
}

} // verus!
