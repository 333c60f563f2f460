//! Text that the server hands out outside of the command protocol.
use vstd::prelude::*;

use crate::command;
use crate::command::help_text;
use crate::command::lines_of;
use crate::intcode;

verus! {

/// Where clients connect to send intcodes.
pub open spec fn connect_line() -> Seq<char> {
    "To do that you, please connect to ws://127.0.0.1:8000/opcode and I will give you back the modified opcode."@
}

/// The server's greeting: a welcome, the game instructions, and where to connect.
pub open spec fn greeting_text() -> Seq<char> {
    let h = help_text();
    "Welcome to opcode server!\n\n"@ + h[0] + "\n\n"@ + connect_line() + "\n\n"@ + h[1] + "\n"@
        + h[2] + "\n"@ + h[3] + "\n"@ + h[4] + "\n"@ + h[5] + "\n\n"@ + h[6] + "\n"@
}

/// The server's greeting.
pub fn greeting() -> (r: String)
    ensures
        r@ == greeting_text(),
{
    let help = command::help();
    assert(help@.len() == 7) by {
        assert(lines_of(help).len() == help@.len());
    }
    assert forall|i: int| 0 <= i < 7 implies #[trigger] help@[i]@ == help_text()[i] by {
        assert(lines_of(help)[i] == help@[i]@);
    }
    let mut g = String::from_str("Welcome to opcode server!\n\n");
    g.append(help[0].as_str());
    g.append("\n\n");
    g.append(
        "To do that you, please connect to ws://127.0.0.1:8000/opcode and I will give you back the modified opcode.",
    );
    g.append("\n\n");
    g.append(help[1].as_str());
    g.append("\n");
    g.append(help[2].as_str());
    g.append("\n");
    g.append(help[3].as_str());
    g.append("\n");
    g.append(help[4].as_str());
    g.append("\n");
    g.append(help[5].as_str());
    g.append("\n\n");
    g.append(help[6].as_str());
    g.append("\n");
    g
}

/// The page that the plain HTTP greeting serves.
pub open spec fn welcome_page() -> Seq<char> {
    "Welcome to opcode server!\n\nYou can send me an intcode, i.e. a list of integers like '(1,0,0,3,99)'.\n\nIndex 0 is an opcode of the following:\n    -  1 - add     : Adds together numbers read from two positions and stores a result in a third position.\n    -  2 - multiply: Does the same as 1 but with multiplication.\n    - 99 - exit    : Exits the program, i.e. closes the connection immediately.\n\nIf no exit opcode is sent, I will accept further opcodes.\n"@
}

/// The plain HTTP response that carries the welcome page. The page is ASCII, so
/// its length in characters is its length in bytes.
pub open spec fn http_greeting_text() -> Seq<char> {
    "HTTP/1.1 200 OK\r\r\nContent-Length: "@ + intcode::decimal(welcome_page().len()) + "\r\n\r\n"@
        + welcome_page()
}

/// The plain HTTP response that carries the welcome page.
pub fn http_greeting() -> (r: String)
    ensures
        r@ == http_greeting_text(),
{
    let page = "Welcome to opcode server!\n\nYou can send me an intcode, i.e. a list of integers like '(1,0,0,3,99)'.\n\nIndex 0 is an opcode of the following:\n    -  1 - add     : Adds together numbers read from two positions and stores a result in a third position.\n    -  2 - multiply: Does the same as 1 but with multiplication.\n    - 99 - exit    : Exits the program, i.e. closes the connection immediately.\n\nIf no exit opcode is sent, I will accept further opcodes.\n";
    let mut r = String::from_str("HTTP/1.1 200 OK\r\r\nContent-Length: ");
    intcode::push_decimal(&mut r, page.unicode_len());
    r.append("\r\n\r\n");
    r.append(page);
    r
}

} // verus!
