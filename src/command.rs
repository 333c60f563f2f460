//! Commands sent from a client, and the replies to them.
use vstd::prelude::*;

use crate::intcode;
use crate::intcode::IntCode;
use crate::opcode;
use crate::opcode::OpCode;
use crate::text;

verus! {

/// The game instructions, one line each.
pub open spec fn help_text() -> Seq<Seq<char>> {
    seq![
        "You can send me an intcode, i.e. a list of integers like '1,0,0,3,2,0,3,6,99'."@,
        "Index 0 is an opcode of the following: "@,
        "-  1 - add     : Adds together numbers read from two positions and stores a result in a third position."@,
        "-  2 - multiply: Does the same as 1 but with multiplication."@,
        "- 99 - exit    : Exits the program, i.e. closes the connection immediately."@,
        "Multiple opcodes can be sent in one intcode."@,
        "If no exit opcode is sent, I will accept further opcodes."@,
    ]
}

/// The game instructions, one line each.
pub fn help() -> (r: Vec<String>)
    ensures
        lines_of(r) == help_text(),
{
    let mut v: Vec<String> = Vec::new();
    v.push(
        String::from_str(
            "You can send me an intcode, i.e. a list of integers like '1,0,0,3,2,0,3,6,99'.",
        ),
    );
    v.push(String::from_str("Index 0 is an opcode of the following: "));
    v.push(
        String::from_str(
            "-  1 - add     : Adds together numbers read from two positions and stores a result in a third position.",
        ),
    );
    v.push(String::from_str("-  2 - multiply: Does the same as 1 but with multiplication."));
    v.push(
        String::from_str(
            "- 99 - exit    : Exits the program, i.e. closes the connection immediately.",
        ),
    );
    v.push(String::from_str("Multiple opcodes can be sent in one intcode."));
    v.push(String::from_str("If no exit opcode is sent, I will accept further opcodes."));
    assert(lines_of(v) =~= help_text());
    v
}

/// The text of each line.
pub open spec fn lines_of(v: Vec<String>) -> Seq<Seq<char>> {
    v@.map_values(|s: String| s@)
}

/// A reply on a `Command`: the lines to send, and whether to close the
/// connection.
pub type Reply = (Vec<String>, bool);

/// Any error that occurs on handling `Command`s.
#[derive(Debug, Clone, Copy, PartialEq, Eq, Structural)]
pub enum Error {
    /// The message could not be read as a string.
    ParseMessage,
    /// The string could not be parsed to an intcode.
    ParseIntCode(intcode::Error),
}

impl From<intcode::Error> for Error {
    fn from(e: intcode::Error) -> (r: Error)
        ensures
            r == Error::ParseIntCode(e),
    {
        Error::ParseIntCode(e)
    }
}

impl vstd::std_specs::convert::FromSpecImpl<intcode::Error> for Error {
    open spec fn obeys_from_spec() -> bool {
        true
    }

    open spec fn from_spec(e: intcode::Error) -> Error {
        Error::ParseIntCode(e)
    }
}

impl From<()> for Error {
    fn from(u: ()) -> (r: Error)
        ensures
            r == Error::ParseMessage,
    {
        Error::ParseMessage
    }
}

impl vstd::std_specs::convert::FromSpecImpl<()> for Error {
    open spec fn obeys_from_spec() -> bool {
        true
    }

    open spec fn from_spec(u: ()) -> Error {
        Error::ParseMessage
    }
}

/// A command parsed from a client's message.
#[derive(Debug, PartialEq)]
pub enum Command {
    /// Display the game instructions.
    Help,
    /// Close the connection.
    Quit,
    /// Calculate an intcode.
    IntCode(IntCode),
}

/// What a `Command` stands for.
pub enum CommandView {
    Help,
    Quit,
    IntCode(Seq<usize>),
}

impl View for Command {
    type V = CommandView;

    open spec fn view(&self) -> CommandView {
        match self {
            Command::Help => CommandView::Help,
            Command::Quit => CommandView::Quit,
            Command::IntCode(v) => CommandView::IntCode(v@),
        }
    }
}

/// The command that the line `t` states exactly, with no white space around it.
pub open spec fn command_of(t: Seq<char>) -> Result<CommandView, Error> {
    if t == "help"@ {
        Ok(CommandView::Help)
    } else if t == "quit"@ {
        Ok(CommandView::Quit)
    } else {
        match intcode::parsed(t) {
            Ok(v) => Ok(CommandView::IntCode(v)),
            Err(e) => Err(Error::ParseIntCode(e)),
        }
    }
}

/// The command that the line `t` states, white space around it aside.
pub open spec fn classified(t: Seq<char>) -> Result<CommandView, Error> {
    command_of(text::trimmed(t))
}

/// The one line that reports the run of the intcode `v`: the resulting intcode,
/// or the error that stopped it.
pub open spec fn outcome_line(v: Seq<usize>) -> Seq<char> {
    match opcode::run(v) {
        Ok(w) => intcode::literal(w),
        Err(e) => "Invalid OpCode: "@ + opcode::error_name(e),
    }
}

/// The reply on a command: its lines, and whether to close the connection.
pub open spec fn reply_of(c: CommandView) -> (Seq<Seq<char>>, bool) {
    match c {
        CommandView::Help => (help_text(), false),
        CommandView::Quit => (seq![], true),
        CommandView::IntCode(v) => (seq![outcome_line(v)], true),
    }
}

/// The reply on the line `t`; a line that states no command closes the
/// connection without a reply.
pub open spec fn response(t: Seq<char>) -> (Seq<Seq<char>>, bool) {
    match classified(t) {
        Ok(c) => reply_of(c),
        Err(_) => (seq![], true),
    }
}

impl Command {
    /// The intcode of the command, if it has one.
    pub fn intcode(&self) -> (r: Option<&IntCode>)
        ensures
            match self {
                Command::IntCode(v) => r == Some(v),
                _ => r is None,
            },
    {
        match self {
            Command::IntCode(v) => Some(v),
            _ => None,
        }
    }

    /// The reply on the command.
    ///
    /// `Help` gives the game instructions and keeps the connection; `Quit` gives
    /// nothing and closes it; an intcode is run, and the reply is the resulting
    /// intcode or `Invalid OpCode: ` and the error, after which the connection is
    /// closed.
    pub fn reply(&self) -> (r: Reply)
        ensures
            (lines_of(r.0), r.1) == reply_of(self@),
    {
        match self {
            Command::Help => (help(), false),
            Command::Quit => (Vec::new(), true),
            Command::IntCode(ic) => {
                let code = vstd::slice::slice_to_vec(ic.as_slice());
                let txt = match OpCode::process(code) {
                    Ok(done) => intcode::render(done.as_slice()),
                    Err(e) => {
                        let mut t = String::from_str("Invalid OpCode: ");
                        t.append(e.name());
                        t
                    },
                };
                let mut v: Vec<String> = Vec::new();
                v.push(txt);
                assert(lines_of(v) =~= seq![outcome_line(ic@)]);
                (v, true)
            },
        }
    }

    /// The command that the line `s` states exactly: `help`, `quit`, or the text
    /// of an intcode.
    pub fn from_line(s: &str) -> (r: Result<Command, Error>)
        ensures
            match r {
                Ok(c) => command_of(s@) == Ok::<CommandView, Error>(c@),
                Err(e) => command_of(s@) == Err::<CommandView, Error>(e),
            },
    {
        let owned = String::from_str(s);
        if owned == String::from_str("help") {
            return Ok(Command::Help);
        }
        if owned == String::from_str("quit") {
            return Ok(Command::Quit);
        }
        match intcode::parse(s) {
            Ok(code) => Ok(Command::IntCode(code)),
            Err(e) => Err(Error::ParseIntCode(e)),
        }
    }
}

impl core::str::FromStr for Command {
    type Err = Error;

    /// The command that the line `s` states exactly, as `Command::from_line`.
    fn from_str(s: &str) -> (r: Result<Command, Error>)
        ensures
            match r {
                Ok(c) => command_of(s@) == Ok::<CommandView, Error>(c@),
                Err(e) => command_of(s@) == Err::<CommandView, Error>(e),
            },
    {
        Command::from_line(s)
    }
}

/// Classifies a line from a client, white space around it aside.
pub fn classify(text: &str) -> (r: Result<Command, Error>)
    ensures
        match r {
            Ok(c) => classified(text@) == Ok::<CommandView, Error>(c@),
            Err(e) => classified(text@) == Err::<CommandView, Error>(e),
        },
{
    Command::from_line(text::trim(text))
}

/// The reply on a line from a client: the reply on its command, or, where the
/// line states none, no lines and the connection closed.
pub fn classify_and_render(text: &str) -> (r: Reply)
    ensures
        (lines_of(r.0), r.1) == response(text@),
{
    match classify(text) {
        Ok(c) => c.reply(),
        Err(_) => (Vec::new(), true),
    }
}

/// The text of a non-empty intcode is classified as that intcode.
pub proof fn lemma_classify_literal(s: Seq<usize>)
    requires
        s.len() > 0,
    ensures
        classified(intcode::literal(s)) == Ok::<CommandView, Error>(CommandView::IntCode(s)),
{
    let t = intcode::literal(s);
    let none = Seq::<char>::empty();
    assert(none + t + none =~= t);
    text::lemma_trim_padding(none, t, none);
    reveal_strlit("help");
    reveal_strlit("quit");
    assert(t[0] == '[');
    intcode::lemma_parse_render(s);
}

/// White space around a line does not change how it is classified, where the
/// line itself neither starts nor ends with white space.
pub proof fn lemma_classify_padding(pre: Seq<char>, line: Seq<char>, post: Seq<char>)
    requires
        forall|i: int| 0 <= i < pre.len() ==> text::is_space(#[trigger] pre[i]),
        forall|i: int| 0 <= i < post.len() ==> text::is_space(#[trigger] post[i]),
        line.len() > 0 ==> !text::is_space(line[0]) && !text::is_space(line.last()),
    ensures
        classified(pre + line + post) == classified(line),
{
    let none = Seq::<char>::empty();
    text::lemma_trim_padding(pre, line, post);
    assert(none + line + none =~= line);
    text::lemma_trim_padding(none, line, none);
}

/// `help` and `quit` are recognised whatever white space surrounds them.
pub proof fn lemma_help_quit_padding(pre: Seq<char>, post: Seq<char>)
    requires
        forall|i: int| 0 <= i < pre.len() ==> text::is_space(#[trigger] pre[i]),
        forall|i: int| 0 <= i < post.len() ==> text::is_space(#[trigger] post[i]),
    ensures
        classified(pre + "help"@ + post) == Ok::<CommandView, Error>(CommandView::Help),
        classified(pre + "quit"@ + post) == Ok::<CommandView, Error>(CommandView::Quit),
{
    reveal_strlit("help");
    reveal_strlit("quit");
    lemma_classify_padding(pre, "help"@, post);
    lemma_classify_padding(pre, "quit"@, post);
    lemma_classify_padding(Seq::<char>::empty(), "help"@, Seq::<char>::empty());
    lemma_classify_padding(Seq::<char>::empty(), "quit"@, Seq::<char>::empty());
    assert(Seq::<char>::empty() + "help"@ + Seq::<char>::empty() =~= "help"@);
    assert(Seq::<char>::empty() + "quit"@ + Seq::<char>::empty() =~= "quit"@);
}

} // verus!
