//! Decoding and executing the instructions of an intcode.
use vstd::prelude::*;

verus! {

/// Any error returned while decoding or executing an `OpCode`.
#[derive(Debug, Clone, Copy, PartialEq, Eq, Structural)]
pub enum Error {
    /// There is no `OpCode` associated with the number found at the given index.
    InvalidOpCode,
    /// The index for the `OpCode` does not exist.
    NoOpCode,
    /// The index for the next `OpCode` does not exist.
    NoNextOpCode,
    /// Not all indices for the execution arguments exist.
    MissingArgs,
    /// The execution arguments point to non-existing indices.
    InvalidArgIndices,
    /// There is no number to look up where to write the calculation result to.
    MissingResult,
    /// The index to write the calculation result to does not exist.
    InvalidResult,
    /// The calculation result does not fit in a `usize`.
    Overflow,
}

/// The name of an error, as its debug form writes it.
pub open spec fn error_name(e: Error) -> Seq<char> {
    match e {
        Error::InvalidOpCode => "InvalidOpCode"@,
        Error::NoOpCode => "NoOpCode"@,
        Error::NoNextOpCode => "NoNextOpCode"@,
        Error::MissingArgs => "MissingArgs"@,
        Error::InvalidArgIndices => "InvalidArgIndices"@,
        Error::MissingResult => "MissingResult"@,
        Error::InvalidResult => "InvalidResult"@,
        Error::Overflow => "Overflow"@,
    }
}

impl Error {
    /// The name of the error, as its debug form writes it.
    pub fn name(&self) -> (r: &'static str)
        ensures
            r@ == error_name(*self),
    {
        match self {
            Error::InvalidOpCode => "InvalidOpCode",
            Error::NoOpCode => "NoOpCode",
            Error::NoNextOpCode => "NoNextOpCode",
            Error::MissingArgs => "MissingArgs",
            Error::InvalidArgIndices => "InvalidArgIndices",
            Error::MissingResult => "MissingResult",
            Error::InvalidResult => "InvalidResult",
            Error::Overflow => "Overflow",
        }
    }
}

/// An instruction of an intcode.
///
/// `Add` and `Mul` hold the index of the intcode where they were decoded, which
/// is where their arguments are looked up from.
#[derive(Debug, Clone, Copy, PartialEq, Eq, Structural)]
pub enum OpCode {
    /// 1: adds the numbers at the positions named by the two following slots and
    /// stores the sum at the position named by the third.
    Add(usize),
    /// 2: the same as `Add`, with multiplication.
    Mul(usize),
    /// 99: stops the program.
    Halt,
}

/// The instruction that the number `value`, found at index `idx`, stands for.
pub open spec fn opcode_for(idx: usize, value: usize) -> Result<OpCode, Error> {
    if value == 1 {
        Ok(OpCode::Add(idx))
    } else if value == 2 {
        Ok(OpCode::Mul(idx))
    } else if value == 99 {
        Ok(OpCode::Halt)
    } else {
        Err(Error::InvalidOpCode)
    }
}

/// The instruction found at index `idx` of the intcode `s`.
pub open spec fn decode(s: Seq<usize>, idx: usize) -> Result<OpCode, Error> {
    if idx < s.len() {
        opcode_for(idx, s[idx as int])
    } else {
        Err(Error::NoOpCode)
    }
}

/// How many of the `n` argument slots that follow index `at` exist in `s`.
pub open spec fn present_args(s: Seq<usize>, at: int, n: int) -> int {
    if at + 1 + n <= s.len() {
        n
    } else if at + 1 <= s.len() {
        s.len() - at - 1
    } else {
        0
    }
}

/// The checks on the slots of an instruction at index `at` with `n` arguments.
///
/// The argument slots `at + 1 ..= at + n` hold indices of the arguments, slot
/// `at + n + 1` holds the index to write the result to, and slot `at + n + 2`
/// must exist for the next instruction. The slots are checked in that order, and
/// each argument slot is checked for existence before its value is.
/// On success: the argument indices, the result index and the next index.
pub open spec fn slots(s: Seq<usize>, at: int, n: int) -> Result<(Seq<usize>, usize, usize), Error> {
    let present = present_args(s, at, n);
    if exists|i: int| at + 1 <= i < at + 1 + present && #[trigger] s[i] >= s.len() {
        Err(Error::InvalidArgIndices)
    } else if present < n {
        Err(Error::MissingArgs)
    } else if at + n + 1 >= s.len() {
        Err(Error::MissingResult)
    } else if s[at + n + 1] >= s.len() {
        Err(Error::InvalidResult)
    } else if at + n + 2 >= s.len() {
        Err(Error::NoNextOpCode)
    } else {
        Ok((s.subrange(at + 1, at + 1 + n), s[at + n + 1], (at + n + 2) as usize))
    }
}

/// The value an arithmetic instruction computes from its two operands.
pub open spec fn combine(op: OpCode, a: int, b: int) -> int {
    match op {
        OpCode::Mul(_) => a * b,
        _ => a + b,
    }
}

/// One execution step of `op` on the intcode `s`: the new intcode and the index
/// of the next instruction, or `None` after `Halt`.
pub open spec fn step(op: OpCode, s: Seq<usize>) -> Result<(Seq<usize>, Option<usize>), Error> {
    match op {
        OpCode::Halt => Ok((s, None)),
        OpCode::Add(at) | OpCode::Mul(at) => match slots(s, at as int, 2) {
            Err(e) => Err(e),
            Ok((args, result, next)) => {
                let v = combine(op, s[args[0] as int] as int, s[args[1] as int] as int);
                if v > usize::MAX {
                    Err(Error::Overflow)
                } else {
                    Ok((s.update(result as int, v as usize), Some(next)))
                }
            },
        },
    }
}

/// Running the intcode `s` from the instruction at index `idx` until it halts
/// or fails. (A buffer in memory never holds more than `usize::MAX` numbers.)
pub open spec fn run_from(s: Seq<usize>, idx: usize) -> Result<Seq<usize>, Error>
    decreases s.len() - idx,
    when s.len() <= usize::MAX
{
    match decode(s, idx) {
        Err(e) => Err(e),
        Ok(op) => match step(op, s) {
            Err(e) => Err(e),
            Ok((t, None)) => Ok(t),
            Ok((t, Some(next))) => {
                proof {
                    lemma_step_advances(s, idx);
                }
                run_from(t, next)
            },
        },
    }
}

/// A step that goes on moves four slots forward, to an index inside the intcode,
/// and keeps the length of the intcode.
pub proof fn lemma_step_advances(s: Seq<usize>, idx: usize)
    requires
        s.len() <= usize::MAX,
        decode(s, idx) is Ok,
        step(decode(s, idx)->Ok_0, s) is Ok,
    ensures
        ({
            let (t, next) = step(decode(s, idx)->Ok_0, s)->Ok_0;
            &&& t.len() == s.len()
            &&& next matches Some(n) ==> n == idx + 4 && n < t.len()
        }),
{
}

/// Running the intcode `s` from index 0.
pub open spec fn run(s: Seq<usize>) -> Result<Seq<usize>, Error> {
    run_from(s, 0)
}

impl OpCode {
    /// Processes a complete intcode.
    ///
    /// Starts at index 0 by calling `new` and `execute` and goes on with the next
    /// index until an error comes up or `Halt` is executed. Every run ends: each
    /// step moves forward, and there is no jump.
    pub fn process(cmd_list: Vec<usize>) -> (r: Result<Vec<usize>, Error>)
        ensures
            match r {
                Ok(v) => run(cmd_list@) == Ok::<Seq<usize>, Error>(v@),
                Err(e) => run(cmd_list@) == Err::<Seq<usize>, Error>(e),
            },
    {
        let mut code = cmd_list;
        let len = code.len();
        let mut idx: usize = 0;
        loop
            invariant
                code@.len() == len,
                run_from(code@, idx) == run(cmd_list@),
            decreases len - idx,
        {
            let op = match OpCode::new(idx, &code) {
                Ok(op) => op,
                Err(e) => return Err(e),
            };
            let ghost before = code@;
            proof {
                if step(op, before) is Ok {
                    lemma_step_advances(before, idx);
                }
            }
            match op.execute(&mut code) {
                Ok(Some(next)) => {
                    idx = next;
                },
                Ok(None) => return Ok(code),
                Err(e) => return Err(e),
            }
        }
    }

    /// Executes the instruction on `cmd_list`.
    ///
    /// `Halt` returns `Ok(None)`. `Add` and `Mul` check their slots, write the sum
    /// or the product of their two arguments to the result index and return the
    /// index of the next instruction. On an error `cmd_list` is left as it was.
    pub fn execute(&self, cmd_list: &mut Vec<usize>) -> (r: Result<Option<usize>, Error>)
        ensures
            match step(*self, old(cmd_list)@) {
                Ok((t, next)) => r == Ok::<Option<usize>, Error>(next) && final(cmd_list)@ == t,
                Err(e) => r == Err::<Option<usize>, Error>(e) && final(cmd_list)@ == old(cmd_list)@,
            },
            // Only the result slot changes.
            r is Ok && !(*self is Halt) ==> ({
                let res = slots(old(cmd_list)@, self.index() as int, 2)->Ok_0.1;
                &&& final(cmd_list)@.len() == old(cmd_list)@.len()
                &&& forall|i: int| 0 <= i < old(cmd_list)@.len() && i != res
                    ==> #[trigger] final(cmd_list)@[i] == old(cmd_list)@[i]
            }),
    {
        match *self {
            OpCode::Halt => Ok(None),
            OpCode::Add(at) | OpCode::Mul(at) => {
                let (args, result, next_opcode) = match OpCode::check_indices(cmd_list, at, 2) {
                    Ok(t) => t,
                    Err(e) => return Err(e),
                };
                let a = cmd_list[args[0]];
                let b = cmd_list[args[1]];
                let v = match *self {
                    OpCode::Mul(_) => a.checked_mul(b),
                    _ => a.checked_add(b),
                };
                match v {
                    Some(v) => {
                        cmd_list.set(result, v);
                        Ok(Some(next_opcode))
                    },
                    None => Err(Error::Overflow),
                }
            },
        }
    }

    /// The index an `Add` or `Mul` was decoded at, 0 for `Halt`.
    pub open spec fn index(self) -> usize {
        match self {
            OpCode::Add(at) | OpCode::Mul(at) => at,
            OpCode::Halt => 0,
        }
    }

    /// Checks that the slots of an instruction at index `opcode` with `num_args`
    /// arguments exist, and returns them.
    ///
    /// The result is the list of argument indices, the index to write the result
    /// to, and the index of the next instruction. `cmd_list` is not changed.
    pub fn check_indices(cmd_list: &mut Vec<usize>, opcode: usize, num_args: usize) -> (r: Result<
        (Vec<usize>, usize, usize),
        Error,
    >)
        ensures
            *final(cmd_list) == *old(cmd_list),
            match slots(old(cmd_list)@, opcode as int, num_args as int) {
                Ok((args, result, next)) => r matches Ok((a, res, nx)) && a@ == args && res == result && nx == next,
                Err(e) => r == Err::<(Vec<usize>, usize, usize), Error>(e),
            },
    {
        let len = cmd_list.len();
        let ghost s = cmd_list@;
        // The number of slots after the opcode.
        let room: usize = if opcode < len {
            len - opcode - 1
        } else {
            0
        };
        assert(present_args(s, opcode as int, num_args as int) == if num_args <= room {
            num_args as int
        } else {
            room as int
        });
        let mut args: Vec<usize> = Vec::new();
        let mut k: usize = 0;
        while k < num_args
            invariant
                cmd_list@ == s,
                len == s.len(),
                room == if opcode < len {
                    len - opcode - 1
                } else {
                    0
                },
                k <= num_args,
                k <= room,
                room + opcode + 1 <= len || room == 0,
                args@.len() == k,
                forall|j: int| 0 <= j < k ==> #[trigger] args@[j] == s[opcode + 1 + j],
                forall|i: int| opcode + 1 <= i < opcode + 1 + k ==> #[trigger] s[i] < len,
            decreases num_args - k,
        {
            if k >= room {
                assert(forall|i: int|
                    opcode + 1 <= i < opcode + 1 + present_args(s, opcode as int, num_args as int)
                        ==> #[trigger] s[i] < len);
                return Err(Error::MissingArgs);
            }
            let arg = cmd_list[opcode + 1 + k];
            if arg >= len {
                return Err(Error::InvalidArgIndices);
            }
            args.push(arg);
            k = k + 1;
        }
        if num_args >= room {
            return Err(Error::MissingResult);
        }
        let result = cmd_list[opcode + num_args + 1];
        if result >= len {
            return Err(Error::InvalidResult);
        }
        if num_args + 1 >= room {
            return Err(Error::NoNextOpCode);
        }
        assert(args@ =~= s.subrange(opcode + 1, opcode + 1 + num_args));
        Ok((args, result, opcode + num_args + 2))
    }

    /// The instruction that the number `opcode`, found at index `idx`, stands for.
    pub fn parse(idx: usize, opcode: usize) -> (r: Result<OpCode, Error>)
        ensures
            r == opcode_for(idx, opcode),
    {
        match opcode {
            1 => Ok(OpCode::Add(idx)),
            2 => Ok(OpCode::Mul(idx)),
            99 => Ok(OpCode::Halt),
            _ => Err(Error::InvalidOpCode),
        }
    }

    /// Decodes the number at index `idx` of `cmd_list` as an instruction.
    ///
    /// Fails with `NoOpCode` when `cmd_list` has no index `idx`, and with
    /// `InvalidOpCode` when the number there is none of 1, 2 and 99.
    pub fn new(idx: usize, cmd_list: &[usize]) -> (r: Result<OpCode, Error>)
        ensures
            r == decode(cmd_list@, idx),
            // Inside the intcode, decoding gives an instruction or `InvalidOpCode`.
            idx < cmd_list@.len() ==> r is Ok || r == Err::<OpCode, Error>(Error::InvalidOpCode),
    {
        if idx >= cmd_list.len() {
            return Err(Error::NoOpCode);
        }
        OpCode::parse(idx, cmd_list[idx])
    }
}

} // verus!
