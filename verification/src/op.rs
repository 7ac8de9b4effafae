use crate::error::VmError;
use vstd::prelude::*;

verus! {

/// The closed set of operation kinds the machine knows.
///
/// Twelve kinds take no inline argument; `PushInt`, `Jmp` and `JmpEqZ`
/// each carry one inline argument in the instruction stream (the
/// literal to push, or the absolute target instruction index).
#[derive(Debug, Clone, Copy, PartialEq, Eq, Structural)]
pub enum Operation {
    /// Does nothing.
    Nop,
    /// Pushes its inline argument onto the operand stack.
    PushInt,
    /// Pops one value and records it as the last-popped value.
    PopInt,
    /// Pushes a copy of the value on top of the stack.
    Dup,
    /// Continues execution at its inline argument, an absolute
    /// instruction index.
    Jmp,
    /// Pops one value; if it is zero, continues at its inline argument.
    JmpEqZ,
    /// Pops two values and pushes their sum.
    Add,
    /// Pops two values and pushes the second popped minus the first.
    Sub,
    /// Pops two values and pushes their product.
    Mul,
    /// Pops two values and pushes the second popped divided by the
    /// first.
    Div,
    /// Pops two values and pushes the second popped reduced modulo the
    /// first.
    Mod,
    /// Pops one value and emits it on the output channel.
    Print,
    /// Reserved; executing it fails with `UnsupportedOperation`.
    Input,
    /// Swaps the two values on top of the stack.
    Swp,
    /// Reserved; executing it fails with `UnsupportedOperation`.
    Debug,
}

/// The fixed, total mapping from the raw opcode space to operation
/// kinds; codes outside `0 ..= 14` belong to no operation.
pub open spec fn op_of_code(c: int) -> Option<Operation> {
    if c == 0 {
        Some(Operation::Nop)
    } else if c == 1 {
        Some(Operation::PushInt)
    } else if c == 2 {
        Some(Operation::PopInt)
    } else if c == 3 {
        Some(Operation::Dup)
    } else if c == 4 {
        Some(Operation::Jmp)
    } else if c == 5 {
        Some(Operation::JmpEqZ)
    } else if c == 6 {
        Some(Operation::Add)
    } else if c == 7 {
        Some(Operation::Sub)
    } else if c == 8 {
        Some(Operation::Mul)
    } else if c == 9 {
        Some(Operation::Div)
    } else if c == 10 {
        Some(Operation::Mod)
    } else if c == 11 {
        Some(Operation::Print)
    } else if c == 12 {
        Some(Operation::Input)
    } else if c == 13 {
        Some(Operation::Swp)
    } else if c == 14 {
        Some(Operation::Debug)
    } else {
        None
    }
}

impl Operation {
    /// Whether this operation kind carries one inline argument in the
    /// instruction stream.
    pub open spec fn takes_arg(self) -> bool {
        self is PushInt || self is Jmp || self is JmpEqZ
    }

    /// Executable counterpart of [`Operation::takes_arg`].
    pub fn requires_arg(&self) -> (r: bool)
        ensures
            r == self.takes_arg(),
    {
        matches!(*self, Operation::PushInt | Operation::Jmp | Operation::JmpEqZ)
    }

    /// Maps a raw opcode to its operation kind, or `None` for a code
    /// outside the valid opcode space.
    pub fn from_code(c: usize) -> (r: Option<Operation>)
        ensures
            r == op_of_code(c as int),
    {
        match c {
            0 => Some(Operation::Nop),
            1 => Some(Operation::PushInt),
            2 => Some(Operation::PopInt),
            3 => Some(Operation::Dup),
            4 => Some(Operation::Jmp),
            5 => Some(Operation::JmpEqZ),
            6 => Some(Operation::Add),
            7 => Some(Operation::Sub),
            8 => Some(Operation::Mul),
            9 => Some(Operation::Div),
            10 => Some(Operation::Mod),
            11 => Some(Operation::Print),
            12 => Some(Operation::Input),
            13 => Some(Operation::Swp),
            14 => Some(Operation::Debug),
            _ => None,
        }
    }

    /// Builds an instruction from this operation and an optional
    /// argument, checking that the argument's presence matches the
    /// operation's arity.
    pub fn op(self, v: Option<i32>) -> (r: Result<Op, VmError>)
        ensures
            (match v {
                Some(arg) => {
                    &&& self.takes_arg() ==> ({
                        &&& r matches Ok(o)
                        &&& o@ == (Instr { op: self, arg: Some(arg) })
                    })
                    &&& !self.takes_arg() ==> r == Err::<Op, VmError>(VmError::InvalidInstruction)
                },
                None => {
                    &&& !self.takes_arg() ==> ({
                        &&& r matches Ok(o)
                        &&& o@ == (Instr { op: self, arg: None::<i32> })
                    })
                    &&& self.takes_arg() ==> r == Err::<Op, VmError>(VmError::InvalidInstruction)
                },
            }),
    {
        if let Some(arg) = v {
            self.op_1(arg)
        } else {
            self.op_0()
        }
    }

    /// Builds a bare instruction from this operation; fails with
    /// `InvalidInstruction` if the operation takes an argument.
    pub fn op_0(self) -> (r: Result<Op, VmError>)
        ensures
            !self.takes_arg() ==> ({
                &&& r matches Ok(o)
                &&& o@ == (Instr { op: self, arg: None::<i32> })
            }),
            self.takes_arg() ==> r == Err::<Op, VmError>(VmError::InvalidInstruction),
    {
        Op::new_0(self)
    }

    /// Builds an instruction carrying `arg` from this operation; fails
    /// with `InvalidInstruction` if the operation takes no argument.
    pub fn op_1(self, arg: i32) -> (r: Result<Op, VmError>)
        ensures
            self.takes_arg() ==> ({
                &&& r matches Ok(o)
                &&& o@ == (Instr { op: self, arg: Some(arg) })
            }),
            !self.takes_arg() ==> r == Err::<Op, VmError>(VmError::InvalidInstruction),
    {
        Op::new_1(self, arg)
    }
}

/// The mathematical view of one typed instruction: an operation kind
/// together with its optional inline argument.
pub ghost struct Instr {
    /// The operation kind.
    pub op: Operation,
    /// The inline argument, present exactly for the one-argument kinds
    /// when the instruction is well formed.
    pub arg: Option<i32>,
}

impl Instr {
    /// The arity invariant: the argument is present if and only if the
    /// operation is a one-argument kind.
    pub open spec fn wf(self) -> bool {
        (self.arg is Some) == self.op.takes_arg()
    }
}

/// One typed instruction: an operation plus an optional integer
/// argument. The checked constructors only ever build instructions
/// whose argument matches the operation's arity.
#[derive(Debug, Clone, Copy)]
pub struct Op {
    operation: Operation,
    arg: Option<i32>,
}

impl View for Op {
    type V = Instr;

    closed spec fn view(&self) -> Instr {
        Instr { op: self.operation, arg: self.arg }
    }
}

impl Op {
    /// Builds a bare instruction; fails with `InvalidInstruction` if
    /// `op` takes an argument.
    pub fn new_0(op: Operation) -> (r: Result<Op, VmError>)
        ensures
            !op.takes_arg() ==> ({
                &&& r matches Ok(o)
                &&& o@ == (Instr { op, arg: None::<i32> })
            }),
            op.takes_arg() ==> r == Err::<Op, VmError>(VmError::InvalidInstruction),
    {
        if op.requires_arg() {
            Err(VmError::InvalidInstruction)
        } else {
            Ok(Op { operation: op, arg: None })
        }
    }

    /// Builds an instruction carrying `arg`; fails with
    /// `InvalidInstruction` if `op` takes no argument.
    pub fn new_1(op: Operation, arg: i32) -> (r: Result<Op, VmError>)
        ensures
            op.takes_arg() ==> ({
                &&& r matches Ok(o)
                &&& o@ == (Instr { op, arg: Some(arg) })
            }),
            !op.takes_arg() ==> r == Err::<Op, VmError>(VmError::InvalidInstruction),
    {
        if op.requires_arg() {
            Ok(Op { operation: op, arg: Some(arg) })
        } else {
            Err(VmError::InvalidInstruction)
        }
    }

    /// The operation kind of this instruction.
    pub fn op(&self) -> (r: &Operation)
        ensures
            *r == self@.op,
    {
        &self.operation
    }

    /// The inline argument, if this instruction carries one.
    pub fn arg(&self) -> (r: Option<i32>)
        ensures
            r == self@.arg,
    {
        self.arg
    }

    /// The inline argument; reading it from an instruction that has
    /// none is an `InvalidInstruction` condition, never a silent zero.
    pub fn unwrap_arg(&self) -> (r: Result<i32, VmError>)
        ensures
            self@.arg matches Some(a) ==> r == Ok::<i32, VmError>(a),
            self@.arg is None ==> r == Err::<i32, VmError>(VmError::InvalidInstruction),
    {
        match self.arg {
            Some(a) => Ok(a),
            None => Err(VmError::InvalidInstruction),
        }
    }
}

/// What reading one instruction of the raw code stream at a given
/// position yields.
pub ghost enum Decoded {
    /// The stream was already exhausted: the sequence of instructions
    /// ends normally.
    End,
    /// One whole instruction, and the position at which the next read
    /// starts.
    Item {
        /// The decoded instruction.
        instr: Instr,
        /// The stream position just past this instruction.
        next: int,
    },
    /// The stream is malformed at this position.
    Fail {
        /// The decoding error.
        err: VmError,
    },
}

/// The meaning of one decoding step: reading at position `i` of the
/// raw stream `codes`.
///
/// One code is read and mapped to its operation; a one-argument
/// operation consumes exactly one further element of the stream as its
/// literal argument, and a stream that ends at that point is truncated.
/// A position at or past the end of the stream is the normal end of
/// the sequence, not an error.
pub open spec fn decode_at(codes: Seq<usize>, i: int) -> Decoded {
    if !(0 <= i < codes.len()) {
        Decoded::End
    } else {
        match op_of_code(codes[i] as int) {
            None => Decoded::Fail { err: VmError::UnknownOpcode { at: i as usize } },
            Some(op) => {
                if !op.takes_arg() {
                    Decoded::Item { instr: Instr { op, arg: None }, next: i + 1 }
                } else if i + 1 < codes.len() {
                    Decoded::Item {
                        instr: Instr { op, arg: Some(codes[i + 1] as i32) },
                        next: i + 2,
                    }
                } else {
                    Decoded::Fail { err: VmError::TruncatedInstruction { at: i as usize } }
                }
            },
        }
    }
}

/// Every instruction the decoder yields satisfies the arity invariant:
/// its argument is present exactly when its operation takes one.
pub proof fn lemma_decoded_instruction_wf(codes: Seq<usize>, i: int)
    ensures
        decode_at(codes, i) matches Decoded::Item { instr, .. } ==> instr.wf(),
{
}

/// A stream that ends right after a one-argument opcode (the argument
/// is missing) fails to decode with `TruncatedInstruction`, while a
/// read starting cleanly at the end of the stream ends the sequence
/// normally.
pub proof fn lemma_decode_at_stream_end(codes: Seq<usize>, i: int)
    ensures
        ({
            &&& 0 <= i == codes.len() - 1
            &&& op_of_code(codes[i] as int) matches Some(op)
            &&& op.takes_arg()
        }) ==> decode_at(codes, i) == (Decoded::Fail {
            err: VmError::TruncatedInstruction { at: i as usize },
        }),
        i >= codes.len() ==> decode_at(codes, i) == Decoded::End,
{
}

/// The whole raw stream read from position `i` on: the sequence of
/// typed instructions it encodes, or the first error met.
pub open spec fn decode_from(codes: Seq<usize>, i: int) -> Result<Seq<Instr>, VmError>
    decreases codes.len() - i,
{
    match decode_at(codes, i) {
        Decoded::End => Ok(Seq::empty()),
        Decoded::Fail { err } => Err(err),
        Decoded::Item { instr, next } => match decode_from(codes, next) {
            Ok(rest) => Ok(seq![instr] + rest),
            Err(err) => Err(err),
        },
    }
}

/// A single-pass reader of the raw code stream, yielding one typed
/// instruction per call to [`OpIter::next`].
pub struct OpIter {
    raw: Vec<usize>,
    idx: usize,
}

impl OpIter {
    /// The raw code stream this reader walks.
    pub closed spec fn codes(self) -> Seq<usize> {
        self.raw@
    }

    /// The position of the next read.
    pub closed spec fn pos(self) -> int {
        self.idx as int
    }

    /// Starts a reader at the beginning of `codes`.
    pub fn new(codes: Vec<usize>) -> (r: OpIter)
        ensures
            r.codes() == codes@,
            r.pos() == 0,
    {
        OpIter { raw: codes, idx: 0 }
    }

    /// Reads the next whole instruction, per [`decode_at`]: `Ok(None)`
    /// at the normal end of the stream, `Ok(Some(..))` for an
    /// instruction, and the decoding error for a malformed stream,
    /// which leaves the reader where it stood.
    pub fn next(&mut self) -> (r: Result<Option<Op>, VmError>)
        ensures
            final(self).codes() == old(self).codes(),
            (match decode_at(old(self).codes(), old(self).pos()) {
                Decoded::End => {
                    &&& r == Ok::<Option<Op>, VmError>(None::<Op>)
                    &&& final(self).pos() == old(self).pos()
                },
                Decoded::Item { instr, next } => {
                    &&& r matches Ok(Some(o))
                    &&& o@ == instr
                    &&& final(self).pos() == next
                },
                Decoded::Fail { err } => {
                    &&& r == Err::<Option<Op>, VmError>(err)
                    &&& final(self).pos() == old(self).pos()
                },
            }),
    {
        if self.idx >= self.raw.len() {
            return Ok(None);
        }
        let at: usize = self.idx;
        let op = match Operation::from_code(self.raw[at]) {
            Some(op) => op,
            None => {
                return Err(VmError::UnknownOpcode { at });
            },
        };
        if !op.requires_arg() {
            self.idx = at + 1;
            Ok(Some(Op { operation: op, arg: None }))
        } else if at + 1 < self.raw.len() {
            let literal: usize = self.raw[at + 1];
            self.idx = at + 2;
            Ok(Some(Op { operation: op, arg: Some(#[verifier::truncate] (literal as i32)) }))
        } else {
            Err(VmError::TruncatedInstruction { at })
        }
    }
}

/// Decodes a whole raw stream into a materialized program, or fails
/// with the first decoding error, per [`decode_from`].
pub fn decode_program(codes: Vec<usize>) -> (r: Result<Vec<Op>, VmError>)
    ensures
        (match r {
            Ok(prog) => decode_from(codes@, 0) == Ok::<Seq<Instr>, VmError>(
                prog@.map_values(|o: Op| o@),
            ),
            Err(err) => decode_from(codes@, 0) == Err::<Seq<Instr>, VmError>(err),
        }),
{
    let mut reader = OpIter::new(codes);
    let mut prog: Vec<Op> = Vec::new();
    loop
        invariant
            reader.codes() == codes@,
            (match decode_from(codes@, reader.pos()) {
                Ok(rest) => decode_from(codes@, 0) == Ok::<Seq<Instr>, VmError>(
                    prog@.map_values(|o: Op| o@) + rest,
                ),
                Err(err) => decode_from(codes@, 0) == Err::<Seq<Instr>, VmError>(err),
            }),
        decreases codes@.len() - reader.pos(),
    {
        let ghost pos_before = reader.pos();
        let ghost decoded_before = prog@.map_values(|o: Op| o@);
        match reader.next() {
            Ok(Some(op)) => {
                prog.push(op);
                proof {
                    assert(prog@.map_values(|o: Op| o@) =~= decoded_before + seq![op@]);
                    if let Ok(rest) = decode_from(codes@, reader.pos()) {
                        assert(decoded_before + (seq![op@] + rest) =~= (decoded_before + seq![
                            op@,
                        ]) + rest);
                    }
                }
            },
            Ok(None) => {
                return Ok(prog);
            },
            Err(err) => {
                return Err(err);
            },
        }
    }
}

} // verus!
