use crate::error::VmError;
use crate::op::{Instr, Op, Operation};
use vstd::prelude::*;

verus! {

/// The mathematical state of one run: the operand stack (last element
/// is the top), the program counter, the last-popped register, and the
/// sequence of values emitted so far.
pub ghost struct Machine {
    /// The operand stack; the last element of the sequence is the top.
    pub stack: Seq<i32>,
    /// The index of the next instruction to fetch. It may leave the
    /// valid range in either direction, which halts the run.
    pub pc: int,
    /// The most recent value removed from the stack by `PopInt`,
    /// `JmpEqZ` or `Print`, if any value was ever removed.
    pub last_pop: Option<i32>,
    /// The values emitted by `Print`, oldest first.
    pub output: Seq<i32>,
}

/// The machine state every run starts from: empty stack, program
/// counter zero, nothing popped, nothing emitted.
pub open spec fn init_machine() -> Machine {
    Machine { stack: Seq::empty(), pc: 0, last_pop: None, output: Seq::empty() }
}

/// The program a sequence of typed instructions stands for.
pub open spec fn prog_of(instrs: Seq<Op>) -> Seq<Instr> {
    instrs.map_values(|o: Op| o@)
}

/// A run halts, normally, exactly when the program counter leaves the
/// valid instruction range. There is no halt instruction.
pub open spec fn halted(prog: Seq<Instr>, m: Machine) -> bool {
    !(0 <= m.pc < prog.len())
}

/// The quotient the machine pushes for `Div`: truncating division,
/// wrapping on overflow of the one overflowing case.
pub open spec fn wrap_div(b: i32, a: i32) -> i32
    recommends
        a != 0,
{
    match b.checked_div(a) {
        Some(q) => q,
        None => i32::MIN,
    }
}

/// The remainder the machine pushes for `Mod`: the truncating
/// remainder, wrapping on overflow of the one overflowing case.
pub open spec fn wrap_rem(b: i32, a: i32) -> i32
    recommends
        a != 0,
{
    match b.checked_rem(a) {
        Some(r) => r,
        None => 0,
    }
}

/// How many operand-stack values each operation consumes.
pub open spec fn operands_needed(op: Operation) -> nat {
    match op {
        Operation::Nop => 0,
        Operation::PushInt => 0,
        Operation::PopInt => 1,
        Operation::Dup => 1,
        Operation::Jmp => 0,
        Operation::JmpEqZ => 1,
        Operation::Add => 2,
        Operation::Sub => 2,
        Operation::Mul => 2,
        Operation::Div => 2,
        Operation::Mod => 2,
        Operation::Print => 1,
        Operation::Input => 0,
        Operation::Swp => 2,
        Operation::Debug => 0,
    }
}

/// One iteration of the fetch-decode-execute loop of a machine that
/// has not halted: the next machine state, or the typed failure that
/// aborts the run.
///
/// The default advance of the program counter is one instruction;
/// `Jmp` and a taken `JmpEqZ` set it so that the next counter is
/// exactly their target. Arithmetic wraps around on overflow. An
/// instruction whose argument does not match its operation's arity
/// fails loudly with `InvalidInstruction` (the decoder never yields
/// one); `Input` and `Debug` are recognized but unimplemented and
/// never silently do nothing.
pub open spec fn step(prog: Seq<Instr>, m: Machine) -> Result<Machine, VmError>
    recommends
        !halted(prog, m),
{
    let i = prog[m.pc];
    let pc = m.pc;
    if !i.wf() {
        Err(VmError::InvalidInstruction)
    } else {
        match i.op {
            Operation::Nop => Ok(
                Machine { stack: m.stack, pc: pc + 1, last_pop: m.last_pop, output: m.output },
            ),
            Operation::PushInt => Ok(
                Machine {
                    stack: m.stack.push(i.arg.unwrap()),
                    pc: pc + 1,
                    last_pop: m.last_pop,
                    output: m.output,
                },
            ),
            Operation::PopInt => if m.stack.len() < 1 {
                Err(VmError::StackUnderflow { pc: pc as usize })
            } else {
                Ok(
                    Machine {
                        stack: m.stack.drop_last(),
                        pc: pc + 1,
                        last_pop: Some(m.stack.last()),
                        output: m.output,
                    },
                )
            },
            Operation::Dup => if m.stack.len() < 1 {
                Err(VmError::StackUnderflow { pc: pc as usize })
            } else {
                Ok(
                    Machine {
                        stack: m.stack.push(m.stack.last()),
                        pc: pc + 1,
                        last_pop: m.last_pop,
                        output: m.output,
                    },
                )
            },
            Operation::Swp => if m.stack.len() < 2 {
                Err(VmError::StackUnderflow { pc: pc as usize })
            } else {
                Ok(
                    Machine {
                        stack: m.stack.drop_last().drop_last().push(m.stack.last()).push(
                            m.stack[m.stack.len() - 2],
                        ),
                        pc: pc + 1,
                        last_pop: m.last_pop,
                        output: m.output,
                    },
                )
            },
            Operation::Jmp => Ok(
                Machine {
                    stack: m.stack,
                    pc: i.arg.unwrap() as int,
                    last_pop: m.last_pop,
                    output: m.output,
                },
            ),
            Operation::JmpEqZ => if m.stack.len() < 1 {
                Err(VmError::StackUnderflow { pc: pc as usize })
            } else {
                Ok(
                    Machine {
                        stack: m.stack.drop_last(),
                        pc: if m.stack.last() == 0 {
                            i.arg.unwrap() as int
                        } else {
                            pc + 1
                        },
                        last_pop: Some(m.stack.last()),
                        output: m.output,
                    },
                )
            },
            Operation::Add => if m.stack.len() < 2 {
                Err(VmError::StackUnderflow { pc: pc as usize })
            } else {
                Ok(
                    Machine {
                        stack: m.stack.drop_last().drop_last().push(
                            m.stack[m.stack.len() - 2].wrapping_add(m.stack.last()),
                        ),
                        pc: pc + 1,
                        last_pop: m.last_pop,
                        output: m.output,
                    },
                )
            },
            Operation::Sub => if m.stack.len() < 2 {
                Err(VmError::StackUnderflow { pc: pc as usize })
            } else {
                Ok(
                    Machine {
                        stack: m.stack.drop_last().drop_last().push(
                            m.stack[m.stack.len() - 2].wrapping_sub(m.stack.last()),
                        ),
                        pc: pc + 1,
                        last_pop: m.last_pop,
                        output: m.output,
                    },
                )
            },
            Operation::Mul => if m.stack.len() < 2 {
                Err(VmError::StackUnderflow { pc: pc as usize })
            } else {
                Ok(
                    Machine {
                        stack: m.stack.drop_last().drop_last().push(
                            m.stack[m.stack.len() - 2].wrapping_mul(m.stack.last()),
                        ),
                        pc: pc + 1,
                        last_pop: m.last_pop,
                        output: m.output,
                    },
                )
            },
            Operation::Div => if m.stack.len() < 2 {
                Err(VmError::StackUnderflow { pc: pc as usize })
            } else if m.stack.last() == 0 {
                Err(VmError::DivisionByZero { pc: pc as usize })
            } else {
                Ok(
                    Machine {
                        stack: m.stack.drop_last().drop_last().push(
                            wrap_div(m.stack[m.stack.len() - 2], m.stack.last()),
                        ),
                        pc: pc + 1,
                        last_pop: m.last_pop,
                        output: m.output,
                    },
                )
            },
            Operation::Mod => if m.stack.len() < 2 {
                Err(VmError::StackUnderflow { pc: pc as usize })
            } else if m.stack.last() == 0 {
                Err(VmError::DivisionByZero { pc: pc as usize })
            } else {
                Ok(
                    Machine {
                        stack: m.stack.drop_last().drop_last().push(
                            wrap_rem(m.stack[m.stack.len() - 2], m.stack.last()),
                        ),
                        pc: pc + 1,
                        last_pop: m.last_pop,
                        output: m.output,
                    },
                )
            },
            Operation::Print => if m.stack.len() < 1 {
                Err(VmError::StackUnderflow { pc: pc as usize })
            } else {
                Ok(
                    Machine {
                        stack: m.stack.drop_last(),
                        pc: pc + 1,
                        last_pop: Some(m.stack.last()),
                        output: m.output.push(m.stack.last()),
                    },
                )
            },
            Operation::Input => Err(VmError::UnsupportedOperation { pc: pc as usize }),
            Operation::Debug => Err(VmError::UnsupportedOperation { pc: pc as usize }),
        }
    }
}

/// The machine after at most `n` iterations of the loop: iteration
/// stops early at a halted machine (which stays halted) and an error
/// is final.
pub open spec fn run_n(prog: Seq<Instr>, m: Machine, n: nat) -> Result<Machine, VmError>
    decreases n,
{
    if n == 0 {
        Ok(m)
    } else {
        match run_n(prog, m, (n - 1) as nat) {
            Ok(m2) => if halted(prog, m2) {
                Ok(m2)
            } else {
                step(prog, m2)
            },
            Err(err) => Err(err),
        }
    }
}

/// Law: a push of `v` immediately followed by a pop leaves `v` in the
/// last-popped register, for every representable `v`, from any machine
/// state. The stack is as it was and execution continues right after
/// the pair.
pub proof fn lemma_push_then_pop(prog: Seq<Instr>, m: Machine, v: i32)
    requires
        0 <= m.pc,
        m.pc + 1 < prog.len(),
        prog[m.pc] == (Instr { op: Operation::PushInt, arg: Some(v) }),
        prog[m.pc + 1] == (Instr { op: Operation::PopInt, arg: None::<i32> }),
    ensures
        ({
            &&& step(prog, m) matches Ok(m1)
            &&& step(prog, m1) matches Ok(m2)
            &&& m2.last_pop == Some(v)
            &&& m2.stack == m.stack
            &&& m2.pc == m.pc + 2
        }),
{
    let m1 = step(prog, m)->Ok_0;
    assert(m1.stack.last() == v);
    assert(m1.stack.drop_last() =~= m.stack);
}

/// Law: `Add` pushes the sum of the two most recently pushed values,
/// and that sum does not depend on the order in which the two were
/// pushed (the wrapping sum is commutative); `Sub` and `Div` stay
/// order-sensitive by their own clauses in [`step`].
pub proof fn lemma_add_sum_of_top_two(prog: Seq<Instr>, m: Machine, x: i32, y: i32)
    requires
        0 <= m.pc < prog.len(),
        prog[m.pc] == (Instr { op: Operation::Add, arg: None::<i32> }),
        m.stack.len() >= 2,
        m.stack[m.stack.len() - 2] == x,
        m.stack[m.stack.len() - 1] == y,
    ensures
        step(prog, m) == Ok::<Machine, VmError>(
            Machine {
                stack: m.stack.drop_last().drop_last().push(x.wrapping_add(y)),
                pc: m.pc + 1,
                last_pop: m.last_pop,
                output: m.output,
            },
        ),
        x.wrapping_add(y) == y.wrapping_add(x),
{
}

/// Law: two machines that differ only in the order in which their two
/// topmost values were pushed take the very same `Add` step.
pub proof fn lemma_add_push_order_irrelevant(prog: Seq<Instr>, m1: Machine, m2: Machine)
    requires
        0 <= m1.pc < prog.len(),
        prog[m1.pc] == (Instr { op: Operation::Add, arg: None::<i32> }),
        m1.stack.len() >= 2,
        m2.pc == m1.pc,
        m2.last_pop == m1.last_pop,
        m2.output == m1.output,
        m2.stack == m1.stack.drop_last().drop_last().push(m1.stack.last()).push(
            m1.stack[m1.stack.len() - 2],
        ),
    ensures
        step(prog, m1) == step(prog, m2),
{
    let x = m1.stack[m1.stack.len() - 2];
    let y = m1.stack.last();
    assert(m2.stack.drop_last().drop_last() =~= m1.stack.drop_last().drop_last());
    assert(m2.stack[m2.stack.len() - 2] == y);
    assert(m2.stack.last() == x);
    lemma_add_sum_of_top_two(prog, m1, x, y);
    lemma_add_sum_of_top_two(prog, m2, y, x);
}

/// Law: a jump to `target` resumes execution exactly at `target`,
/// whether the target lies forward, backward, or at the program's
/// length — in which case the machine halts. Nothing else of the
/// machine changes.
pub proof fn lemma_jump_absolute(prog: Seq<Instr>, m: Machine, target: i32)
    requires
        0 <= m.pc < prog.len(),
        prog[m.pc] == (Instr { op: Operation::Jmp, arg: Some(target) }),
    ensures
        ({
            &&& step(prog, m) matches Ok(m1)
            &&& m1.pc == target as int
            &&& m1.stack == m.stack
            &&& m1.last_pop == m.last_pop
            &&& m1.output == m.output
            &&& (target as int == prog.len() ==> halted(prog, m1))
        }),
{
}

/// Law: a conditional jump pops exactly one value and records it as
/// last-popped, whether or not the branch is taken.
pub proof fn lemma_jump_if_zero_pops_one(prog: Seq<Instr>, m: Machine, target: i32)
    requires
        0 <= m.pc < prog.len(),
        prog[m.pc] == (Instr { op: Operation::JmpEqZ, arg: Some(target) }),
        m.stack.len() >= 1,
    ensures
        ({
            &&& step(prog, m) matches Ok(m1)
            &&& m1.stack == m.stack.drop_last()
            &&& m1.stack.len() == m.stack.len() - 1
            &&& m1.last_pop == Some(m.stack.last())
        }),
{
}

/// Law: `Div` and `Mod` with a zero divisor on top of the stack fail
/// with `DivisionByZero` carrying the program counter; a failing
/// iteration yields no successor machine, so nothing is pushed and the
/// state at the failure is exactly `m`.
pub proof fn lemma_zero_divisor_fails(prog: Seq<Instr>, m: Machine)
    requires
        0 <= m.pc < prog.len(),
        prog[m.pc] == (Instr { op: Operation::Div, arg: None::<i32> }) || prog[m.pc] == (Instr {
            op: Operation::Mod,
            arg: None::<i32>,
        }),
        m.stack.len() >= 2,
        m.stack.last() == 0,
    ensures
        step(prog, m) == Err::<Machine, VmError>(VmError::DivisionByZero { pc: m.pc as usize }),
{
}

/// Law: any operation that needs more operand-stack values than are
/// present fails with `StackUnderflow` carrying the program counter,
/// provided the instruction itself is well formed.
pub proof fn lemma_stack_underflow(prog: Seq<Instr>, m: Machine)
    requires
        0 <= m.pc < prog.len(),
        prog[m.pc].wf(),
        m.stack.len() < operands_needed(prog[m.pc].op),
    ensures
        step(prog, m) == Err::<Machine, VmError>(VmError::StackUnderflow { pc: m.pc as usize }),
{
}

/// Once a machine has halted, further iterations leave it untouched.
pub proof fn lemma_run_n_halted_stable(prog: Seq<Instr>, m: Machine, n: nat, n2: nat)
    requires
        n <= n2,
        run_n(prog, m, n) matches Ok(m2) && halted(prog, m2),
    ensures
        run_n(prog, m, n2) == run_n(prog, m, n),
    decreases n2 - n,
{
    if n2 > n {
        lemma_run_n_halted_stable(prog, m, n, (n2 - 1) as nat);
    }
}

/// Once an iteration has failed, the failure is final: further
/// iterations return the same error.
pub proof fn lemma_run_n_err_stable(prog: Seq<Instr>, m: Machine, n: nat, n2: nat)
    requires
        n <= n2,
        run_n(prog, m, n) matches Err(_),
    ensures
        run_n(prog, m, n2) == run_n(prog, m, n),
    decreases n2 - n,
{
    if n2 > n {
        lemma_run_n_err_stable(prog, m, n, (n2 - 1) as nat);
    }
}

/// A failing iteration decides the whole budget: if after `n` of the
/// `fuel` iterations the machine stands unhalted at `m_pre` and the
/// next iteration fails, then the full `fuel` iterations fail with
/// that same error.
pub proof fn lemma_run_fail(
    prog: Seq<Instr>,
    m_start: Machine,
    m_pre: Machine,
    n: nat,
    fuel: nat,
    err: VmError,
)
    requires
        n < fuel,
        run_n(prog, m_start, n) == Ok::<Machine, VmError>(m_pre),
        !halted(prog, m_pre),
        step(prog, m_pre) == Err::<Machine, VmError>(err),
    ensures
        run_n(prog, m_start, fuel) == Err::<Machine, VmError>(err),
{
    assert(run_n(prog, m_start, n + 1) == Err::<Machine, VmError>(err));
    lemma_run_n_err_stable(prog, m_start, n + 1, fuel);
}

/// The execution engine: it owns one immutable program and one
/// execution state, created fresh per engine, and runs the program to
/// completion or to the first typed failure.
pub struct VmState {
    stack: Vec<i32>,
    instructions: Vec<Op>,
    cur: usize,
    last_pop: Option<i32>,
    output: Vec<i32>,
    counter_model: Ghost<int>,
}

impl VmState {
    /// The program this engine runs, as a sequence of instruction
    /// views.
    pub closed spec fn program(self) -> Seq<Instr> {
        prog_of(self.instructions@)
    }

    /// The machine state this engine currently holds.
    pub closed spec fn machine(self) -> Machine {
        Machine {
            stack: self.stack@,
            pc: self.counter_model@,
            last_pop: self.last_pop,
            output: self.output@,
        }
    }

    /// Validity of the engine's representation: the stored instruction
    /// cursor agrees with the machine's program counter while that
    /// counter is in the valid range, and stands past the program once
    /// the counter has left it. Constructors establish it and every
    /// method preserves it.
    pub closed spec fn wf(self) -> bool {
        if 0 <= self.machine().pc < self.program().len() {
            self.cur == self.machine().pc
        } else {
            self.cur >= self.program().len()
        }
    }

    /// Creates an engine that owns `instructions` and a fresh
    /// execution state.
    pub fn new(instructions: Vec<Op>) -> (r: VmState)
        ensures
            r.wf(),
            r.program() == prog_of(instructions@),
            r.machine() == init_machine(),
    {
        VmState {
            stack: Vec::new(),
            instructions,
            cur: 0,
            last_pop: None,
            output: Vec::new(),
            counter_model: Ghost(0),
        }
    }

    /// The last-popped register: the most recent value any popping
    /// operation removed from the stack, or `None` if nothing was ever
    /// popped. It is the run's observable result.
    pub fn get_last_pop(&self) -> (r: &Option<i32>)
        ensures
            *r == self.machine().last_pop,
    {
        &self.last_pop
    }

    /// The output channel: every value emitted by `Print` so far,
    /// oldest first.
    pub fn get_output(&self) -> (r: &Vec<i32>)
        ensures
            r@ == self.machine().output,
    {
        &self.output
    }

    /// Runs the fetch-decode-execute loop for at most `fuel`
    /// iterations: until the program counter leaves the valid
    /// instruction range (`Ok(true)`), until the budget is spent with
    /// the machine still running (`Ok(false)`), or until an
    /// instruction fails (`Err`).
    ///
    /// The contract pins the outcome to the small-step semantics
    /// [`step`], through [`run_n`]: on `Ok`, `fuel` iterations carry
    /// the starting machine exactly to the final machine, and the
    /// returned flag tells whether it has halted; on `Err`, some prefix
    /// of those iterations carries the starting machine exactly to the
    /// state in which the failing instruction was fetched — the
    /// failure leaves that state untouched — and the error is the one
    /// [`step`] assigns there.
    pub fn run(&mut self, fuel: u64) -> (r: Result<bool, VmError>)
        requires
            old(self).wf(),
        ensures
            final(self).wf(),
            final(self).program() == old(self).program(),
            (match r {
                Ok(done) => {
                    &&& run_n(old(self).program(), old(self).machine(), fuel as nat)
                        == Ok::<Machine, VmError>(final(self).machine())
                    &&& done == halted(old(self).program(), final(self).machine())
                },
                Err(err) => {
                    &&& run_n(old(self).program(), old(self).machine(), fuel as nat)
                        == Err::<Machine, VmError>(err)
                    &&& !halted(old(self).program(), final(self).machine())
                    &&& step(old(self).program(), final(self).machine())
                        == Err::<Machine, VmError>(err)
                    &&& exists|n: nat|
                        #[trigger] run_n(old(self).program(), old(self).machine(), n)
                            == Ok::<Machine, VmError>(final(self).machine())
                },
            }),
    {
        let ghost prog = self.program();
        let ghost m_start = self.machine();
        let mut left: u64 = fuel;
        while self.cur < self.instructions.len() && left > 0
            invariant
                self.wf(),
                prog == old(self).program(),
                m_start == old(self).machine(),
                self.program() == prog,
                left <= fuel,
                run_n(prog, m_start, (fuel - left) as nat) == Ok::<Machine, VmError>(
                    self.machine(),
                ),
            decreases left,
        {
            let ghost n: nat = (fuel - left) as nat;
            let ghost m_pre = self.machine();
            let pc: usize = self.cur;
            let i: Op = self.instructions[pc];
            proof {
                assert(m_pre.pc == pc as int);
                assert(prog[m_pre.pc] == i@);
            }
            let kind: Operation = *i.op();
            let arg: Option<i32> = i.arg();
            if kind.requires_arg() != arg.is_some() {
                proof {
                    lemma_run_fail(prog, m_start, m_pre, n, fuel as nat, VmError::InvalidInstruction);
                }
                return Err(VmError::InvalidInstruction);
            }
            match kind {
                Operation::Nop => {
                    self.cur = pc + 1;
                    self.counter_model = Ghost(m_pre.pc + 1);
                },
                Operation::PushInt => {
                    let v: i32 = arg.unwrap();
                    self.stack.push(v);
                    self.cur = pc + 1;
                    self.counter_model = Ghost(m_pre.pc + 1);
                },
                Operation::PopInt => {
                    match self.stack.pop() {
                        Some(v) => {
                            self.last_pop = Some(v);
                            self.cur = pc + 1;
                            self.counter_model = Ghost(m_pre.pc + 1);
                        },
                        None => {
                            proof {
                                lemma_run_fail(prog, m_start, m_pre, n, fuel as nat, VmError::StackUnderflow { pc });
                            }
                            return Err(VmError::StackUnderflow { pc });
                        },
                    }
                },
                Operation::Dup => {
                    if self.stack.len() < 1 {
                        proof {
                            lemma_run_fail(prog, m_start, m_pre, n, fuel as nat, VmError::StackUnderflow { pc });
                        }
                        return Err(VmError::StackUnderflow { pc });
                    }
                    let v: i32 = self.stack[self.stack.len() - 1];
                    self.stack.push(v);
                    self.cur = pc + 1;
                    self.counter_model = Ghost(m_pre.pc + 1);
                },
                Operation::Swp => {
                    if self.stack.len() < 2 {
                        proof {
                            lemma_run_fail(prog, m_start, m_pre, n, fuel as nat, VmError::StackUnderflow { pc });
                        }
                        return Err(VmError::StackUnderflow { pc });
                    }
                    let v1: i32 = self.stack.pop().unwrap();
                    let v2: i32 = self.stack.pop().unwrap();
                    self.stack.push(v1);
                    self.stack.push(v2);
                    self.cur = pc + 1;
                    self.counter_model = Ghost(m_pre.pc + 1);
                },
                Operation::Jmp => {
                    let t: i32 = arg.unwrap();
                    self.counter_model = Ghost(t as int);
                    if t >= 0 && (t as usize) < self.instructions.len() {
                        self.cur = t as usize;
                    } else {
                        self.cur = self.instructions.len();
                    }
                },
                Operation::JmpEqZ => {
                    let t: i32 = arg.unwrap();
                    match self.stack.pop() {
                        Some(v) => {
                            self.last_pop = Some(v);
                            if v == 0 {
                                self.counter_model = Ghost(t as int);
                                if t >= 0 && (t as usize) < self.instructions.len() {
                                    self.cur = t as usize;
                                } else {
                                    self.cur = self.instructions.len();
                                }
                            } else {
                                self.cur = pc + 1;
                                self.counter_model = Ghost(m_pre.pc + 1);
                            }
                        },
                        None => {
                            proof {
                                lemma_run_fail(prog, m_start, m_pre, n, fuel as nat, VmError::StackUnderflow { pc });
                            }
                            return Err(VmError::StackUnderflow { pc });
                        },
                    }
                },
                Operation::Add => {
                    if self.stack.len() < 2 {
                        proof {
                            lemma_run_fail(prog, m_start, m_pre, n, fuel as nat, VmError::StackUnderflow { pc });
                        }
                        return Err(VmError::StackUnderflow { pc });
                    }
                    let a: i32 = self.stack.pop().unwrap();
                    let b: i32 = self.stack.pop().unwrap();
                    self.stack.push(b.wrapping_add(a));
                    self.cur = pc + 1;
                    self.counter_model = Ghost(m_pre.pc + 1);
                },
                Operation::Sub => {
                    if self.stack.len() < 2 {
                        proof {
                            lemma_run_fail(prog, m_start, m_pre, n, fuel as nat, VmError::StackUnderflow { pc });
                        }
                        return Err(VmError::StackUnderflow { pc });
                    }
                    let a: i32 = self.stack.pop().unwrap();
                    let b: i32 = self.stack.pop().unwrap();
                    self.stack.push(b.wrapping_sub(a));
                    self.cur = pc + 1;
                    self.counter_model = Ghost(m_pre.pc + 1);
                },
                Operation::Mul => {
                    if self.stack.len() < 2 {
                        proof {
                            lemma_run_fail(prog, m_start, m_pre, n, fuel as nat, VmError::StackUnderflow { pc });
                        }
                        return Err(VmError::StackUnderflow { pc });
                    }
                    let a: i32 = self.stack.pop().unwrap();
                    let b: i32 = self.stack.pop().unwrap();
                    self.stack.push(b.wrapping_mul(a));
                    self.cur = pc + 1;
                    self.counter_model = Ghost(m_pre.pc + 1);
                },
                Operation::Div => {
                    if self.stack.len() < 2 {
                        proof {
                            lemma_run_fail(prog, m_start, m_pre, n, fuel as nat, VmError::StackUnderflow { pc });
                        }
                        return Err(VmError::StackUnderflow { pc });
                    }
                    if self.stack[self.stack.len() - 1] == 0 {
                        proof {
                            lemma_run_fail(prog, m_start, m_pre, n, fuel as nat, VmError::DivisionByZero { pc });
                        }
                        return Err(VmError::DivisionByZero { pc });
                    }
                    let a: i32 = self.stack.pop().unwrap();
                    let b: i32 = self.stack.pop().unwrap();
                    let q: i32 = match b.checked_div(a) {
                        Some(q) => q,
                        None => i32::MIN,
                    };
                    self.stack.push(q);
                    self.cur = pc + 1;
                    self.counter_model = Ghost(m_pre.pc + 1);
                },
                Operation::Mod => {
                    if self.stack.len() < 2 {
                        proof {
                            lemma_run_fail(prog, m_start, m_pre, n, fuel as nat, VmError::StackUnderflow { pc });
                        }
                        return Err(VmError::StackUnderflow { pc });
                    }
                    if self.stack[self.stack.len() - 1] == 0 {
                        proof {
                            lemma_run_fail(prog, m_start, m_pre, n, fuel as nat, VmError::DivisionByZero { pc });
                        }
                        return Err(VmError::DivisionByZero { pc });
                    }
                    let a: i32 = self.stack.pop().unwrap();
                    let b: i32 = self.stack.pop().unwrap();
                    let rem: i32 = match b.checked_rem(a) {
                        Some(rem) => rem,
                        None => 0,
                    };
                    self.stack.push(rem);
                    self.cur = pc + 1;
                    self.counter_model = Ghost(m_pre.pc + 1);
                },
                Operation::Print => {
                    match self.stack.pop() {
                        Some(v) => {
                            self.last_pop = Some(v);
                            self.output.push(v);
                            self.cur = pc + 1;
                            self.counter_model = Ghost(m_pre.pc + 1);
                        },
                        None => {
                            proof {
                                lemma_run_fail(prog, m_start, m_pre, n, fuel as nat, VmError::StackUnderflow { pc });
                            }
                            return Err(VmError::StackUnderflow { pc });
                        },
                    }
                },
                Operation::Input => {
                    proof {
                        lemma_run_fail(prog, m_start, m_pre, n, fuel as nat, VmError::UnsupportedOperation { pc });
                    }
                    return Err(VmError::UnsupportedOperation { pc });
                },
                Operation::Debug => {
                    proof {
                        lemma_run_fail(prog, m_start, m_pre, n, fuel as nat, VmError::UnsupportedOperation { pc });
                    }
                    return Err(VmError::UnsupportedOperation { pc });
                },
            }
            left = left - 1;
            proof {
                assert(step(prog, m_pre) == Ok::<Machine, VmError>(self.machine()));
                assert(run_n(prog, m_start, n + 1) == Ok::<Machine, VmError>(self.machine()));
            }
        }
        if self.cur < self.instructions.len() {
            return Ok(false);
        }
        proof {
            assert(halted(prog, self.machine()));
            lemma_run_n_halted_stable(prog, m_start, (fuel - left) as nat, fuel as nat);
        }
        Ok(true)
    }
}

} // verus!
