//! What a script fragment means: its instructions, their bytes, and their
//! effect on the stack of the machine that runs them.
//!
//! The model covers the opcodes that the fragments of this library use. What
//! the machine cannot decide from the script alone (whether a signature is
//! good, whether a lock has expired) is a parameter of the model.

use crate::hashing::sha256_digest;
use crate::script_builder::{data_push, number_push, script_number};
use vstd::prelude::*;

verus! {

pub const OP_IF: u8 = 0x63;

pub const OP_NOTIF: u8 = 0x64;

pub const OP_ELSE: u8 = 0x67;

pub const OP_ENDIF: u8 = 0x68;

pub const OP_VERIFY: u8 = 0x69;

pub const OP_DROP: u8 = 0x75;

pub const OP_DUP: u8 = 0x76;

pub const OP_EQUAL: u8 = 0x87;

pub const OP_EQUALVERIFY: u8 = 0x88;

pub const OP_SHA256: u8 = 0xa8;

pub const OP_CHECKSIG: u8 = 0xac;

pub const OP_CHECKSIGVERIFY: u8 = 0xad;

pub const OP_CLTV: u8 = 0xb1;

pub const OP_CSV: u8 = 0xb2;

/// One instruction of a script.
pub ghost enum Instr {
    /// A single opcode.
    Op(u8),
    /// A push of a byte string.
    Push(Seq<u8>),
    /// A push of a number.
    Number(int),
}

/// The bytes of one instruction.
pub open spec fn encode_instr(instr: Instr) -> Seq<u8> {
    match instr {
        Instr::Op(code) => seq![code],
        Instr::Push(data) => data_push(data),
        Instr::Number(n) => number_push(n),
    }
}

/// The bytes of a sequence of instructions: those of each, in order.
pub open spec fn encode(instrs: Seq<Instr>) -> Seq<u8>
    decreases instrs.len(),
{
    if instrs.len() == 0 {
        Seq::empty()
    } else {
        encode(instrs.drop_last()) + encode_instr(instrs.last())
    }
}

/// Appending an instruction appends its bytes.
pub proof fn lemma_encode_push(instrs: Seq<Instr>, instr: Instr)
    ensures
        encode(instrs.push(instr)) == encode(instrs) + encode_instr(instr),
{
    assert(instrs.push(instr).drop_last() == instrs);
}

/// The bytes of two fragments in a row are the bytes of the first, then those
/// of the second.
pub proof fn lemma_encode_concat(first: Seq<Instr>, second: Seq<Instr>)
    ensures
        encode(first + second) == encode(first) + encode(second),
    decreases second.len(),
{
    if second.len() == 0 {
        assert(first + second == first);
        assert(encode(first) + encode(second) == encode(first));
    } else {
        lemma_encode_concat(first, second.drop_last());
        assert((first + second).drop_last() == first + second.drop_last());
        assert(encode(first) + (encode(second.drop_last()) + encode_instr(second.last()))
            == (encode(first) + encode(second.drop_last())) + encode_instr(second.last()));
    }
}

/// What the spending transaction brings to the machine.
pub ghost struct Spend {
    /// Whether the second argument is a good signature of the transaction
    /// under the key that the first argument encodes.
    pub signed: spec_fn(Seq<u8>, Seq<u8>) -> bool,
    /// Whether the transaction's lock time has reached the absolute threshold
    /// that the argument encodes.
    pub reached: spec_fn(Seq<u8>) -> bool,
    /// Whether the spent output is older than the relative threshold that the
    /// argument encodes.
    pub aged: spec_fn(Seq<u8>) -> bool,
}

/// The state of the machine between two instructions.
pub ghost struct Machine {
    /// The stack, its top last.
    pub stack: Seq<Seq<u8>>,
    /// For each conditional that is open, whether its current branch runs.
    pub branches: Seq<bool>,
}

/// A stack item counts as true unless all its bytes are zero, where the last
/// byte may also be the sign bit alone.
pub open spec fn truthy(item: Seq<u8>) -> bool {
    exists|i: int|
        0 <= i < item.len() && #[trigger] item[i] != 0 && !(i == item.len() - 1 && item[i]
            == 0x80)
}

/// The stack item that stands for a truth value.
pub open spec fn bool_item(b: bool) -> Seq<u8> {
    if b {
        seq![1u8]
    } else {
        Seq::empty()
    }
}

impl Machine {
    /// The machine before the first instruction, on a given stack.
    pub open spec fn start(stack: Seq<Seq<u8>>) -> Machine {
        Machine { stack, branches: Seq::empty() }
    }

    /// Whether instructions take effect: no open conditional is in a branch
    /// that does not run.
    pub open spec fn running(self) -> bool {
        forall|i: int| 0 <= i < self.branches.len() ==> self.branches[i]
    }

    /// The machine with another stack.
    pub open spec fn with_stack(self, stack: Seq<Seq<u8>>) -> Machine {
        Machine { stack, branches: self.branches }
    }

    /// The top of the stack.
    pub open spec fn top(self) -> Seq<u8> {
        self.stack.last()
    }

    /// The stack without its top `n` items.
    pub open spec fn below(self, n: int) -> Seq<Seq<u8>> {
        self.stack.take(self.stack.len() - n)
    }

    /// The effect of an opcode that is no conditional, in a branch that runs.
    /// `None` is failure of the script.
    pub open spec fn apply(self, spend: Spend, code: u8) -> Option<Machine> {
        let depth = self.stack.len();
        let second = self.stack[depth - 2];
        if code == OP_DUP {
            if depth < 1 {
                None
            } else {
                Some(self.with_stack(self.stack.push(self.top())))
            }
        } else if code == OP_DROP {
            if depth < 1 {
                None
            } else {
                Some(self.with_stack(self.below(1)))
            }
        } else if code == OP_SHA256 {
            if depth < 1 {
                None
            } else {
                Some(self.with_stack(self.below(1).push(sha256_digest(self.top()))))
            }
        } else if code == OP_VERIFY {
            if depth < 1 || !truthy(self.top()) {
                None
            } else {
                Some(self.with_stack(self.below(1)))
            }
        } else if code == OP_EQUAL {
            if depth < 2 {
                None
            } else {
                Some(self.with_stack(self.below(2).push(bool_item(second == self.top()))))
            }
        } else if code == OP_EQUALVERIFY {
            if depth < 2 || second != self.top() {
                None
            } else {
                Some(self.with_stack(self.below(2)))
            }
        } else if code == OP_CHECKSIG {
            if depth < 2 {
                None
            } else {
                Some(
                    self.with_stack(
                        self.below(2).push(bool_item((spend.signed)(self.top(), second))),
                    ),
                )
            }
        } else if code == OP_CHECKSIGVERIFY {
            if depth < 2 || !(spend.signed)(self.top(), second) {
                None
            } else {
                Some(self.with_stack(self.below(2)))
            }
        } else if code == OP_CLTV {
            if depth < 1 || !(spend.reached)(self.top()) {
                None
            } else {
                Some(self)
            }
        } else if code == OP_CSV {
            if depth < 1 || !(spend.aged)(self.top()) {
                None
            } else {
                Some(self)
            }
        } else {
            None
        }
    }

    /// The effect of one instruction. `None` is failure of the script.
    pub open spec fn step(self, spend: Spend, instr: Instr) -> Option<Machine> {
        match instr {
            Instr::Op(code) => {
                if code == OP_IF || code == OP_NOTIF {
                    if !self.running() {
                        Some(Machine { stack: self.stack, branches: self.branches.push(false) })
                    } else if self.stack.len() < 1 {
                        None
                    } else {
                        Some(
                            Machine {
                                stack: self.below(1),
                                branches: self.branches.push(truthy(self.top()) == (code == OP_IF)),
                            },
                        )
                    }
                } else if code == OP_ELSE {
                    if self.branches.len() < 1 {
                        None
                    } else {
                        Some(
                            Machine {
                                stack: self.stack,
                                branches: self.branches.drop_last().push(!self.branches.last()),
                            },
                        )
                    }
                } else if code == OP_ENDIF {
                    if self.branches.len() < 1 {
                        None
                    } else {
                        Some(Machine { stack: self.stack, branches: self.branches.drop_last() })
                    }
                } else if !self.running() {
                    Some(self)
                } else {
                    self.apply(spend, code)
                }
            },
            Instr::Push(data) => if self.running() {
                Some(self.with_stack(self.stack.push(data)))
            } else {
                Some(self)
            },
            Instr::Number(n) => if self.running() {
                Some(self.with_stack(self.stack.push(script_number(n))))
            } else {
                Some(self)
            },
        }
    }

    /// The machine after the instructions `instrs[from..]`, or `None` where
    /// one of them fails.
    pub open spec fn run_from(self, spend: Spend, instrs: Seq<Instr>, from: int) -> Option<Machine>
        decreases instrs.len() - from,
    {
        if from < 0 || from >= instrs.len() {
            Some(self)
        } else {
            match self.step(spend, instrs[from]) {
                Some(next) => next.run_from(spend, instrs, from + 1),
                None => None,
            }
        }
    }
}

/// The stack that a fragment leaves when it runs on `stack` with no
/// conditional open, or `None` where it fails or leaves a conditional open.
pub open spec fn run(spend: Spend, instrs: Seq<Instr>, stack: Seq<Seq<u8>>) -> Option<Seq<Seq<u8>>> {
    match Machine::start(stack).run_from(spend, instrs, 0) {
        Some(end) => if end.branches.len() == 0 {
            Some(end.stack)
        } else {
            None
        },
        None => None,
    }
}

} // verus!
