//! What a deploy did to a key.

use vstd::prelude::*;

use crate::assoc::Duplicate;

verus! {

/// What was done to a key.
#[derive(Clone, Copy, Debug, PartialEq, Eq, Structural)]
pub enum Op {
    Read,
    Write,
    Add,
    NoOp,
}

impl Op {
    /// What was done to a key to which first this and then the other was
    /// done: nothing changes nothing, reads stay a read, additions stay an
    /// addition, and every other mixture counts as a write.
    pub open spec fn spec_join(self, other: Op) -> Op {
        match (self, other) {
            (a, Op::NoOp) => a,
            (Op::NoOp, b) => b,
            (Op::Read, Op::Read) => Op::Read,
            (Op::Add, Op::Add) => Op::Add,
            _ => Op::Write,
        }
    }

    /// What was done to a key to which first this and then the other was
    /// done.
    pub fn join(self, other: Op) -> (r: Op)
        ensures
            r == self.spec_join(other),
    {
        match (self, other) {
            (a, Op::NoOp) => a,
            (Op::NoOp, b) => b,
            (Op::Read, Op::Read) => Op::Read,
            (Op::Add, Op::Add) => Op::Add,
            _ => Op::Write,
        }
    }

    /// Joining is associative, and doing nothing is its unit.
    pub proof fn lemma_join_monoid(a: Op, b: Op, c: Op)
        ensures
            a.spec_join(Op::NoOp) == a,
            Op::NoOp.spec_join(a) == a,
            a.spec_join(b).spec_join(c) == a.spec_join(b.spec_join(c)),
            a.spec_join(b) == b.spec_join(a),
    {
    }
}

impl View for Op {
    type V = Op;

    open spec fn view(&self) -> Op {
        *self
    }
}

impl Duplicate for Op {
    fn duplicate(&self) -> (r: Self) {
        *self
    }
}

} // verus!
