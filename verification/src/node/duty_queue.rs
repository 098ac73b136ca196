//! The duties of the node, in the order in which they are done.

use crate::error::Error;
use crate::node::{handles_error, report_id, try_handle_error, MsgContext};
use crate::node_ops::{NodeDuties, NodeDuty};
use vstd::prelude::*;

verus! {

/// The duties that wait to be done, in the order in which they came up.
#[derive(Debug)]
pub struct DutyQueue {
    waiting: Vec<NodeDuty>,
}

impl View for DutyQueue {
    type V = Seq<NodeDuty>;

    closed spec fn view(&self) -> Seq<NodeDuty> {
        self.waiting@
    }
}

impl DutyQueue {
    /// The queue in which nothing waits.
    pub fn empty() -> (queue: DutyQueue)
        ensures
            queue@ == Seq::<NodeDuty>::empty(),
    {
        DutyQueue { waiting: Vec::new() }
    }

    /// The queue in which `op` waits alone.
    pub fn new(op: NodeDuty) -> (queue: DutyQueue)
        ensures
            queue@ == seq![op],
    {
        let mut waiting: Vec<NodeDuty> = Vec::new();
        waiting.push(op);
        DutyQueue { waiting }
    }

    /// Whether no duty waits.
    pub fn is_empty(&self) -> (r: bool)
        ensures
            r == (self@.len() == 0),
    {
        self.waiting.len() == 0
    }

    /// The number of duties that wait.
    pub fn len(&self) -> (n: usize)
        ensures
            n == self@.len(),
    {
        self.waiting.len()
    }

    /// Takes out the duty that has waited longest.
    pub fn next(&mut self) -> (duty: Option<NodeDuty>)
        ensures
            match duty {
                Some(d) => old(self)@.len() > 0 && d == old(self)@[0]
                    && final(self)@ == old(self)@.drop_first(),
                None => old(self)@.len() == 0 && final(self)@ == old(self)@,
            },
    {
        if self.waiting.len() == 0 {
            None
        } else {
            let duty = self.waiting.remove(0);
            assert(self.waiting@ =~= old(self)@.drop_first());
            Some(duty)
        }
    }

    /// Takes in what came of doing a duty: the duties that it led to wait behind those
    /// that wait already, in their order; an error is turned into the duty to report it,
    /// which waits behind them too.
    pub fn push_outcome(
        &mut self,
        outcome: core::result::Result<NodeDuties, Error>,
        ctx: Option<MsgContext>,
    )
        ensures
            match outcome {
                Ok(new_ops) => final(self)@ == old(self)@ + new_ops@,
                Err(e) => final(self)@.len() == old(self)@.len() + 1 && final(self)@.drop_last()
                    == old(self)@ && handles_error(
                    final(self)@.last(),
                    e,
                    ctx,
                    report_id(final(self)@.last()),
                ),
            },
    {
        match outcome {
            Ok(new_ops) => {
                let mut new_ops = new_ops;
                self.waiting.append(&mut new_ops);
            },
            Err(e) => {
                let new_op = try_handle_error(e, ctx);
                self.waiting.push(new_op);
                assert(self.waiting@.drop_last() =~= old(self)@);
            },
        }
    }
}

} // verus!
