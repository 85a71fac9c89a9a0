//! The generation drivers: the primary's decision logic for one
//! session. An autoregressive session runs the pipeline once per token
//! at positions 0, 1, 2, ... until the target length or a stop token; a
//! denoising session runs it once per scheduler step. Either kind stops
//! dead on a session failure, keeping the tokens already committed as
//! the partial output.
use vstd::prelude::*;

use crate::error::SessionError;

verus! {

/// One autoregressive generation session: the next position index, the
/// tokens committed so far, the target sample length, and whether the
/// session is over (finished or failed).
#[derive(Debug, Clone, PartialEq, Eq)]
pub struct GenerationState {
    pub position: u64,
    pub tokens: Vec<u64>,
    pub target_len: u64,
    pub done: bool,
    pub failed: Option<SessionError>,
}

impl GenerationState {
    /// One token is committed per step, so the next position index
    /// always equals the number of tokens committed; a failed session
    /// is over; a session still running has room for another token.
    pub open spec fn wf(self) -> bool {
        &&& self.position == self.tokens@.len()
        &&& (self.failed is Some ==> self.done)
        &&& (!self.done ==> self.tokens@.len() < self.target_len)
    }

    /// Starts a session that will generate up to `target_len` tokens.
    pub fn begin(target_len: u64) -> (s: GenerationState)
        ensures
            s.wf(),
            s.position == 0,
            s.tokens@ == Seq::<u64>::empty(),
            s.target_len == target_len,
            s.done == (target_len == 0),
            s.failed is None,
    {
        GenerationState {
            position: 0,
            tokens: Vec::new(),
            target_len,
            done: target_len == 0,
            failed: None,
        }
    }

    /// The position index to run the pipeline at next, or `None` when
    /// the session is over: positions come out strictly in order
    /// 0, 1, 2, ..., one per committed token, and a finished or failed
    /// session never yields another step.
    pub fn next_step(&self) -> (r: Option<u64>)
        ensures
            r == if self.done {
                Option::<u64>::None
            } else {
                Option::<u64>::Some(self.position)
            },
    {
        if self.done {
            None
        } else {
            Some(self.position)
        }
    }

    /// Commits the token sampled from one completed pipeline run: the
    /// position index advances by exactly one, and the session finishes
    /// when the target length is reached or the sampler saw a stop
    /// condition.
    pub fn commit_token(&mut self, token: u64, is_stop: bool)
        requires
            old(self).wf(),
            !old(self).done,
        ensures
            final(self).wf(),
            final(self).position == old(self).position + 1,
            final(self).tokens@ == old(self).tokens@.push(token),
            final(self).target_len == old(self).target_len,
            final(self).failed is None == (old(self).failed is None),
            final(self).done == (is_stop || old(self).tokens@.len() + 1 >= old(self).target_len),
    {
        self.tokens.push(token);
        self.position = self.position + 1;
        if is_stop || self.position >= self.target_len {
            self.done = true;
        }
    }

    /// Ends the session on a fatal error at a step boundary: no further
    /// step is ever yielded, and the tokens already committed stay as
    /// the session's partial output.
    pub fn fail(&mut self, err: SessionError)
        requires
            old(self).wf(),
        ensures
            final(self).wf(),
            final(self).done,
            final(self).failed == Some(err),
            final(self).tokens@ == old(self).tokens@,
            final(self).position == old(self).position,
            final(self).target_len == old(self).target_len,
    {
        self.done = true;
        self.failed = Some(err);
    }
}

/// One denoising (image) session: a fixed number of scheduler steps,
/// run strictly in order, with the step index as the position index.
#[derive(Debug, Clone, PartialEq, Eq, Structural)]
pub struct DenoiseState {
    pub step: u64,
    pub n_steps: u64,
    pub failed: bool,
}

impl DenoiseState {
    pub open spec fn wf(self) -> bool {
        self.step <= self.n_steps
    }

    /// Starts a denoising session of `n_steps` scheduler steps.
    pub fn begin(n_steps: u64) -> (s: DenoiseState)
        ensures
            s.wf(),
            s.step == 0,
            s.n_steps == n_steps,
            !s.failed,
    {
        DenoiseState { step: 0, n_steps, failed: false }
    }

    /// The step index to run the pipeline at next, or `None` after the
    /// final step or a failure.
    pub fn next_step(&self) -> (r: Option<u64>)
        ensures
            r == if !self.failed && self.step < self.n_steps {
                Option::<u64>::Some(self.step)
            } else {
                Option::<u64>::None
            },
    {
        if !self.failed && self.step < self.n_steps {
            Some(self.step)
        } else {
            None
        }
    }

    /// Records that the current step's latent update completed.
    pub fn commit_step(&mut self)
        requires
            old(self).wf(),
            old(self).step < old(self).n_steps,
        ensures
            final(self).wf(),
            final(self).step == old(self).step + 1,
            final(self).n_steps == old(self).n_steps,
            final(self).failed == old(self).failed,
    {
        self.step = self.step + 1;
    }

    /// Ends the session on a fatal error: no further step is yielded.
    pub fn fail(&mut self)
        ensures
            final(self).wf() == old(self).wf(),
            final(self).failed,
            final(self).step == old(self).step,
            final(self).n_steps == old(self).n_steps,
    {
        self.failed = true;
    }
}

} // verus!
