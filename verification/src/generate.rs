//! Generation parameters, statuses, and the decisions of the
//! autoregressive loop.
//!
//! The loop itself performs forward passes and invokes callbacks outside
//! the core; every decision it takes — emit or not, go on or stop — is a
//! function of plain values and lives here.

use vstd::prelude::*;

verus! {

/// Bit pattern of the default temperature, the 32-bit IEEE value 0.8.
pub const DEFAULT_TEMPERATURE_BITS: u32 = 0x3F4CCCCD;

/// Bit pattern of the default nucleus threshold, the 32-bit IEEE value
/// 0.95.
pub const DEFAULT_TOP_P_BITS: u32 = 0x3F733333;

/// Bit pattern of the default repetition penalty, the 32-bit IEEE value
/// 1.1.
pub const DEFAULT_REPETITION_PENALTY_BITS: u32 = 0x3F8CCCCD;

/// Status codes returned by every call of the library surface.
#[derive(Debug, Clone, Copy, PartialEq, Eq, Structural)]
pub enum IRStatus {
    Success,
    ErrorInvalidArgument,
    ErrorModelLoad,
    ErrorGenerate,
    ErrorOutOfMemory,
    ErrorInternal,
}

/// Compute backend selector.
#[derive(Debug, Clone, Copy, PartialEq, Eq, Structural)]
pub enum IRBackendType {
    Cpu,
    Metal,
}

/// Parameters controlling text generation.  The three IEEE quantities
/// are carried as bit patterns.
#[derive(Debug, Clone, Copy, PartialEq, Eq, Structural)]
pub struct IRGenerateParams {
    /// Upper bound on the number of generated tokens.
    pub max_tokens: u32,
    /// Softmax temperature, as IEEE-32 bits.
    pub temperature_bits: u32,
    /// Top-K cutoff; 0 disables it.
    pub top_k: u32,
    /// Nucleus threshold, as IEEE-32 bits.
    pub top_p_bits: u32,
    /// Repetition penalty factor, as IEEE-32 bits.
    pub repetition_penalty_bits: u32,
    /// Seed for the categorical selector.
    pub seed: u64,
}

impl Default for IRGenerateParams {
    /// The default generation parameters: 256 tokens, temperature 0.8,
    /// top-k 40, top-p 0.95, repetition penalty 1.1, seed 0.
    fn default() -> (r: IRGenerateParams)
        ensures
            r.max_tokens == 256,
            r.temperature_bits == DEFAULT_TEMPERATURE_BITS,
            r.top_k == 40,
            r.top_p_bits == DEFAULT_TOP_P_BITS,
            r.repetition_penalty_bits == DEFAULT_REPETITION_PENALTY_BITS,
            r.seed == 0,
    {
        IRGenerateParams {
            max_tokens: 256,
            temperature_bits: DEFAULT_TEMPERATURE_BITS,
            top_k: 40,
            top_p_bits: DEFAULT_TOP_P_BITS,
            repetition_penalty_bits: DEFAULT_REPETITION_PENALTY_BITS,
            seed: 0,
        }
    }
}

/// The bookkeeping of one generation call: how many tokens were emitted
/// and whether the loop is over.  The loop samples a token, asks
/// `on_sampled` whether to emit it, and in streaming mode reports the
/// callback's answer through `on_callback`; it keeps going while
/// `done` is false.
pub struct StreamLoop {
    /// The token budget of this call.
    pub max_tokens: u32,
    /// The end-of-sequence token ID that stops generation.
    pub eos_id: u32,
    /// Number of tokens emitted so far.
    pub emitted: u32,
    /// Whether generation is over.
    pub done: bool,
}

impl StreamLoop {
    /// A fresh loop state: nothing emitted, not done.
    pub fn new(max_tokens: u32, eos_id: u32) -> (r: StreamLoop)
        ensures
            r.max_tokens == max_tokens,
            r.eos_id == eos_id,
            r.emitted == 0,
            !r.done,
    {
        StreamLoop { max_tokens, eos_id, emitted: 0, done: false }
    }

    /// Decides what to do with a freshly sampled token: the
    /// end-of-sequence token is never emitted and ends the loop; with
    /// the budget already spent (in particular a budget of zero),
    /// nothing is emitted and the loop ends; any other token is
    /// emitted, and the loop ends once the budget is reached.
    pub fn on_sampled(&mut self, token: u32) -> (emit: bool)
        requires
            !old(self).done,
        ensures
            final(self).max_tokens == old(self).max_tokens,
            final(self).eos_id == old(self).eos_id,
            emit == (token != old(self).eos_id && old(self).emitted < old(self).max_tokens),
            final(self).emitted == old(self).emitted + (if emit {
                1int
            } else {
                0int
            }),
            final(self).done == (token == old(self).eos_id || final(self).emitted
                >= old(self).max_tokens),
    {
        if token == self.eos_id {
            self.done = true;
            return false;
        }
        if self.emitted >= self.max_tokens {
            self.done = true;
            return false;
        }
        self.emitted = self.emitted + 1;
        if self.emitted >= self.max_tokens {
            self.done = true;
        }
        true
    }

    /// Records the streaming callback's answer: a false ends the loop
    /// at the next boundary.
    pub fn on_callback(&mut self, keep_going: bool)
        ensures
            final(self).max_tokens == old(self).max_tokens,
            final(self).eos_id == old(self).eos_id,
            final(self).emitted == old(self).emitted,
            final(self).done == (old(self).done || !keep_going),
    {
        if !keep_going {
            self.done = true;
        }
    }
}

} // verus!
