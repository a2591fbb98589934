//! Two residual streams, and the schedule that recombines them.
//!
//! A model of this kind runs cycles of LOW stacks and one HIGH stack.
//! Every stack reads the sum of the two streams and replaces one of them
//! with its output; the output head reads the HIGH stream.

use vstd::prelude::*;
use vstd::slice::slice_to_vec;

verus! {

/// Which stream a finished stack writes.
#[derive(Debug, Clone, Copy, PartialEq, Eq, Structural)]
pub enum HrmStream {
    Low,
    High,
}

/// How a model walks its physical layers.
#[derive(Debug, Clone, Copy, PartialEq, Eq, Structural)]
pub enum LayerSchedule {
    /// Several passes over the same layers.
    Repeat { n_phys: usize, n_loops: usize, skip_loop_final_norm: bool },
    /// Cycles of `l_cycles` LOW stacks and a HIGH stack, `h_cycles` of
    /// them, each stack of `lps` layers.
    Hrm { lps: usize, h_cycles: usize, l_cycles: usize },
}

/// The schedule, where it is one that keeps two streams.
pub fn hrm_schedule(loops: Option<LayerSchedule>) -> (schedule: Option<LayerSchedule>)
    ensures
        schedule == (match loops {
            Some(LayerSchedule::Hrm { .. }) => loops,
            _ => None,
        }),
{
    match loops {
        Some(LayerSchedule::Hrm { .. }) => loops,
        _ => None,
    }
}

/// The stream that stack `stack` writes: in each cycle the LOW stacks
/// come first, then the HIGH one.
pub open spec fn stream_of(stack: int, l_cycles: int) -> HrmStream {
    if stack % (l_cycles + 1) == l_cycles {
        HrmStream::High
    } else {
        HrmStream::Low
    }
}

/// The stream that stack `stack` writes.
pub fn stack_stream(stack: usize, l_cycles: usize) -> (stream: HrmStream)
    requires
        l_cycles < usize::MAX,
    ensures
        stream == stream_of(stack as int, l_cycles as int),
{
    if stack % (l_cycles + 1) == l_cycles {
        HrmStream::High
    } else {
        HrmStream::Low
    }
}

/// A cycle is its LOW stacks and then a HIGH one, and the last stack of a
/// schedule writes the stream that the output head reads.
pub proof fn cycles_end_high(h: int, l: int, h_cycles: int, l_cycles: int)
    requires
        0 <= h < h_cycles,
        0 <= l <= l_cycles,
    ensures
        stream_of(h * (l_cycles + 1) + l, l_cycles) == (if l < l_cycles {
            HrmStream::Low
        } else {
            HrmStream::High
        }),
        stream_of(h_cycles * (l_cycles + 1) - 1, l_cycles) == HrmStream::High,
{
    let n = l_cycles + 1;
    vstd::arithmetic::div_mod::lemma_fundamental_div_mod_converse(h * n + l, n, h, l);
    assert(h_cycles * n - 1 == (h_cycles - 1) * n + l_cycles) by (nonlinear_arith)
        requires
            n == l_cycles + 1,
    ;
    vstd::arithmetic::div_mod::lemma_fundamental_div_mod_converse(
        h_cycles * n - 1,
        n,
        h_cycles - 1,
        l_cycles,
    );
}

/// The two streams of a decode, as bit patterns.
#[derive(Debug)]
pub struct HrmStreams {
    zh: Vec<u32>,
    zl: Vec<u32>,
}

impl HrmStreams {
    /// The HIGH stream.
    pub closed spec fn high(&self) -> Seq<u32> {
        self.zh@
    }

    /// The LOW stream.
    pub closed spec fn low(&self) -> Seq<u32> {
        self.zl@
    }

    /// The streams that a decode starts with: the embedded rows, and the
    /// learned row under each of them.
    pub fn new(embedded: &[u32], z_l_init: &[u32]) -> (s: Self)
        requires
            z_l_init@.len() > 0,
            embedded@.len() % z_l_init@.len() == 0,
        ensures
            s.high() == embedded@,
            s.low() == Seq::new(
                embedded@.len(),
                |i: int| z_l_init@[i % z_l_init@.len() as int],
            ),
    {
        let width = z_l_init.len();
        let mut zl: Vec<u32> = Vec::new();
        let mut i: usize = 0;
        while i < embedded.len()
            invariant
                width == z_l_init@.len(),
                width > 0,
                i <= embedded@.len(),
                zl@.len() == i,
                forall|j: int| 0 <= j < i ==> #[trigger] zl@[j] == z_l_init@[j % width as int],
            decreases embedded@.len() - i,
        {
            zl.push(z_l_init[i % width]);
            i += 1;
        }
        HrmStreams { zh: slice_to_vec(embedded), zl }
    }

    /// The two streams whose sum the next stack reads, HIGH and LOW.
    pub fn stack_input(&self) -> (pair: (&[u32], &[u32]))
        ensures
            pair.0@ == self.high(),
            pair.1@ == self.low(),
    {
        (self.zh.as_slice(), self.zl.as_slice())
    }

    /// Stores a finished stack's output in the stream it writes.
    pub fn store(&mut self, stream: HrmStream, hidden: &[u32])
        requires
            hidden@.len() == (match stream {
                HrmStream::Low => old(self).low().len(),
                HrmStream::High => old(self).high().len(),
            }),
        ensures
            match stream {
                HrmStream::Low => final(self).low() == hidden@ && final(self).high() == old(
                    self,
                ).high(),
                HrmStream::High => final(self).high() == hidden@ && final(self).low() == old(
                    self,
                ).low(),
            },
    {
        match stream {
            HrmStream::Low => {
                self.zl = slice_to_vec(hidden);
            },
            HrmStream::High => {
                self.zh = slice_to_vec(hidden);
            },
        }
    }

    /// What the output head reads: the HIGH stream.
    pub fn into_output(self) -> (out: Vec<u32>)
        ensures
            out@ == self.high(),
    {
        self.zh
    }
}

} // verus!
