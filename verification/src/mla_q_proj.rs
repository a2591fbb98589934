//! How an MLA layer projects Q: through a low-rank pair with a norm
//! between, or directly.

use crate::weights::WeightMatrix;
use vstd::prelude::*;

verus! {

/// The query projection of one MLA layer.
#[derive(Debug)]
pub enum MlaQProj {
    /// `b` applied to the normed result of `a`.
    LowRank {
        /// `[q_lora_rank, hidden_dim]`.
        a: WeightMatrix,
        /// `[q_lora_rank]`, bit patterns.
        norm: Vec<u32>,
        /// `[n_heads * (qk_nope + qk_rope), q_lora_rank]`.
        b: WeightMatrix,
    },
    /// `[n_heads * (qk_nope + qk_rope), hidden_dim]`.
    Direct(WeightMatrix),
}

impl MlaQProj {
    /// The width of the query that the projection gives.
    pub fn q_rows(&self) -> (n: usize)
        ensures
            n == (match self {
                MlaQProj::LowRank { b, .. } => b.n_rows(),
                MlaQProj::Direct(w) => w.n_rows(),
            }),
    {
        match self {
            MlaQProj::LowRank { b, .. } => b.rows(),
            MlaQProj::Direct(w) => w.rows(),
        }
    }

    /// The width of the hidden state that the projection takes.
    pub fn in_cols(&self) -> (n: usize)
        ensures
            n == (match self {
                MlaQProj::LowRank { a, .. } => a.n_cols(),
                MlaQProj::Direct(w) => w.n_cols(),
            }),
    {
        match self {
            MlaQProj::LowRank { a, .. } => a.cols(),
            MlaQProj::Direct(w) => w.cols(),
        }
    }
}

} // verus!
