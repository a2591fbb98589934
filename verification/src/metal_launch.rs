//! Which matrices a Metal kernel can multiply by, and how their rows lie.

use vstd::prelude::*;

verus! {

/// How a matrix is stored.
#[derive(Debug, Clone, Copy)]
pub enum MatrixStorage {
    F32 { rows: usize, cols: usize },
    /// Blocks of a quantised kind: how many bytes, and the name that the
    /// Metal backend knows the kind by, if it does.
    Quantized { rows: usize, bytes: usize, metal_kind: Option<&'static str> },
    Mxfp4,
    /// With an adapter's delta, which no fused kernel adds.
    Adapted,
    /// With a transformed input, which no fused kernel computes.
    Folded,
}

/// What a launch needs to know of a matrix.
#[derive(Debug, Clone, Copy)]
pub struct MatvecPlan {
    /// The name that the backend's table is asked by.
    pub kind: &'static str,
    pub rows: usize,
    pub row_bytes: usize,
}

/// What a launch over a matrix needs, where there can be one: the table of
/// the backend is asked by the kind's name and decides.
pub fn matvec(m: MatrixStorage) -> (plan: Option<MatvecPlan>)
    requires
        match m {
            MatrixStorage::F32 { cols, .. } => cols * 4 <= usize::MAX,
            _ => true,
        },
    ensures
        match m {
            MatrixStorage::F32 { rows, cols } => match plan {
                Some(p) => p.kind@ == "F32"@ && p.rows == rows && p.row_bytes == cols * 4,
                None => false,
            },
            MatrixStorage::Quantized { rows, bytes, metal_kind } => match metal_kind {
                Some(kind) => match plan {
                    Some(p) => p.kind == kind && p.rows == rows && p.row_bytes == (if rows == 0 {
                        0
                    } else {
                        bytes as int / rows as int
                    }),
                    None => false,
                },
                None => plan is None,
            },
            _ => plan is None,
        },
{
    match m {
        MatrixStorage::F32 { rows, cols } => Some(
            MatvecPlan { kind: "F32", rows, row_bytes: cols * 4 },
        ),
        MatrixStorage::Quantized { rows, bytes, metal_kind } => match metal_kind {
            Some(kind) => {
                let row_bytes: usize = if rows == 0 {
                    0
                } else {
                    bytes / rows
                };
                Some(MatvecPlan { kind, rows, row_bytes })
            },
            None => None,
        },
        MatrixStorage::Mxfp4 | MatrixStorage::Adapted | MatrixStorage::Folded => None,
    }
}

} // verus!
