//! The gated delta net (Qwen3.5's linear attention), at the site where
//! attention stands on other layers.
//!
//! One projection gives, per token, the Q, K and V of every head, which
//! a convolution mixes over time; [`cut_qkv`] parts its output. The two
//! gates of a head come from two projections, or from one whose rows
//! interleave them by K group; [`split_beta_alpha`] takes that one
//! apart. [`recurrent_layers`] says which layers are of this kind.

use crate::gguf::{missing_u64, u64_or, GgufFile, GgufValue};
use crate::load_error::{LoadError, LoadFault};
use crate::mamba2::ssm_key;
use crate::text::{
    arch_key, arch_key_text, block_name, block_name_text, contains_name, decimal, decimal_text,
    has_name,
};
use crate::weights::{
    first_fault, load_sized_matrix, load_sized_vec, sized_matrix_fault, sized_vector_fault,
    vector_of, RecurrentState, WeightMatrix,
};
use vstd::prelude::*;
use vstd::slice::slice_subrange;
use vstd::string::StringExecFns;

verus! {

/// How V heads find their K heads.
#[derive(Debug, Clone, Copy, PartialEq, Eq, Structural)]
pub enum HeadMap {
    /// V head `h` reads K head `h % n_k_heads`.
    Tiled,
    /// V head `h` reads K head `h / (n_v_heads / n_k_heads)`.
    Grouped,
}

/// The architectures whose V heads read K heads grouped.
pub const GROUPED_HEAD_ARCHITECTURES: [&'static str; 1] = ["qwen3next"];

/// How an architecture's V heads find their K heads.
pub open spec fn map_of(arch: Seq<char>) -> HeadMap {
    if has_name(GROUPED_HEAD_ARCHITECTURES@, arch) {
        HeadMap::Grouped
    } else {
        HeadMap::Tiled
    }
}

/// How the V heads of `arch` find their K heads.
pub fn head_map(arch: &str) -> (map: HeadMap)
    ensures
        map == map_of(arch@),
        map == HeadMap::Grouped <==> arch@ == "qwen3next"@,
{
    proof {
        assert(GROUPED_HEAD_ARCHITECTURES@[0]@ == "qwen3next"@);
    }
    if contains_name(&GROUPED_HEAD_ARCHITECTURES, arch) {
        HeadMap::Grouped
    } else {
        HeadMap::Tiled
    }
}

/// The dimensions of the delta rule.
#[derive(Debug, Clone, Copy, PartialEq, Eq, Structural)]
pub struct DeltaDims {
    pub n_k_heads: usize,
    pub n_v_heads: usize,
    pub head_dim: usize,
    pub map: HeadMap,
}

/// The `ssm.*` hyperparameters and the architecture's head map.
#[derive(Debug, Clone, Copy, PartialEq, Eq, Structural)]
pub struct GdnHparams {
    pub d_conv: usize,
    /// The width of a K head and of a V head.
    pub head_dim: usize,
    pub n_k_heads: usize,
    pub n_v_heads: usize,
    pub map: HeadMap,
}

/// The refusal of a geometry that does not fit together, round its
/// numbers and the inner width.
pub const BAD_GEOMETRY: [&'static str; 7] = [
    "ssm.* hparams GdnHparams { d_conv: ",
    ", head_dim: ",
    ", n_k_heads: ",
    ", n_v_heads: ",
    ", map: ",
    " } with inner_size ",
    ": qwen35.cpp:52-58 sizes the block as inner_size = time_step_rank * state_size with \
     time_step_rank a multiple of group_count (delta-net-base.cpp:308)",
];

/// The name of a head map.
pub open spec fn map_chars(map: HeadMap) -> Seq<char> {
    match map {
        HeadMap::Tiled => "Tiled"@,
        HeadMap::Grouped => "Grouped"@,
    }
}

fn map_text(map: HeadMap) -> (t: &'static str)
    ensures
        t@ == map_chars(map),
{
    match map {
        HeadMap::Tiled => "Tiled",
        HeadMap::Grouped => "Grouped",
    }
}

impl GdnHparams {
    /// What a file declares; a missing number counts as zero.
    pub open spec fn declared(file: GgufFile, arch: Seq<char>) -> GdnHparams {
        GdnHparams {
            d_conv: u64_or(file.meta_u64(ssm_key(arch, "ssm.conv_kernel"@)), 0),
            head_dim: u64_or(file.meta_u64(ssm_key(arch, "ssm.state_size"@)), 0),
            n_k_heads: u64_or(file.meta_u64(ssm_key(arch, "ssm.group_count"@)), 0),
            n_v_heads: u64_or(file.meta_u64(ssm_key(arch, "ssm.time_step_rank"@)), 0),
            map: map_of(arch),
        }
    }

    /// The inner width that a file declares.
    pub open spec fn declared_inner(file: GgufFile, arch: Seq<char>) -> usize {
        u64_or(file.meta_u64(ssm_key(arch, "ssm.inner_size"@)), 0)
    }

    /// The first key that a file lacks.
    pub open spec fn missing_key(file: GgufFile, arch: Seq<char>) -> Option<LoadFault> {
        first_fault(
            missing_u64(file, ssm_key(arch, "ssm.conv_kernel"@)),
            first_fault(
                missing_u64(file, ssm_key(arch, "ssm.state_size"@)),
                first_fault(
                    missing_u64(file, ssm_key(arch, "ssm.group_count"@)),
                    first_fault(
                        missing_u64(file, ssm_key(arch, "ssm.time_step_rank"@)),
                        missing_u64(file, ssm_key(arch, "ssm.inner_size"@)),
                    ),
                ),
            ),
        )
    }

    /// There is a convolution window, heads have a width, and the V
    /// heads are a whole multiple of the K heads.
    pub open spec fn well_formed(&self) -> bool {
        &&& self.d_conv >= 2
        &&& self.head_dim > 0
        &&& self.n_k_heads > 0
        &&& self.n_v_heads % self.n_k_heads == 0
    }

    /// Whether the sizes of the weights are machine numbers.
    pub open spec fn weights_fit(&self) -> bool {
        &&& self.conv_width() <= usize::MAX
        &&& self.d_conv * self.conv_width() <= usize::MAX
    }

    /// Whether the sizes of the weights and the lengths of the state are
    /// machine numbers.
    pub open spec fn sizes_fit(&self) -> bool {
        &&& self.weights_fit()
        &&& self.delta_len() <= usize::MAX
    }

    pub open spec fn key_width(&self) -> int {
        self.n_k_heads * self.head_dim
    }

    pub open spec fn value_width(&self) -> int {
        self.n_v_heads * self.head_dim
    }

    /// The channels of the convolution: Q, K, then V.
    pub open spec fn conv_width(&self) -> int {
        2 * self.key_width() + self.value_width()
    }

    /// The length of the delta state: a square for each V head.
    pub open spec fn delta_len(&self) -> int {
        self.n_v_heads * self.head_dim * self.head_dim
    }

    /// Whether the sizes of the weights and the lengths of the state are
    /// machine numbers.
    pub fn fits(&self) -> (yes: bool)
        ensures
            yes == self.sizes_fit(),
    {
        let key = match self.n_k_heads.checked_mul(self.head_dim) {
            Some(n) => n,
            None => {
                proof {
                    assert(self.key_width() > usize::MAX && self.value_width() >= 0)
                        by (nonlinear_arith)
                        requires
                            self.n_k_heads * self.head_dim > usize::MAX,
                            self.key_width() == self.n_k_heads * self.head_dim,
                            self.value_width() == self.n_v_heads * self.head_dim,
                    ;
                }
                return false;
            },
        };
        let value = match self.n_v_heads.checked_mul(self.head_dim) {
            Some(n) => n,
            None => {
                return false;
            },
        };
        let conv = match key.checked_mul(2) {
            Some(n) => match n.checked_add(value) {
                Some(n) => n,
                None => {
                    return false;
                },
            },
            None => {
                return false;
            },
        };
        let window = self.d_conv.checked_mul(conv);
        let delta = value.checked_mul(self.head_dim);
        window.is_some() && delta.is_some()
    }

    /// Why what a file declares is refused.
    pub open spec fn fault(file: GgufFile, arch: Seq<char>) -> Option<LoadFault> {
        let h = Self::declared(file, arch);
        let inner = Self::declared_inner(file, arch);
        first_fault(
            Self::missing_key(file, arch),
            if !h.well_formed() || inner != h.value_width() {
                Some(
                    LoadFault::UnsupportedFeature(
                        arch,
                        BAD_GEOMETRY@[0]@ + decimal(h.d_conv as nat) + BAD_GEOMETRY@[1]@ + decimal(
                            h.head_dim as nat,
                        ) + BAD_GEOMETRY@[2]@ + decimal(h.n_k_heads as nat) + BAD_GEOMETRY@[3]@
                            + decimal(h.n_v_heads as nat) + BAD_GEOMETRY@[4]@ + map_chars(h.map)
                            + BAD_GEOMETRY@[5]@ + decimal(inner as nat) + BAD_GEOMETRY@[6]@,
                    ),
                )
            } else {
                None
            },
        )
    }

    /// Reads the five keys of `arch`; every one is required.
    pub fn read(file: &GgufFile, arch: &str) -> (h: Result<Self, LoadError>)
        ensures
            match Self::fault(*file, arch@) {
                Some(fault) => h is Err && h->Err_0@ == fault,
                None => {
                    &&& h is Ok
                    &&& h->Ok_0 == Self::declared(*file, arch@)
                    &&& h->Ok_0.well_formed()
                    &&& h->Ok_0.value_width() == Self::declared_inner(*file, arch@)
                },
            },
    {
        let d_conv = file.required_u64(arch_key_text(arch, "ssm.conv_kernel").as_str())?;
        let head_dim = file.required_u64(arch_key_text(arch, "ssm.state_size").as_str())?;
        let n_k_heads = file.required_u64(arch_key_text(arch, "ssm.group_count").as_str())?;
        let n_v_heads = file.required_u64(arch_key_text(arch, "ssm.time_step_rank").as_str())?;
        let h = GdnHparams {
            d_conv: d_conv as usize,
            head_dim: head_dim as usize,
            n_k_heads: n_k_heads as usize,
            n_v_heads: n_v_heads as usize,
            map: head_map(arch),
        };
        let inner = file.required_u64(arch_key_text(arch, "ssm.inner_size").as_str())?;
        let d_inner: usize = inner as usize;
        let fits = match h.n_v_heads.checked_mul(h.head_dim) {
            Some(width) => d_inner == width,
            None => false,
        };
        if h.d_conv < 2 || h.head_dim == 0 || h.n_k_heads == 0 || h.n_v_heads % h.n_k_heads != 0
            || !fits {
            let why = String::from_str(BAD_GEOMETRY[0]).concat(
                decimal_text(h.d_conv as u64).as_str(),
            ).concat(BAD_GEOMETRY[1]).concat(decimal_text(h.head_dim as u64).as_str()).concat(
                BAD_GEOMETRY[2],
            ).concat(decimal_text(h.n_k_heads as u64).as_str()).concat(BAD_GEOMETRY[3]).concat(
                decimal_text(h.n_v_heads as u64).as_str(),
            ).concat(BAD_GEOMETRY[4]).concat(map_text(h.map)).concat(BAD_GEOMETRY[5]).concat(
                decimal_text(d_inner as u64).as_str(),
            ).concat(BAD_GEOMETRY[6]);
            return Err(LoadError::UnsupportedFeature(String::from_str(arch), why));
        }
        Ok(h)
    }

    proof fn widths_fit(&self)
        requires
            self.conv_width() <= usize::MAX,
        ensures
            0 <= self.key_width(),
            2 * self.key_width() <= usize::MAX,
            0 <= self.value_width() <= usize::MAX,
    {
        assert(self.key_width() >= 0) by (nonlinear_arith)
            requires
                self.key_width() == self.n_k_heads * self.head_dim,
        ;
        assert(self.value_width() >= 0) by (nonlinear_arith)
            requires
                self.value_width() == self.n_v_heads * self.head_dim,
        ;
    }

    /// The width of all K heads.
    pub fn key_dim(self) -> (n: usize)
        requires
            self.conv_width() <= usize::MAX,
        ensures
            n == self.key_width(),
    {
        proof {
            self.widths_fit();
        }
        self.n_k_heads * self.head_dim
    }

    /// The width of all V heads.
    pub fn value_dim(self) -> (n: usize)
        requires
            self.conv_width() <= usize::MAX,
        ensures
            n == self.value_width(),
    {
        proof {
            self.widths_fit();
        }
        self.n_v_heads * self.head_dim
    }

    /// The channels of the convolution.
    pub fn conv_dim(self) -> (n: usize)
        requires
            self.conv_width() <= usize::MAX,
        ensures
            n == self.conv_width(),
    {
        proof {
            self.widths_fit();
        }
        2 * self.key_dim() + self.value_dim()
    }

    /// The dimensions of the delta rule.
    pub fn delta_dims(self) -> (dims: DeltaDims)
        ensures
            dims == (DeltaDims {
                n_k_heads: self.n_k_heads,
                n_v_heads: self.n_v_heads,
                head_dim: self.head_dim,
                map: self.map,
            }),
    {
        DeltaDims {
            n_k_heads: self.n_k_heads,
            n_v_heads: self.n_v_heads,
            head_dim: self.head_dim,
            map: self.map,
        }
    }

    /// The lengths of a layer's state: the convolution window and the
    /// delta state.
    pub fn state_floats(self) -> (lens: (usize, usize))
        requires
            self.d_conv >= 1,
            self.sizes_fit(),
        ensures
            lens.0 == (self.d_conv - 1) * self.conv_width(),
            lens.1 == self.delta_len(),
    {
        proof {
            self.widths_fit();
            let rows = (self.d_conv - 1) as int;
            let w = self.conv_width();
            assert(0 <= rows * w <= self.d_conv * w) by (nonlinear_arith)
                requires
                    rows == self.d_conv - 1,
                    rows >= 0,
                    w >= 0,
            ;
        }
        ((self.d_conv - 1) * self.conv_dim(), self.value_dim() * self.head_dim)
    }

    /// How many V heads go with one K head.
    pub open spec fn ratio(&self) -> int {
        self.n_v_heads as int / self.n_k_heads as int
    }
}

/// Cuts the convolution's output of one token into Q, K and V.
pub fn cut_qkv<'a, T>(h: &GdnHparams, qkv: &'a [T]) -> (parts: (&'a [T], &'a [T], &'a [T]))
    requires
        h.conv_width() <= usize::MAX,
        qkv@.len() == h.conv_width(),
    ensures
        parts.0@.len() == h.key_width(),
        parts.1@.len() == h.key_width(),
        parts.2@.len() == h.value_width(),
        parts.0@ + parts.1@ + parts.2@ == qkv@,
{
    proof {
        h.widths_fit();
    }
    let key = h.key_dim();
    let q = slice_subrange(qkv, 0, key);
    let k = slice_subrange(qkv, key, 2 * key);
    let v = slice_subrange(qkv, 2 * key, qkv.len());
    assert(q@ + k@ + v@ =~= qkv@);
    (q, k, v)
}

/// Where the fused projection holds head `hd`'s beta: the betas of its K
/// group come first, then the group's alphas.
pub open spec fn beta_place(h: GdnHparams, hd: int) -> int {
    (hd / h.ratio()) * (2 * h.ratio()) + hd % h.ratio()
}

/// Where the fused projection holds head `hd`'s alpha.
pub open spec fn alpha_place(h: GdnHparams, hd: int) -> int {
    beta_place(h, hd) + h.ratio()
}

proof fn ratio_facts(h: GdnHparams)
    requires
        h.well_formed(),
        h.n_v_heads > 0,
    ensures
        h.ratio() > 0,
        h.ratio() * h.n_k_heads == h.n_v_heads,
{
    let v = h.n_v_heads as int;
    let k = h.n_k_heads as int;
    let r = h.ratio();
    vstd::arithmetic::div_mod::lemma_fundamental_div_mod(v, k);
    assert(r * k == v) by (nonlinear_arith)
        requires
            v == k * (v / k) + v % k,
            v % k == 0,
            r == v / k,
    ;
    assert(r > 0) by (nonlinear_arith)
        requires
            r * k == v,
            v > 0,
            k > 0,
    ;
}

proof fn place_bounds(h: GdnHparams, hd: int)
    requires
        h.well_formed(),
        0 <= hd < h.n_v_heads,
    ensures
        h.ratio() > 0,
        0 <= hd / h.ratio() < h.n_k_heads,
        0 <= hd % h.ratio() < h.ratio(),
        hd == (hd / h.ratio()) * h.ratio() + hd % h.ratio(),
        0 <= beta_place(h, hd),
        alpha_place(h, hd) < 2 * h.n_v_heads,
{
    ratio_facts(h);
    let r = h.ratio();
    let q = hd / r;
    let m = hd % r;
    vstd::arithmetic::div_mod::lemma_fundamental_div_mod(hd, r);
    assert(hd == q * r + m) by (nonlinear_arith)
        requires
            hd == r * q + m,
    ;
    assert(0 <= q < h.n_k_heads) by (nonlinear_arith)
        requires
            hd == q * r + m,
            0 <= m < r,
            0 <= hd < h.n_v_heads,
            r * h.n_k_heads == h.n_v_heads,
            r > 0,
    ;
    assert(0 <= q * (2 * r) && q * (2 * r) + m + r < 2 * h.n_v_heads) by (nonlinear_arith)
        requires
            0 <= q < h.n_k_heads,
            0 <= m < r,
            r * h.n_k_heads == h.n_v_heads,
    ;
}

/// The fused projection's rows are shared out without gap or overlap:
/// two different heads, or the two gates of one head, never read the
/// same row.
pub proof fn fused_rows_do_not_overlap(h: GdnHparams, a: int, b: int)
    requires
        h.well_formed(),
        0 <= a < h.n_v_heads,
        0 <= b < h.n_v_heads,
    ensures
        a != b ==> beta_place(h, a) != beta_place(h, b),
        a != b ==> alpha_place(h, a) != alpha_place(h, b),
        beta_place(h, a) != alpha_place(h, b),
        0 <= beta_place(h, a) < 2 * h.n_v_heads,
        0 <= alpha_place(h, a) < 2 * h.n_v_heads,
{
    place_bounds(h, a);
    place_bounds(h, b);
    let r = h.ratio();
    let (qa, ma) = (a / r, a % r);
    let (qb, mb) = (b / r, b % r);
    assert(qa * (2 * r) + ma == qb * (2 * r) + mb ==> qa == qb && ma == mb) by (nonlinear_arith)
        requires
            0 <= ma < r,
            0 <= mb < r,
    ;
    assert(qa * (2 * r) + ma != qb * (2 * r) + mb + r) by (nonlinear_arith)
        requires
            0 <= ma < r,
            0 <= mb < r,
    ;
}

/// Takes the fused projection of `rows` tokens apart into the betas and
/// the alphas, one row of heads for each token.
pub fn split_beta_alpha<T: Copy>(h: &GdnHparams, mixed: &[T], rows: usize) -> (gates: (
    Vec<T>,
    Vec<T>,
))
    requires
        h.well_formed(),
        mixed@.len() == rows * (2 * h.n_v_heads),
    ensures
        gates.0@.len() == rows * h.n_v_heads,
        gates.1@.len() == rows * h.n_v_heads,
        forall|r: int, hd: int|
            #![trigger gates.0@[r * h.n_v_heads + hd]]
            0 <= r < rows && 0 <= hd < h.n_v_heads ==> gates.0@[r * h.n_v_heads + hd] == mixed@[r
                * (2 * h.n_v_heads) + beta_place(*h, hd)],
        forall|r: int, hd: int|
            #![trigger gates.1@[r * h.n_v_heads + hd]]
            0 <= r < rows && 0 <= hd < h.n_v_heads ==> gates.1@[r * h.n_v_heads + hd] == mixed@[r
                * (2 * h.n_v_heads) + alpha_place(*h, hd)],
{
    let n_v = h.n_v_heads;
    if n_v == 0 {
        assert(rows * n_v == 0) by (nonlinear_arith)
            requires
                n_v == 0,
        ;
        return (Vec::new(), Vec::new());
    }
    let ratio: usize = n_v / h.n_k_heads;
    proof {
        ratio_facts(*h);
    }
    let total = mixed.len();
    let mut beta: Vec<T> = Vec::new();
    let mut alpha: Vec<T> = Vec::new();
    let mut r: usize = 0;
    while r < rows
        invariant
            r <= rows,
            n_v == h.n_v_heads,
            n_v > 0,
            ratio == h.ratio(),
            ratio > 0,
            h.well_formed(),
            mixed@.len() == rows * (2 * n_v),
            total == mixed@.len(),
            beta@.len() == r * n_v,
            alpha@.len() == r * n_v,
            forall|k: int, hd: int|
                #![trigger beta@[k * n_v + hd]]
                0 <= k < r && 0 <= hd < n_v ==> beta@[k * n_v + hd] == mixed@[k * (2 * n_v)
                    + beta_place(*h, hd)],
            forall|k: int, hd: int|
                #![trigger alpha@[k * n_v + hd]]
                0 <= k < r && 0 <= hd < n_v ==> alpha@[k * n_v + hd] == mixed@[k * (2 * n_v)
                    + alpha_place(*h, hd)],
        decreases rows - r,
    {
        let mut hd: usize = 0;
        while hd < n_v
            invariant
                hd <= n_v,
                r < rows,
                n_v == h.n_v_heads,
                n_v > 0,
                ratio == h.ratio(),
                ratio > 0,
                h.well_formed(),
                mixed@.len() == rows * (2 * n_v),
                total == mixed@.len(),
                beta@.len() == r * n_v + hd,
                alpha@.len() == r * n_v + hd,
                forall|k: int, g: int|
                    #![trigger beta@[k * n_v + g]]
                    (0 <= k < r && 0 <= g < n_v) || (k == r && 0 <= g < hd) ==> beta@[k * n_v + g]
                        == mixed@[k * (2 * n_v) + beta_place(*h, g)],
                forall|k: int, g: int|
                    #![trigger alpha@[k * n_v + g]]
                    (0 <= k < r && 0 <= g < n_v) || (k == r && 0 <= g < hd) ==> alpha@[k * n_v + g]
                        == mixed@[k * (2 * n_v) + alpha_place(*h, g)],
            decreases n_v - hd,
        {
            proof {
                place_bounds(*h, hd as int);
                let place = beta_place(*h, hd as int);
                assert(r * (2 * n_v) + place + ratio < rows * (2 * n_v)) by (nonlinear_arith)
                    requires
                        r < rows,
                        place + ratio < 2 * n_v,
                ;
                assert(0 <= r * (2 * n_v)) by (nonlinear_arith);
                assert(2 * n_v <= rows * (2 * n_v)) by (nonlinear_arith)
                    requires
                        r < rows,
                ;
                assert((hd as int / ratio as int) * (2 * ratio) <= place);
            }
            let ghost was_beta = beta@;
            let ghost was_alpha = alpha@;
            let base: usize = (hd / ratio) * (2 * ratio) + hd % ratio;
            beta.push(mixed[r * (2 * n_v) + base]);
            alpha.push(mixed[r * (2 * n_v) + base + ratio]);
            proof {
                assert forall|k: int, g: int|
                    #![trigger beta@[k * n_v + g]]
                    (0 <= k < r && 0 <= g < n_v) || (k == r && 0 <= g < hd + 1) implies beta@[k
                    * n_v + g] == mixed@[k * (2 * n_v) + beta_place(*h, g)] by {
                    place_before(k, g, r as int, hd as int, n_v as int);
                    assert(was_beta.len() == r * n_v + hd);
                    if !(k == r && g == hd) {
                        assert(beta@[k * n_v + g] == was_beta[k * n_v + g]);
                    }
                }
                assert forall|k: int, g: int|
                    #![trigger alpha@[k * n_v + g]]
                    (0 <= k < r && 0 <= g < n_v) || (k == r && 0 <= g < hd + 1) implies alpha@[k
                    * n_v + g] == mixed@[k * (2 * n_v) + alpha_place(*h, g)] by {
                    place_before(k, g, r as int, hd as int, n_v as int);
                    assert(was_alpha.len() == r * n_v + hd);
                    if !(k == r && g == hd) {
                        assert(alpha@[k * n_v + g] == was_alpha[k * n_v + g]);
                    }
                }
            }
            hd += 1;
        }
        assert(r * n_v + n_v == (r + 1) * n_v) by (nonlinear_arith);
        r += 1;
    }
    (beta, alpha)
}

proof fn place_before(k: int, g: int, r: int, hd: int, n: int)
    requires
        0 <= hd < n,
        (0 <= k < r && 0 <= g < n) || (k == r && 0 <= g <= hd),
        0 <= r,
    ensures
        0 <= k * n + g <= r * n + hd,
        k * n + g == r * n + hd ==> k == r && g == hd,
{
    if k < r {
        assert(k * n + g < r * n) by (nonlinear_arith)
            requires
                k + 1 <= r,
                g < n,
                0 <= n,
        ;
        assert(0 <= k * n) by (nonlinear_arith)
            requires
                0 <= k,
                0 <= n,
        ;
    } else {
        assert(0 <= k * n) by (nonlinear_arith)
            requires
                0 <= k,
                0 <= n,
        ;
    }
}

/// Where a layer's two gates come from.
#[derive(Debug)]
pub enum BetaAlpha {
    /// Two projections, each `[n_v_heads, n_embd]`.
    Split { beta: WeightMatrix, alpha: WeightMatrix },
    /// One projection, `[2 n_v_heads, n_embd]`, its rows laid out as
    /// [`split_beta_alpha`] takes them apart.
    Fused { ba: WeightMatrix },
}

/// One GDN layer's weights; the vectors are bit patterns.
#[derive(Debug)]
pub struct Gdn {
    pub h: GdnHparams,
    /// `[conv_dim, n_embd]`.
    pub qkv: WeightMatrix,
    /// `[value_dim, n_embd]`.
    pub z_proj: WeightMatrix,
    /// `[conv_dim][d_conv]`.
    pub conv1d: Vec<u32>,
    /// `[n_v_heads]`.
    pub dt_bias: Vec<u32>,
    /// `[n_v_heads]`.
    pub a: Vec<u32>,
    pub beta_alpha: BetaAlpha,
    /// `[head_dim]`, one weight for every head.
    pub norm: Vec<u32>,
    /// `[n_embd, value_dim]`.
    pub out_proj: WeightMatrix,
}

/// Between the size found and the size wanted of a matrix.
pub const SIZE_NOTE: &'static str = "; qwen35.cpp:66-74 sizes it ";

/// Between the length found and the length wanted of a vector.
pub const LENGTH_NOTE: &'static str = " elements; qwen35.cpp:66-74 sizes it ";

/// The refusal of a layer without the fused projection.
pub const NO_QKV: &'static str = "absent: the gated delta net's fused q/k/v projection (qwen35.cpp:66); \
     the legacy `ssm_in` / `ssm_ba` spelling (qwen3next.cpp:88-95) is not served";

/// Why a layer's gates cannot be loaded: the fused projection where the
/// file has it, else the two.
pub open spec fn gates_fault(file: GgufFile, h: GdnHparams, l: nat, hidden_dim: usize) -> Option<
    LoadFault,
> {
    let fused = block_name(l, "ssm_ba.weight"@);
    if file.has(fused) {
        sized_matrix_fault(file, fused, (2 * h.n_v_heads) as usize, hidden_dim, SIZE_NOTE@)
    } else {
        first_fault(
            sized_matrix_fault(
                file,
                block_name(l, "ssm_beta.weight"@),
                h.n_v_heads,
                hidden_dim,
                SIZE_NOTE@,
            ),
            sized_matrix_fault(
                file,
                block_name(l, "ssm_alpha.weight"@),
                h.n_v_heads,
                hidden_dim,
                SIZE_NOTE@,
            ),
        )
    }
}

/// What a layer's gates are.
pub open spec fn gates_are(file: GgufFile, l: nat, gates: BetaAlpha) -> bool {
    let fused = block_name(l, "ssm_ba.weight"@);
    match gates {
        BetaAlpha::Fused { ba } => file.has(fused) && ba.is_tensor(file, fused),
        BetaAlpha::Split { beta, alpha } => {
            &&& !file.has(fused)
            &&& beta.is_tensor(file, block_name(l, "ssm_beta.weight"@))
            &&& alpha.is_tensor(file, block_name(l, "ssm_alpha.weight"@))
        },
    }
}

/// Why a layer's tensors cannot be loaded.
pub open spec fn tensors_fault(file: GgufFile, h: GdnHparams, l: nat, hidden_dim: usize) -> Option<
    LoadFault,
> {
    let qkv = block_name(l, "attn_qkv.weight"@);
    if !file.has(qkv) {
        Some(LoadFault::UnsupportedFeature(qkv, NO_QKV@))
    } else {
        first_fault(
            gates_fault(file, h, l, hidden_dim),
            first_fault(
                sized_matrix_fault(file, qkv, h.conv_width() as usize, hidden_dim, SIZE_NOTE@),
                first_fault(
                    sized_matrix_fault(
                        file,
                        block_name(l, "attn_gate.weight"@),
                        h.value_width() as usize,
                        hidden_dim,
                        SIZE_NOTE@,
                    ),
                    first_fault(
                        sized_vector_fault(
                            file,
                            block_name(l, "ssm_conv1d.weight"@),
                            (h.d_conv * h.conv_width()) as usize,
                            LENGTH_NOTE@,
                        ),
                        first_fault(
                            sized_vector_fault(
                                file,
                                block_name(l, "ssm_dt.bias"@),
                                h.n_v_heads,
                                LENGTH_NOTE@,
                            ),
                            first_fault(
                                sized_vector_fault(
                                    file,
                                    block_name(l, "ssm_a"@),
                                    h.n_v_heads,
                                    LENGTH_NOTE@,
                                ),
                                first_fault(
                                    sized_vector_fault(
                                        file,
                                        block_name(l, "ssm_norm.weight"@),
                                        h.head_dim,
                                        LENGTH_NOTE@,
                                    ),
                                    sized_matrix_fault(
                                        file,
                                        block_name(l, "ssm_out.weight"@),
                                        hidden_dim,
                                        h.value_width() as usize,
                                        SIZE_NOTE@,
                                    ),
                                ),
                            ),
                        ),
                    ),
                ),
            ),
        )
    }
}

/// Whether the sizes that a layer's tensors are held against are machine
/// numbers, as far as loading gets to them.
pub open spec fn layer_widths_fit(file: GgufFile, h: GdnHparams, l: nat, hidden_dim: usize) -> bool {
    let qkv = block_name(l, "attn_qkv.weight"@);
    let gates_load = file.has(qkv) && gates_fault(file, h, l, hidden_dim) is None;
    let projections_load = gates_load && sized_matrix_fault(
        file,
        qkv,
        h.conv_width() as usize,
        hidden_dim,
        SIZE_NOTE@,
    ) is None && sized_matrix_fault(
        file,
        block_name(l, "attn_gate.weight"@),
        h.value_width() as usize,
        hidden_dim,
        SIZE_NOTE@,
    ) is None;
    &&& file.has(qkv) && file.has(block_name(l, "ssm_ba.weight"@)) ==> 2 * h.n_v_heads <= usize::MAX
    &&& gates_load ==> h.conv_width() <= usize::MAX
    &&& projections_load ==> h.d_conv * h.conv_width() <= usize::MAX
}

impl Gdn {
    /// Every tensor has the size that the hyperparameters fix.
    pub open spec fn well_formed(&self) -> bool {
        &&& self.h.well_formed()
        &&& self.h.weights_fit()
        &&& self.qkv.n_rows() == self.h.conv_width()
        &&& self.z_proj.n_rows() == self.h.value_width()
        &&& self.conv1d@.len() == self.h.d_conv * self.h.conv_width()
        &&& self.dt_bias@.len() == self.h.n_v_heads
        &&& self.a@.len() == self.h.n_v_heads
        &&& self.norm@.len() == self.h.head_dim
        &&& self.out_proj.n_cols() == self.h.value_width()
        &&& match self.beta_alpha {
            BetaAlpha::Split { beta, alpha } => beta.n_rows() == self.h.n_v_heads
                && alpha.n_rows() == self.h.n_v_heads,
            BetaAlpha::Fused { ba } => ba.n_rows() == 2 * self.h.n_v_heads,
        }
    }

    /// What a layer's weights are.
    pub open spec fn is_layer(&self, file: GgufFile, l: nat) -> bool {
        &&& self.qkv.is_tensor(file, block_name(l, "attn_qkv.weight"@))
        &&& self.z_proj.is_tensor(file, block_name(l, "attn_gate.weight"@))
        &&& self.conv1d@ == vector_of(file, block_name(l, "ssm_conv1d.weight"@))
        &&& self.dt_bias@ == vector_of(file, block_name(l, "ssm_dt.bias"@))
        &&& self.a@ == vector_of(file, block_name(l, "ssm_a"@))
        &&& gates_are(file, l, self.beta_alpha)
        &&& self.norm@ == vector_of(file, block_name(l, "ssm_norm.weight"@))
        &&& self.out_proj.is_tensor(file, block_name(l, "ssm_out.weight"@))
    }

    /// Why a layer cannot be loaded.
    pub open spec fn fault(file: GgufFile, arch: Seq<char>, l: nat, hidden_dim: usize) -> Option<
        LoadFault,
    > {
        first_fault(
            GdnHparams::fault(file, arch),
            tensors_fault(file, GdnHparams::declared(file, arch), l, hidden_dim),
        )
    }

    /// Loads a layer's tensors and checks their sizes.
    pub fn load(file: &GgufFile, arch: &str, layer: usize, hidden_dim: usize) -> (w: Result<
        Self,
        LoadError,
    >)
        requires
            GdnHparams::fault(*file, arch@) is None ==> layer_widths_fit(
                *file,
                GdnHparams::declared(*file, arch@),
                layer as nat,
                hidden_dim,
            ),
        ensures
            match Self::fault(*file, arch@, layer as nat, hidden_dim) {
                Some(fault) => w is Err && w->Err_0@ == fault,
                None => {
                    &&& w is Ok
                    &&& w->Ok_0.h == GdnHparams::declared(*file, arch@)
                    &&& w->Ok_0.is_layer(*file, layer as nat)
                    &&& w->Ok_0.well_formed()
                    &&& w->Ok_0.out_proj.n_rows() == hidden_dim
                },
            },
            w is Ok ==> match w->Ok_0.beta_alpha {
                BetaAlpha::Split { beta, alpha } => {
                    &&& !file.has("blk."@ + decimal(layer as nat) + "."@ + "ssm_ba.weight"@)
                    &&& beta.is_tensor(
                        *file,
                        "blk."@ + decimal(layer as nat) + "."@ + "ssm_beta.weight"@,
                    )
                    &&& alpha.is_tensor(
                        *file,
                        "blk."@ + decimal(layer as nat) + "."@ + "ssm_alpha.weight"@,
                    )
                },
                BetaAlpha::Fused { ba } => ba.is_tensor(
                    *file,
                    "blk."@ + decimal(layer as nat) + "."@ + "ssm_ba.weight"@,
                ),
            },
            w is Ok ==> {
                let g = w->Ok_0;
                &&& g.qkv.is_tensor(
                    *file,
                    "blk."@ + decimal(layer as nat) + "."@ + "attn_qkv.weight"@,
                )
                &&& g.z_proj.is_tensor(
                    *file,
                    "blk."@ + decimal(layer as nat) + "."@ + "attn_gate.weight"@,
                )
                &&& g.conv1d@ == vector_of(
                    *file,
                    "blk."@ + decimal(layer as nat) + "."@ + "ssm_conv1d.weight"@,
                )
                &&& g.dt_bias@ == vector_of(
                    *file,
                    "blk."@ + decimal(layer as nat) + "."@ + "ssm_dt.bias"@,
                )
                &&& g.a@ == vector_of(*file, "blk."@ + decimal(layer as nat) + "."@ + "ssm_a"@)
                &&& g.norm@ == vector_of(
                    *file,
                    "blk."@ + decimal(layer as nat) + "."@ + "ssm_norm.weight"@,
                )
                &&& g.out_proj.is_tensor(
                    *file,
                    "blk."@ + decimal(layer as nat) + "."@ + "ssm_out.weight"@,
                )
            },
    {
        let h = GdnHparams::read(file, arch)?;
        let qkv_name = block_name_text(layer, "attn_qkv.weight");
        if !file.has_tensor(qkv_name.as_str()) {
            return Err(LoadError::UnsupportedFeature(qkv_name, String::from_str(NO_QKV)));
        }
        let ba_name = block_name_text(layer, "ssm_ba.weight");
        let beta_alpha = if file.has_tensor(ba_name.as_str()) {
            BetaAlpha::Fused {
                ba: load_sized_matrix(
                    file,
                    ba_name.as_str(),
                    2 * h.n_v_heads,
                    hidden_dim,
                    SIZE_NOTE,
                )?,
            }
        } else {
            BetaAlpha::Split {
                beta: load_sized_matrix(
                    file,
                    block_name_text(layer, "ssm_beta.weight").as_str(),
                    h.n_v_heads,
                    hidden_dim,
                    SIZE_NOTE,
                )?,
                alpha: load_sized_matrix(
                    file,
                    block_name_text(layer, "ssm_alpha.weight").as_str(),
                    h.n_v_heads,
                    hidden_dim,
                    SIZE_NOTE,
                )?,
            }
        };
        let conv_dim = h.conv_dim();
        let value_dim = h.value_dim();
        let qkv = load_sized_matrix(file, qkv_name.as_str(), conv_dim, hidden_dim, SIZE_NOTE)?;
        let z_proj = load_sized_matrix(
            file,
            block_name_text(layer, "attn_gate.weight").as_str(),
            value_dim,
            hidden_dim,
            SIZE_NOTE,
        )?;
        assert(h.d_conv * h.conv_width() <= usize::MAX);
        let conv1d = load_sized_vec(
            file,
            block_name_text(layer, "ssm_conv1d.weight").as_str(),
            h.d_conv * conv_dim,
            LENGTH_NOTE,
        )?;
        let dt_bias = load_sized_vec(
            file,
            block_name_text(layer, "ssm_dt.bias").as_str(),
            h.n_v_heads,
            LENGTH_NOTE,
        )?;
        let a = load_sized_vec(
            file,
            block_name_text(layer, "ssm_a").as_str(),
            h.n_v_heads,
            LENGTH_NOTE,
        )?;
        let norm = load_sized_vec(
            file,
            block_name_text(layer, "ssm_norm.weight").as_str(),
            h.head_dim,
            LENGTH_NOTE,
        )?;
        let out_proj = load_sized_matrix(
            file,
            block_name_text(layer, "ssm_out.weight").as_str(),
            hidden_dim,
            value_dim,
            SIZE_NOTE,
        )?;
        Ok(Gdn { h, qkv, z_proj, conv1d, dt_bias, a, beta_alpha, norm, out_proj })
    }

    /// Whether every tensor has the size that the hyperparameters fix and
    /// the lengths of the state are machine numbers.
    fn is_sized(&self) -> (yes: bool)
        ensures
            yes == (self.well_formed() && self.h.sizes_fit()),
    {
        let h = &self.h;
        if h.d_conv < 2 || h.head_dim == 0 || h.n_k_heads == 0 || h.n_v_heads % h.n_k_heads != 0
            || !h.fits() {
            return false;
        }
        let conv_dim = h.conv_dim();
        let value_dim = h.value_dim();
        assert(h.d_conv * h.conv_width() <= usize::MAX);
        let gates = match &self.beta_alpha {
            BetaAlpha::Split { beta, alpha } => beta.rows() == h.n_v_heads && alpha.rows()
                == h.n_v_heads,
            BetaAlpha::Fused { ba } => match h.n_v_heads.checked_mul(2) {
                Some(n) => ba.rows() == n,
                None => false,
            },
        };
        gates && self.qkv.rows() == conv_dim && self.z_proj.rows() == value_dim
            && self.conv1d.len() == h.d_conv * conv_dim && self.dt_bias.len() == h.n_v_heads
            && self.a.len() == h.n_v_heads && self.norm.len() == h.head_dim && self.out_proj.cols()
            == value_dim
    }

    /// Whether the block can be run on the inputs of `rows` tokens, of
    /// this length together, and on this state: its tensors have their
    /// sizes, and so have the inputs and the state.
    pub fn takes(&self, inputs: usize, rows: usize, state: &RecurrentState) -> (yes: bool)
        ensures
            yes == {
                &&& self.well_formed()
                &&& inputs == rows * self.out_proj.n_rows()
                &&& state.conv@.len() == (self.h.d_conv - 1) * self.h.conv_width()
                &&& state.ssm@.len() == self.h.delta_len()
            },
    {
        let found = state.ssm.len();
        if !self.is_sized() {
            assert(self.well_formed() ==> found < self.h.delta_len());
            return false;
        }
        let (conv, ssm) = self.h.state_floats();
        let whole = match rows.checked_mul(self.out_proj.rows()) {
            Some(n) => n == inputs,
            None => false,
        };
        whole && state.conv.len() == conv && found == ssm
    }

    /// The state of a new sequence for this layer.
    pub fn zero_state(&self) -> (state: RecurrentState)
        requires
            self.well_formed(),
            self.h.sizes_fit(),
        ensures
            state.conv@ == Seq::new(
                ((self.h.d_conv - 1) * self.h.conv_width()) as nat,
                |i: int| 0u32,
            ),
            state.ssm@ == Seq::new(self.h.delta_len() as nat, |i: int| 0u32),
    {
        let (conv, ssm) = self.h.state_floats();
        RecurrentState::zeros(conv, ssm)
    }
}

/// The architectures whose recurrent layers are declared by a list or an
/// interval.
pub const INTERVAL_RECURRENT_ARCHITECTURES: [&'static str; 3] = [
    "qwen35",
    "qwen35moe",
    "qwen3next",
];

/// The refusal of a list of another length than the blocks, round the
/// two lengths.
pub const LIST_LENGTH: [&'static str; 2] = [
    " entries for block_count ",
    "; llama.cpp reads it at n_layer_all length (qwen35.cpp:17)",
];

/// The refusal of an entry that is no truth value, round its place.
pub const NOT_A_BOOL: [&'static str; 2] = ["entry ", " is not a bool"];

/// The refusal of an interval of zero.
pub const NO_INTERVAL: &'static str = "0: qwen35.cpp:22 takes `(i + 1) % interval`";

/// The first of the first `n` items that is no truth value.
pub open spec fn first_non_bool(items: Seq<GgufValue>, n: nat) -> Option<nat>
    decreases n,
{
    if n == 0 || n > items.len() {
        None
    } else {
        match first_non_bool(items, (n - 1) as nat) {
            Some(i) => Some(i),
            None => if items[n - 1].truth() is None {
                Some((n - 1) as nat)
            } else {
                None
            },
        }
    }
}

proof fn first_non_bool_stays(items: Seq<GgufValue>, k: nat, n: nat)
    requires
        k <= n <= items.len(),
        first_non_bool(items, k) is Some,
    ensures
        first_non_bool(items, n) == first_non_bool(items, k),
    decreases n,
{
    if k < n {
        first_non_bool_stays(items, k, (n - 1) as nat);
    }
}

/// The interval between full-attention layers that a file declares.
pub open spec fn interval_of(file: GgufFile, arch: Seq<char>) -> usize {
    u64_or(file.meta_u64(arch_key(arch, "full_attention_interval"@)), 4)
}

/// The smaller of a trunk and a list.
pub open spec fn shorter(n: nat, m: nat) -> nat {
    if n <= m {
        n
    } else {
        m
    }
}

/// Why a file's declaration of its recurrent layers is refused.
pub open spec fn recurrent_fault(
    file: GgufFile,
    arch: Seq<char>,
    block_count: usize,
    n_layers: usize,
) -> Option<LoadFault> {
    let key = arch_key(arch, "attention.recurrent_layers"@);
    if !has_name(INTERVAL_RECURRENT_ARCHITECTURES@, arch) {
        None
    } else {
        match file.meta(key) {
            Some(GgufValue::Array(items)) => if items@.len() != block_count {
                Some(
                    LoadFault::UnsupportedFeature(
                        key,
                        decimal(items@.len()) + LIST_LENGTH@[0]@ + decimal(block_count as nat)
                            + LIST_LENGTH@[1]@,
                    ),
                )
            } else {
                match first_non_bool(items@, shorter(n_layers as nat, items@.len())) {
                    Some(i) => Some(
                        LoadFault::UnsupportedFeature(
                            key,
                            NOT_A_BOOL@[0]@ + decimal(i) + NOT_A_BOOL@[1]@,
                        ),
                    ),
                    None => None,
                }
            },
            _ => if interval_of(file, arch) == 0 {
                Some(
                    LoadFault::UnsupportedFeature(
                        arch_key(arch, "full_attention_interval"@),
                        NO_INTERVAL@,
                    ),
                )
            } else {
                None
            },
        }
    }
}

/// Which trunk layers are recurrent: as the list says, or else every
/// layer but each last one of an interval. `None` for an architecture
/// that decides otherwise.
pub open spec fn recurrent_are(
    file: GgufFile,
    arch: Seq<char>,
    n_layers: usize,
    layers: Option<Seq<bool>>,
) -> bool {
    if !has_name(INTERVAL_RECURRENT_ARCHITECTURES@, arch) {
        layers is None
    } else {
        &&& layers is Some
        &&& match file.meta(arch_key(arch, "attention.recurrent_layers"@)) {
            Some(GgufValue::Array(items)) => {
                &&& layers->0.len() == shorter(n_layers as nat, items@.len())
                &&& forall|i: int|
                    0 <= i < layers->0.len() ==> items@[i].truth() == Some(#[trigger] layers->0[i])
            },
            _ => {
                &&& layers->0.len() == n_layers
                &&& forall|i: int|
                    0 <= i < n_layers ==> #[trigger] layers->0[i] == ((i + 1) % interval_of(
                        file,
                        arch,
                    ) as int != 0)
            },
        }
    }
}

/// The entries of an optional vector.
pub open spec fn view_of(v: Option<Vec<bool>>) -> Option<Seq<bool>> {
    match v {
        Some(v) => Some(v@),
        None => None,
    }
}

/// Tells which trunk layers of a file are recurrent.
pub fn recurrent_layers(
    file: &GgufFile,
    arch: &str,
    block_count: usize,
    n_layers: usize,
) -> (layers: Result<Option<Vec<bool>>, LoadError>)
    ensures
        match recurrent_fault(*file, arch@, block_count, n_layers) {
            Some(fault) => layers is Err && layers->Err_0@ == fault,
            None => layers is Ok && recurrent_are(
                *file,
                arch@,
                n_layers,
                view_of(layers->Ok_0),
            ),
        },
{
    if !contains_name(&INTERVAL_RECURRENT_ARCHITECTURES, arch) {
        return Ok(None);
    }
    let key = arch_key_text(arch, "attention.recurrent_layers");
    match file.metadata(key.as_str()) {
        Some(GgufValue::Array(items)) => {
            if items.len() != block_count {
                return Err(
                    LoadError::UnsupportedFeature(
                        key,
                        decimal_text(items.len() as u64).concat(LIST_LENGTH[0]).concat(
                            decimal_text(block_count as u64).as_str(),
                        ).concat(LIST_LENGTH[1]),
                    ),
                );
            }
            let n: usize = if n_layers <= items.len() {
                n_layers
            } else {
                items.len()
            };
            let mut out: Vec<bool> = Vec::new();
            let mut i: usize = 0;
            while i < n
                invariant
                    i <= n,
                    n <= items@.len(),
                    key@ == arch_key(arch@, "attention.recurrent_layers"@),
                    recurrent_fault(*file, arch@, block_count, n_layers) == (match first_non_bool(
                        items@,
                        n as nat,
                    ) {
                        Some(i) => Some(
                            LoadFault::UnsupportedFeature(
                                key@,
                                NOT_A_BOOL@[0]@ + decimal(i) + NOT_A_BOOL@[1]@,
                            ),
                        ),
                        None => None,
                    }),
                    out@.len() == i,
                    first_non_bool(items@, i as nat) is None,
                    forall|j: int| 0 <= j < i ==> items@[j].truth() == Some(#[trigger] out@[j]),
                decreases n - i,
            {
                match items[i].as_bool() {
                    Some(b) => out.push(b),
                    None => {
                        proof {
                            assert(first_non_bool(items@, (i + 1) as nat) == Some(i as nat));
                            first_non_bool_stays(items@, (i + 1) as nat, n as nat);
                        }
                        return Err(
                            LoadError::UnsupportedFeature(
                                key,
                                String::from_str(NOT_A_BOOL[0]).concat(
                                    decimal_text(i as u64).as_str(),
                                ).concat(NOT_A_BOOL[1]),
                            ),
                        );
                    },
                }
                i += 1;
            }
            Ok(Some(out))
        },
        _ => {
            let interval_key = arch_key_text(arch, "full_attention_interval");
            let interval = file.usize_or(interval_key.as_str(), 4);
            if interval == 0 {
                return Err(
                    LoadError::UnsupportedFeature(interval_key, String::from_str(NO_INTERVAL)),
                );
            }
            let mut out: Vec<bool> = Vec::new();
            let mut i: usize = 0;
            while i < n_layers
                invariant
                    i <= n_layers,
                    interval > 0,
                    out@.len() == i,
                    forall|j: int|
                        0 <= j < i ==> #[trigger] out@[j] == ((j + 1) % interval as int != 0),
                decreases n_layers - i,
            {
                out.push((i + 1) % interval != 0);
                i += 1;
            }
            Ok(Some(out))
        },
    }
}

/// A loaded layer's beta projection is the tensor named `ssm_beta` and
/// its alpha projection the one named `ssm_alpha`, of the layer's own
/// block; only a file with an `ssm_ba` has the two in one.
pub proof fn each_gate_is_the_tensor_of_its_name(file: GgufFile, l: nat, g: Gdn)
    requires
        g.is_layer(file, l),
    ensures
        g.beta_alpha is Fused <==> file.has("blk."@ + decimal(l) + "."@ + "ssm_ba.weight"@),
        match g.beta_alpha {
            BetaAlpha::Split { beta, alpha } => {
                &&& beta.is_tensor(file, "blk."@ + decimal(l) + "."@ + "ssm_beta.weight"@)
                &&& alpha.is_tensor(file, "blk."@ + decimal(l) + "."@ + "ssm_alpha.weight"@)
            },
            BetaAlpha::Fused { ba } => ba.is_tensor(
                file,
                "blk."@ + decimal(l) + "."@ + "ssm_ba.weight"@,
            ),
        },
{
}

/// A gate depends on no tensor but its own: of two files that hold the
/// same `ssm_beta`, whatever their `ssm_alpha` is, the loaded beta
/// projections are of the same tensor and size, and so the other way
/// round.
pub proof fn a_gate_depends_on_its_own_tensor(
    file: GgufFile,
    other: GgufFile,
    l: nat,
    g: Gdn,
    k: Gdn,
)
    requires
        g.is_layer(file, l),
        k.is_layer(other, l),
        !file.has("blk."@ + decimal(l) + "."@ + "ssm_ba.weight"@),
        !other.has("blk."@ + decimal(l) + "."@ + "ssm_ba.weight"@),
    ensures
        g.beta_alpha is Split && k.beta_alpha is Split,
        file.tensor("blk."@ + decimal(l) + "."@ + "ssm_beta.weight"@) == other.tensor(
            "blk."@ + decimal(l) + "."@ + "ssm_beta.weight"@,
        ) ==> {
            let x = g.beta_alpha->Split_beta;
            let y = k.beta_alpha->Split_beta;
            &&& x is Stored && y is Stored
            &&& x->tensor@ == y->tensor@
            &&& x->part == y->part && x->parts == y->parts
            &&& x.n_rows() == y.n_rows() && x.n_cols() == y.n_cols()
        },
        file.tensor("blk."@ + decimal(l) + "."@ + "ssm_alpha.weight"@) == other.tensor(
            "blk."@ + decimal(l) + "."@ + "ssm_alpha.weight"@,
        ) ==> {
            let x = g.beta_alpha->Split_alpha;
            let y = k.beta_alpha->Split_alpha;
            &&& x is Stored && y is Stored
            &&& x->tensor@ == y->tensor@
            &&& x->part == y->part && x->parts == y->parts
            &&& x.n_rows() == y.n_rows() && x.n_cols() == y.n_cols()
        },
{
}

/// Every other weight of a loaded layer is the tensor of its name, too:
/// the decay, the bias of the time step and the norm are not exchanged,
/// nor are the output's gating matrix and the projection that is fused.
pub proof fn a_gdn_layer_is_loaded_by_name(file: GgufFile, l: nat, g: Gdn)
    requires
        g.is_layer(file, l),
    ensures
        g.qkv.is_tensor(file, "blk."@ + decimal(l) + "."@ + "attn_qkv.weight"@),
        g.z_proj.is_tensor(file, "blk."@ + decimal(l) + "."@ + "attn_gate.weight"@),
        g.conv1d@ == vector_of(file, "blk."@ + decimal(l) + "."@ + "ssm_conv1d.weight"@),
        g.dt_bias@ == vector_of(file, "blk."@ + decimal(l) + "."@ + "ssm_dt.bias"@),
        g.a@ == vector_of(file, "blk."@ + decimal(l) + "."@ + "ssm_a"@),
        g.norm@ == vector_of(file, "blk."@ + decimal(l) + "."@ + "ssm_norm.weight"@),
        g.out_proj.is_tensor(file, "blk."@ + decimal(l) + "."@ + "ssm_out.weight"@),
{
}

/// The dimensions of a layer are the numbers under their own keys: heads
/// are `state_size` wide, there is a K head for each of `group_count` and
/// a V head for each of `time_step_rank`, the window is `conv_kernel`
/// long, and the V heads together are `inner_size` wide.
pub proof fn gdn_dimensions_are_their_keys(file: GgufFile, arch: Seq<char>)
    requires
        GdnHparams::fault(file, arch) is None,
    ensures
        ({
            let h = GdnHparams::declared(file, arch);
            let inner = file.meta_u64(arch + "."@ + "ssm.inner_size"@);
            &&& file.meta_u64(arch + "."@ + "ssm.conv_kernel"@) is Some
            &&& h.d_conv == file.meta_u64(arch + "."@ + "ssm.conv_kernel"@)->0 as usize
            &&& file.meta_u64(arch + "."@ + "ssm.state_size"@) is Some
            &&& h.head_dim == file.meta_u64(arch + "."@ + "ssm.state_size"@)->0 as usize
            &&& file.meta_u64(arch + "."@ + "ssm.group_count"@) is Some
            &&& h.n_k_heads == file.meta_u64(arch + "."@ + "ssm.group_count"@)->0 as usize
            &&& file.meta_u64(arch + "."@ + "ssm.time_step_rank"@) is Some
            &&& h.n_v_heads == file.meta_u64(arch + "."@ + "ssm.time_step_rank"@)->0 as usize
            &&& h.map == HeadMap::Grouped <==> arch == "qwen3next"@
            &&& inner is Some
            &&& inner->0 as usize == h.n_v_heads * h.head_dim
            &&& h.d_conv >= 2 && h.head_dim > 0 && h.n_k_heads > 0
            &&& h.n_v_heads % h.n_k_heads == 0
        }),
{
    assert(GROUPED_HEAD_ARCHITECTURES@[0]@ == "qwen3next"@);
}

/// A layer's weights have the sizes that its dimensions give: the fused
/// projection and the convolution have a channel for each element of Q, K
/// and V, the gates one for each V head, the norm one for each element of
/// a head.
pub proof fn gdn_weights_have_the_sizes_of_their_heads(g: Gdn)
    requires
        g.well_formed(),
    ensures
        g.qkv.n_rows() == g.h.n_k_heads * g.h.head_dim + g.h.n_k_heads * g.h.head_dim
            + g.h.n_v_heads * g.h.head_dim,
        g.z_proj.n_rows() == g.h.n_v_heads * g.h.head_dim,
        g.out_proj.n_cols() == g.h.n_v_heads * g.h.head_dim,
        g.conv1d@.len() == g.h.d_conv * g.qkv.n_rows(),
        g.dt_bias@.len() == g.h.n_v_heads,
        g.a@.len() == g.h.n_v_heads,
        g.norm@.len() == g.h.head_dim,
        match g.beta_alpha {
            BetaAlpha::Split { beta, alpha } => beta.n_rows() == g.h.n_v_heads && alpha.n_rows()
                == g.h.n_v_heads,
            BetaAlpha::Fused { ba } => ba.n_rows() == g.h.n_v_heads + g.h.n_v_heads,
        },
{
}

/// How the fused projection is laid out. Of the V heads of one K group,
/// `r` of them, the betas stand first, in order, and the alphas right
/// behind them; the groups stand one after the other.
pub proof fn a_groups_betas_stand_before_its_alphas(h: GdnHparams, group: int, j: int, r: int)
    requires
        h.well_formed(),
        0 <= group < h.n_k_heads,
        0 <= j < r,
        r * h.n_k_heads == h.n_v_heads,
    ensures
        beta_place(h, group * r + j) == 2 * r * group + j,
        alpha_place(h, group * r + j) == 2 * r * group + r + j,
{
    assert(h.n_v_heads > 0) by (nonlinear_arith)
        requires
            r * h.n_k_heads == h.n_v_heads,
            r > 0,
            h.n_k_heads > 0,
    ;
    ratio_facts(h);
    let k = h.n_k_heads as int;
    assert(h.ratio() == r) by (nonlinear_arith)
        requires
            h.ratio() * k == h.n_v_heads,
            r * k == h.n_v_heads,
            k > 0,
    ;
    vstd::arithmetic::div_mod::lemma_fundamental_div_mod_converse(group * r + j, r, group, j);
    assert(group * (2 * r) == 2 * r * group) by (nonlinear_arith);
}

/// Without a list, a layer attends fully exactly where it is the last of
/// an interval: `interval - 1` recurrent layers, then a full one, again
/// and again; an interval that is not declared is four layers long.
pub proof fn the_last_layer_of_an_interval_attends_fully(
    file: GgufFile,
    arch: Seq<char>,
    n_layers: usize,
    layers: Seq<bool>,
    q: int,
    j: int,
    interval: int,
)
    requires
        arch == "qwen35"@ || arch == "qwen35moe"@ || arch == "qwen3next"@,
        file.meta(arch + "."@ + "attention.recurrent_layers"@) is None,
        recurrent_are(file, arch, n_layers, Some(layers)),
        interval == match file.meta_u64(arch + "."@ + "full_attention_interval"@) {
            Some(n) => n as usize as int,
            None => 4,
        },
        0 <= j < interval,
        0 <= q,
        q * interval + j < n_layers,
    ensures
        layers.len() == n_layers,
        layers[q * interval + j] == (j != interval - 1),
{
    assert(INTERVAL_RECURRENT_ARCHITECTURES@[0]@ == "qwen35"@);
    assert(INTERVAL_RECURRENT_ARCHITECTURES@[1]@ == "qwen35moe"@);
    assert(INTERVAL_RECURRENT_ARCHITECTURES@[2]@ == "qwen3next"@);
    assert(has_name(INTERVAL_RECURRENT_ARCHITECTURES@, arch));
    assert(interval_of(file, arch) == interval);
    let i = q * interval + j;
    assert(0 <= i) by (nonlinear_arith)
        requires
            i == q * interval + j,
            0 <= q,
            0 <= j < interval,
    ;
    if j == interval - 1 {
        assert(i + 1 == (q + 1) * interval) by (nonlinear_arith)
            requires
                i == q * interval + j,
                j == interval - 1,
        ;
        vstd::arithmetic::div_mod::lemma_mod_multiples_basic(q + 1, interval);
    } else {
        vstd::arithmetic::div_mod::lemma_fundamental_div_mod_converse(i + 1, interval, q, j + 1);
    }
}

/// A list, where a file has one, is what counts: layer `i` is recurrent
/// exactly where the list says so, whatever interval is declared beside
/// it; and an architecture that declares neither has no such layers.
pub proof fn a_list_of_recurrent_layers_counts(
    file: GgufFile,
    arch: Seq<char>,
    block_count: usize,
    n_layers: usize,
    layers: Option<Seq<bool>>,
    items: Seq<GgufValue>,
)
    requires
        recurrent_fault(file, arch, block_count, n_layers) is None,
        recurrent_are(file, arch, n_layers, layers),
        n_layers <= block_count,
        file.meta(arch + "."@ + "attention.recurrent_layers"@) matches Some(GgufValue::Array(v))
            && v@ == items,
    ensures
        arch == "qwen35"@ || arch == "qwen35moe"@ || arch == "qwen3next"@ ==> {
            &&& items.len() == block_count
            &&& layers is Some && layers->0.len() == n_layers
            &&& forall|i: int|
                0 <= i < n_layers ==> items[i].truth() == Some(#[trigger] layers->0[i])
        },
        arch != "qwen35"@ && arch != "qwen35moe"@ && arch != "qwen3next"@ ==> layers is None,
{
    assert(INTERVAL_RECURRENT_ARCHITECTURES@[0]@ == "qwen35"@);
    assert(INTERVAL_RECURRENT_ARCHITECTURES@[1]@ == "qwen35moe"@);
    assert(INTERVAL_RECURRENT_ARCHITECTURES@[2]@ == "qwen3next"@);
}

/// Where no list is declared, full attention comes back at every
/// interval: layer `i` is recurrent exactly when layer `i + interval`
/// is.
pub proof fn full_attention_recurs(file: GgufFile, arch: Seq<char>, n_layers: usize, layers: Seq<bool>, i: int)
    requires
        has_name(INTERVAL_RECURRENT_ARCHITECTURES@, arch),
        !(file.meta(arch_key(arch, "attention.recurrent_layers"@)) is Some && file.meta(
            arch_key(arch, "attention.recurrent_layers"@),
        )->0 is Array),
        interval_of(file, arch) > 0,
        recurrent_are(file, arch, n_layers, Some(layers)),
        0 <= i,
        i + interval_of(file, arch) < n_layers,
    ensures
        layers[i] == layers[i + interval_of(file, arch)],
{
    let n = interval_of(file, arch) as int;
    vstd::arithmetic::div_mod::lemma_mod_add_multiples_vanish(i + 1, n);
    assert(((i + n) + 1) % n == (n + (i + 1)) % n);
}

/// Which dimensions are taken: every key is there, the convolution looks
/// at more than the last token, there are heads of some width, the V heads
/// are a multiple of the others, and the inner width is that of the V
/// heads together.
pub proof fn which_gdn_dimensions_are_taken(file: GgufFile, arch: Seq<char>)
    ensures
        GdnHparams::fault(file, arch) is None <==> {
            let k = file.meta_u64(arch + "."@ + "ssm.group_count"@);
            let v = file.meta_u64(arch + "."@ + "ssm.time_step_rank"@);
            let width = file.meta_u64(arch + "."@ + "ssm.state_size"@);
            &&& file.meta_u64(arch + "."@ + "ssm.conv_kernel"@) is Some
            &&& file.meta_u64(arch + "."@ + "ssm.state_size"@) is Some
            &&& file.meta_u64(arch + "."@ + "ssm.group_count"@) is Some
            &&& file.meta_u64(arch + "."@ + "ssm.time_step_rank"@) is Some
            &&& file.meta_u64(arch + "."@ + "ssm.inner_size"@) is Some
            &&& file.meta_u64(arch + "."@ + "ssm.conv_kernel"@)->0 as usize >= 2
            &&& width->0 as usize > 0
            &&& k->0 as usize > 0
            &&& v->0 as usize % k->0 as usize == 0
            &&& file.meta_u64(arch + "."@ + "ssm.inner_size"@)->0 as usize == (v->0 as usize) * (width->0 as usize)
        },
{
}

/// Which layers load: those with every tensor, of the sizes that the
/// dimensions give. The two gates are one fused tensor or two.
pub proof fn which_gdn_layers_load(file: GgufFile, h: GdnHparams, l: nat, hidden_dim: usize)
    ensures
        tensors_fault(file, h, l, hidden_dim) is None <==> {
            let key = h.n_k_heads * h.head_dim;
            let value = h.n_v_heads * h.head_dim;
            &&& file.has("blk."@ + decimal(l) + "."@ + "attn_qkv.weight"@)
            &&& file.has("blk."@ + decimal(l) + "."@ + "ssm_ba.weight"@) ==> sized_matrix_fault(file, "blk."@ + decimal(l) + "."@ + "ssm_ba.weight"@, (2 * h.n_v_heads) as usize, hidden_dim, SIZE_NOTE@) is None
            &&& !file.has("blk."@ + decimal(l) + "."@ + "ssm_ba.weight"@) ==> sized_matrix_fault(file, "blk."@ + decimal(l) + "."@ + "ssm_beta.weight"@, (h.n_v_heads) as usize, hidden_dim, SIZE_NOTE@) is None && sized_matrix_fault(file, "blk."@ + decimal(l) + "."@ + "ssm_alpha.weight"@, (h.n_v_heads) as usize, hidden_dim, SIZE_NOTE@) is None
            &&& sized_matrix_fault(file, "blk."@ + decimal(l) + "."@ + "attn_qkv.weight"@, (2 * key + value) as usize, hidden_dim, SIZE_NOTE@) is None
            &&& sized_matrix_fault(file, "blk."@ + decimal(l) + "."@ + "attn_gate.weight"@, (value) as usize, hidden_dim, SIZE_NOTE@) is None
            &&& sized_vector_fault(file, "blk."@ + decimal(l) + "."@ + "ssm_conv1d.weight"@, (h.d_conv * (2 * key + value)) as usize, LENGTH_NOTE@) is None
            &&& sized_vector_fault(file, "blk."@ + decimal(l) + "."@ + "ssm_dt.bias"@, (h.n_v_heads) as usize, LENGTH_NOTE@) is None
            &&& sized_vector_fault(file, "blk."@ + decimal(l) + "."@ + "ssm_a"@, (h.n_v_heads) as usize, LENGTH_NOTE@) is None
            &&& sized_vector_fault(file, "blk."@ + decimal(l) + "."@ + "ssm_norm.weight"@, (h.head_dim) as usize, LENGTH_NOTE@) is None
            &&& sized_matrix_fault(file, "blk."@ + decimal(l) + "."@ + "ssm_out.weight"@, (hidden_dim) as usize, value as usize, SIZE_NOTE@) is None
        },
        !file.has("blk."@ + decimal(l) + "."@ + "attn_qkv.weight"@) ==> tensors_fault(file, h, l, hidden_dim) == Some(
            LoadFault::UnsupportedFeature("blk."@ + decimal(l) + "."@ + "attn_qkv.weight"@, NO_QKV@),
        ),
{
}

/// Which lists of recurrent layers are taken: one entry for each block,
/// all truth values as far as there are layers; where there is no list, an
/// interval that is not zero. Other architectures' keys are not read.
pub proof fn which_recurrent_lists_are_taken(
    file: GgufFile,
    arch: Seq<char>,
    block_count: usize,
    n_layers: usize,
)
    requires
        n_layers <= block_count,
    ensures
        arch != "qwen35"@ && arch != "qwen35moe"@ && arch != "qwen3next"@ ==> recurrent_fault(
            file,
            arch,
            block_count,
            n_layers,
        ) is None,
        arch == "qwen35"@ || arch == "qwen35moe"@ || arch == "qwen3next"@ ==> (recurrent_fault(
            file,
            arch,
            block_count,
            n_layers,
        ) is None <==> match file.meta(arch + "."@ + "attention.recurrent_layers"@) {
            Some(GgufValue::Array(items)) => items@.len() == block_count && forall|i: int|
                0 <= i < n_layers ==> (#[trigger] items@[i]).truth() is Some,
            _ => file.meta_u64(arch + "."@ + "full_attention_interval"@) matches Some(n) ==> n as usize != 0,
        }),
{
    let t = INTERVAL_RECURRENT_ARCHITECTURES@;
    assert(t[0]@ == "qwen35"@);
    assert(t[1]@ == "qwen35moe"@);
    assert(t[2]@ == "qwen3next"@);
    match file.meta(arch + "."@ + "attention.recurrent_layers"@) {
        Some(GgufValue::Array(items)) => {
            if items@.len() == block_count {
                all_are_bools(items@, n_layers as nat);
            }
        },
        _ => {},
    }
}

proof fn all_are_bools(items: Seq<GgufValue>, n: nat)
    requires
        n <= items.len(),
    ensures
        first_non_bool(items, n) is None <==> forall|i: int|
            0 <= i < n ==> (#[trigger] items[i]).truth() is Some,
    decreases n,
{
    if n > 0 {
        all_are_bools(items, (n - 1) as nat);
        let _ = items[n - 1];
    }
}

/// Of several keys that are missing, the first of those read is named.
pub proof fn the_first_missing_gdn_key_is_named(file: GgufFile, arch: Seq<char>)
    ensures
        file.meta_u64(arch + "."@ + "ssm.conv_kernel"@) is None ==> GdnHparams::fault(file, arch) == Some(
            LoadFault::MissingHparam(arch + "."@ + "ssm.conv_kernel"@),
        ),
        file.meta_u64(arch + "."@ + "ssm.conv_kernel"@) is Some && file.meta_u64(arch + "."@ + "ssm.state_size"@) is None ==> GdnHparams::fault(file, arch) == Some(
            LoadFault::MissingHparam(arch + "."@ + "ssm.state_size"@),
        ),
        file.meta_u64(arch + "."@ + "ssm.conv_kernel"@) is Some && file.meta_u64(arch + "."@ + "ssm.state_size"@) is Some && file.meta_u64(arch + "."@ + "ssm.group_count"@) is None ==> GdnHparams::fault(file, arch) == Some(
            LoadFault::MissingHparam(arch + "."@ + "ssm.group_count"@),
        ),
        file.meta_u64(arch + "."@ + "ssm.conv_kernel"@) is Some && file.meta_u64(arch + "."@ + "ssm.state_size"@) is Some && file.meta_u64(arch + "."@ + "ssm.group_count"@) is Some && file.meta_u64(arch + "."@ + "ssm.time_step_rank"@) is None ==> GdnHparams::fault(file, arch) == Some(
            LoadFault::MissingHparam(arch + "."@ + "ssm.time_step_rank"@),
        ),
        file.meta_u64(arch + "."@ + "ssm.conv_kernel"@) is Some && file.meta_u64(arch + "."@ + "ssm.state_size"@) is Some && file.meta_u64(arch + "."@ + "ssm.group_count"@) is Some && file.meta_u64(arch + "."@ + "ssm.time_step_rank"@) is Some && file.meta_u64(arch + "."@ + "ssm.inner_size"@) is None ==> GdnHparams::fault(file, arch) == Some(
            LoadFault::MissingHparam(arch + "."@ + "ssm.inner_size"@),
        ),
{
}

} // verus!
