//! The Mamba-2 block: the recurrent layer of the Mamba-2 hybrids, at the
//! site where attention stands on other layers.
//!
//! One input projection gives, per token, the gating values `z`, the convolution
//! input `xBC` and the step `dt`, in that order ([`cut_row`]); the
//! convolution's output is cut into `x`, `B` and `C` ([`cut_conv`]). The
//! state of a sequence is the convolution window and the scan state, of
//! the lengths that [`Mamba2Hparams::state_floats`] gives.

use crate::gguf::{missing_u64, u64_or, GgufFile};
use crate::load_error::{LoadError, LoadFault};
use crate::text::{
    arch_key, arch_key_text, block_name, block_name_text, contains_name, decimal, decimal_text,
    has_name,
};
use crate::weights::{
    check_length, check_size, first_fault, is_optional_vector, length_fault, load_f32_vec,
    load_f32_vec_optional, load_sized_matrix, load_sized_vec, load_weight_matrix, matrix_fault,
    optional_vector_fault, sized_matrix_fault, sized_vector_fault, vector_fault, vector_of,
    RecurrentState, WeightMatrix,
};
use vstd::prelude::*;
use vstd::slice::slice_subrange;
use vstd::string::StringExecFns;

verus! {

/// The architectures that run the block beside attention on every layer.
pub const PARALLEL_WITH_ATTENTION: [&'static str; 1] = ["falcon-h1"];

/// Whether every attention layer of `arch` also runs the block.
pub fn parallel_with_attention(arch: &str) -> (yes: bool)
    ensures
        yes == has_name(PARALLEL_WITH_ATTENTION@, arch@),
        yes == (arch@ == "falcon-h1"@),
{
    proof {
        assert(PARALLEL_WITH_ATTENTION@[0]@ == "falcon-h1"@);
    }
    contains_name(&PARALLEL_WITH_ATTENTION, arch)
}

/// The dimensions of the scan.
#[derive(Debug, Clone, Copy, PartialEq, Eq, Structural)]
pub struct ScanDims {
    pub n_head: usize,
    pub head_dim: usize,
    pub d_state: usize,
    pub n_group: usize,
}

/// The five `ssm.*` hyperparameters.
#[derive(Debug, Clone, Copy, PartialEq, Eq, Structural)]
pub struct Mamba2Hparams {
    pub d_conv: usize,
    pub d_inner: usize,
    pub d_state: usize,
    pub n_head: usize,
    pub n_group: usize,
}

/// The refusal of an inner width that does not share out, round the
/// width and the two counts.
pub const UNEVEN_INNER: [&'static str; 4] = [
    "ssm.inner_size ",
    " must be a multiple of ssm.time_step_rank ",
    " and of ssm.group_count ",
    " (mamba-base.cpp:167-168)",
];

/// The refusal of a convolution with no window, after its width.
pub const NO_WINDOW: &'static str = ": the conv state is d_conv - 1 rows";

/// The key of an `ssm.*` hyperparameter.
pub open spec fn ssm_key(arch: Seq<char>, suffix: Seq<char>) -> Seq<char> {
    arch_key(arch, suffix)
}

impl Mamba2Hparams {
    /// What a file declares; a missing number counts as zero.
    pub open spec fn declared(file: GgufFile, arch: Seq<char>) -> Mamba2Hparams {
        Mamba2Hparams {
            d_conv: u64_or(file.meta_u64(ssm_key(arch, "ssm.conv_kernel"@)), 0),
            d_inner: u64_or(file.meta_u64(ssm_key(arch, "ssm.inner_size"@)), 0),
            d_state: u64_or(file.meta_u64(ssm_key(arch, "ssm.state_size"@)), 0),
            n_head: u64_or(file.meta_u64(ssm_key(arch, "ssm.time_step_rank"@)), 0),
            n_group: u64_or(file.meta_u64(ssm_key(arch, "ssm.group_count"@)), 0),
        }
    }

    /// The first key that a file lacks.
    pub open spec fn missing_key(file: GgufFile, arch: Seq<char>) -> Option<LoadFault> {
        first_fault(
            missing_u64(file, ssm_key(arch, "ssm.conv_kernel"@)),
            first_fault(
                missing_u64(file, ssm_key(arch, "ssm.inner_size"@)),
                first_fault(
                    missing_u64(file, ssm_key(arch, "ssm.state_size"@)),
                    first_fault(
                        missing_u64(file, ssm_key(arch, "ssm.time_step_rank"@)),
                        missing_u64(file, ssm_key(arch, "ssm.group_count"@)),
                    ),
                ),
            ),
        )
    }

    /// The inner width shares out over the heads and over the groups,
    /// and the convolution has a window.
    pub open spec fn well_formed(&self) -> bool {
        &&& self.n_head > 0
        &&& self.d_inner % self.n_head == 0
        &&& self.n_group > 0
        &&& self.d_inner % self.n_group == 0
        &&& self.d_conv >= 2
    }

    /// Whether the sizes of the weights are machine numbers.
    pub open spec fn weights_fit(&self) -> bool {
        &&& self.in_rows() <= usize::MAX
        &&& self.d_conv * self.conv_channels() <= usize::MAX
    }

    /// Whether the sizes of the weights and the lengths of the state are
    /// machine numbers.
    pub open spec fn sizes_fit(&self) -> bool {
        &&& self.weights_fit()
        &&& self.scan_len() <= usize::MAX
    }

    /// The width of a head.
    pub open spec fn head_width(&self) -> int {
        self.d_inner as int / self.n_head as int
    }

    /// The channels of the convolution: `x`, then `B` and `C`.
    pub open spec fn conv_channels(&self) -> int {
        self.d_inner + 2 * (self.n_group * self.d_state)
    }

    /// The rows of the input projection: `z`, the convolution's input,
    /// and a step for each head.
    pub open spec fn in_rows(&self) -> int {
        self.d_inner + self.conv_channels() + self.n_head
    }

    /// The length of the scan state.
    pub open spec fn scan_len(&self) -> int {
        self.n_head * self.head_width() * self.d_state
    }

    /// Whether the sizes of the weights and the lengths of the state are
    /// machine numbers.
    pub fn fits(&self) -> (yes: bool)
        requires
            self.n_head > 0,
        ensures
            yes == self.sizes_fit(),
    {
        let groups = match self.n_group.checked_mul(self.d_state) {
            Some(n) => n,
            None => {
                return false;
            },
        };
        let channels = match groups.checked_mul(2) {
            Some(n) => match n.checked_add(self.d_inner) {
                Some(n) => n,
                None => {
                    return false;
                },
            },
            None => {
                return false;
            },
        };
        let rows = match self.d_inner.checked_add(channels) {
            Some(n) => n.checked_add(self.n_head),
            None => None,
        };
        let window = self.d_conv.checked_mul(channels);
        let width = self.d_inner / self.n_head;
        proof {
            let heads = self.n_head as int;
            vstd::arithmetic::div_mod::lemma_fundamental_div_mod(self.d_inner as int, heads);
            assert(heads * self.head_width() <= self.d_inner);
        }
        let heads = self.n_head * width;
        let scan = heads.checked_mul(self.d_state);
        rows.is_some() && window.is_some() && scan.is_some()
    }

    /// Why what a file declares is refused.
    pub open spec fn fault(file: GgufFile, arch: Seq<char>) -> Option<LoadFault> {
        let h = Self::declared(file, arch);
        first_fault(
            Self::missing_key(file, arch),
            if h.n_head == 0 || h.d_inner % h.n_head != 0 || h.n_group == 0 || h.d_inner % h.n_group
                != 0 {
                Some(
                    LoadFault::UnsupportedFeature(
                        arch,
                        UNEVEN_INNER@[0]@ + decimal(h.d_inner as nat) + UNEVEN_INNER@[1]@ + decimal(
                            h.n_head as nat,
                        ) + UNEVEN_INNER@[2]@ + decimal(h.n_group as nat) + UNEVEN_INNER@[3]@,
                    ),
                )
            } else if h.d_conv < 2 {
                Some(
                    LoadFault::UnsupportedFeature(
                        ssm_key(arch, "ssm.conv_kernel"@),
                        decimal(h.d_conv as nat) + NO_WINDOW@,
                    ),
                )
            } else {
                None
            },
        )
    }

    /// Reads the five keys of `arch`; every one is required.
    pub fn read(file: &GgufFile, arch: &str) -> (h: Result<Self, LoadError>)
        ensures
            match Self::fault(*file, arch@) {
                Some(fault) => h is Err && h->Err_0@ == fault,
                None => {
                    &&& h is Ok
                    &&& h->Ok_0 == Self::declared(*file, arch@)
                    &&& h->Ok_0.well_formed()
                },
            },
    {
        let d_conv = file.required_u64(arch_key_text(arch, "ssm.conv_kernel").as_str())?;
        let d_inner = file.required_u64(arch_key_text(arch, "ssm.inner_size").as_str())?;
        let d_state = file.required_u64(arch_key_text(arch, "ssm.state_size").as_str())?;
        let n_head = file.required_u64(arch_key_text(arch, "ssm.time_step_rank").as_str())?;
        let n_group = file.required_u64(arch_key_text(arch, "ssm.group_count").as_str())?;
        let h = Mamba2Hparams {
            d_conv: d_conv as usize,
            d_inner: d_inner as usize,
            d_state: d_state as usize,
            n_head: n_head as usize,
            n_group: n_group as usize,
        };
        if h.n_head == 0 || h.d_inner % h.n_head != 0 || h.n_group == 0 || h.d_inner % h.n_group
            != 0 {
            return Err(
                LoadError::UnsupportedFeature(
                    String::from_str(arch),
                    String::from_str(UNEVEN_INNER[0]).concat(
                        decimal_text(h.d_inner as u64).as_str(),
                    ).concat(UNEVEN_INNER[1]).concat(
                        decimal_text(h.n_head as u64).as_str(),
                    ).concat(UNEVEN_INNER[2]).concat(
                        decimal_text(h.n_group as u64).as_str(),
                    ).concat(UNEVEN_INNER[3]),
                ),
            );
        }
        if h.d_conv < 2 {
            return Err(
                LoadError::UnsupportedFeature(
                    arch_key_text(arch, "ssm.conv_kernel"),
                    decimal_text(h.d_conv as u64).concat(NO_WINDOW),
                ),
            );
        }
        Ok(h)
    }

    /// The width of a head.
    pub fn head_dim(self) -> (n: usize)
        requires
            self.n_head > 0,
        ensures
            n == self.head_width(),
    {
        self.d_inner / self.n_head
    }

    proof fn products_fit(&self)
        requires
            self.conv_channels() <= usize::MAX,
        ensures
            0 <= self.n_group * self.d_state <= usize::MAX,
            2 * (self.n_group * self.d_state) <= usize::MAX,
    {
        assert(self.n_group * self.d_state >= 0) by (nonlinear_arith);
    }

    /// The channels of the convolution.
    pub fn conv_width(self) -> (n: usize)
        requires
            self.conv_channels() <= usize::MAX,
        ensures
            n == self.conv_channels(),
    {
        proof {
            self.products_fit();
        }
        self.d_inner + 2 * (self.n_group * self.d_state)
    }

    /// The rows of the input projection.
    pub fn in_proj_rows(self) -> (n: usize)
        requires
            self.in_rows() <= usize::MAX,
        ensures
            n == self.in_rows(),
    {
        proof {
            self.products_fit();
        }
        self.d_inner + self.conv_width() + self.n_head
    }

    /// The dimensions of the scan.
    pub fn scan_dims(self) -> (dims: ScanDims)
        requires
            self.n_head > 0,
        ensures
            dims == (ScanDims {
                n_head: self.n_head,
                head_dim: self.head_width() as usize,
                d_state: self.d_state,
                n_group: self.n_group,
            }),
    {
        ScanDims {
            n_head: self.n_head,
            head_dim: self.head_dim(),
            d_state: self.d_state,
            n_group: self.n_group,
        }
    }

    /// The lengths of a layer's state: the convolution window and the
    /// scan state.
    pub fn state_floats(self) -> (lens: (usize, usize))
        requires
            self.n_head > 0,
            self.d_conv >= 1,
            self.sizes_fit(),
        ensures
            lens.0 == (self.d_conv - 1) * self.conv_channels(),
            lens.1 == self.scan_len(),
    {
        proof {
            self.products_fit();
            let rows = (self.d_conv - 1) as int;
            let w = self.conv_channels();
            assert(0 <= rows * w <= self.d_conv * w) by (nonlinear_arith)
                requires
                    rows == self.d_conv - 1,
                    rows >= 0,
                    w >= 0,
            ;
            let hd = self.head_width();
            vstd::arithmetic::div_mod::lemma_fundamental_div_mod(
                self.d_inner as int,
                self.n_head as int,
            );
            assert(hd >= 0 && self.n_head * hd <= self.d_inner) by (nonlinear_arith)
                requires
                    self.d_inner == self.n_head * hd + self.d_inner as int % self.n_head as int,
                    self.d_inner as int % self.n_head as int >= 0,
                    self.n_head > 0,
                    hd == self.d_inner as int / self.n_head as int,
            ;
            assert(self.n_head * hd >= 0) by (nonlinear_arith)
                requires
                    hd >= 0,
            ;
        }
        ((self.d_conv - 1) * self.conv_width(), self.n_head * self.head_dim() * self.d_state)
    }
}

/// Cuts a row of the input projection's result into the gating values, the
/// convolution's input and the steps.
pub fn cut_row<'a, T>(h: &Mamba2Hparams, row: &'a [T]) -> (parts: (&'a [T], &'a [T], &'a [T]))
    requires
        h.in_rows() <= usize::MAX,
        row@.len() == h.in_rows(),
    ensures
        parts.0@.len() == h.d_inner,
        parts.1@.len() == h.conv_channels(),
        parts.2@.len() == h.n_head,
        parts.0@ + parts.1@ + parts.2@ == row@,
{
    proof {
        h.products_fit();
    }
    let w = h.conv_width();
    let z = slice_subrange(row, 0, h.d_inner);
    let xbc = slice_subrange(row, h.d_inner, h.d_inner + w);
    let dt = slice_subrange(row, h.d_inner + w, row.len());
    assert(z@ + xbc@ + dt@ =~= row@);
    (z, xbc, dt)
}

/// Cuts the convolution's output into `x`, `B` and `C`.
pub fn cut_conv<'a, T>(h: &Mamba2Hparams, xbc: &'a [T]) -> (parts: (&'a [T], &'a [T], &'a [T]))
    requires
        h.conv_channels() <= usize::MAX,
        xbc@.len() == h.conv_channels(),
    ensures
        parts.0@.len() == h.d_inner,
        parts.1@.len() == h.n_group * h.d_state,
        parts.2@.len() == h.n_group * h.d_state,
        parts.0@ + parts.1@ + parts.2@ == xbc@,
{
    proof {
        h.products_fit();
    }
    let bc: usize = h.n_group * h.d_state;
    let x = slice_subrange(xbc, 0, h.d_inner);
    let b = slice_subrange(xbc, h.d_inner, h.d_inner + bc);
    let c = slice_subrange(xbc, h.d_inner + bc, xbc.len());
    assert(x@ + b@ + c@ =~= xbc@);
    (x, b, c)
}

/// One Mamba-2 layer's weights; the vectors are bit patterns.
#[derive(Debug)]
pub struct Mamba2 {
    pub h: Mamba2Hparams,
    /// `[in_proj_rows, n_embd]`.
    pub in_proj: WeightMatrix,
    /// `[conv_width][d_conv]`.
    pub conv1d: Vec<u32>,
    /// `[conv_width]`.
    pub conv1d_bias: Vec<u32>,
    /// `[n_head]`.
    pub dt_bias: Vec<u32>,
    /// `[n_head]`.
    pub a: Vec<u32>,
    /// `[n_head]`.
    pub d: Vec<u32>,
    /// `[d_inner]`, read as one row for each group.
    pub norm: Option<Vec<u32>>,
    /// `[n_embd, d_inner]`.
    pub out_proj: WeightMatrix,
}

/// Between the size found and the size wanted of the input projection.
pub const IN_PROJ_NOTE: &'static str = "; granite-hybrid.cpp:61 sizes it ";

/// Between the size found and the size wanted of the output projection.
pub const OUT_PROJ_NOTE: &'static str = "; granite-hybrid.cpp:69 sizes it ";

/// Between the length found and the length wanted of a vector.
pub const ELEMENTS_NOTE: &'static str = " elements; the ssm.* hparams size it at ";

/// The refusal of a convolution without a bias.
pub const NO_CONV_BIAS: &'static str = "absent. granite-hybrid.cpp:63 creates it TENSOR_NOT_REQUIRED \
     and mamba-base.cpp:222 adds it unconditionally: libllama segfaults on a file without it \
     (measured), so ferrox requires it";

/// The refusal of a decay that is not one number for each head, round
/// the length found and the head count.
pub const NOT_PER_HEAD: [&'static str; 2] = [
    " elements for ",
    " heads: Mamba-2's A is one scalar per head (granite-hybrid.cpp:66, `{1, n_head}`); a \
     `{d_state, n_head}` A is Mamba-1's (`build_mamba_layer`), which ferrox has no body for",
];

/// Why a layer's convolution bias cannot be loaded: it must be there.
pub open spec fn conv_bias_fault(file: GgufFile, h: Mamba2Hparams, l: nat) -> Option<LoadFault> {
    let name = block_name(l, "ssm_conv1d.bias"@);
    first_fault(
        optional_vector_fault(file, name),
        if !file.has(name) {
            Some(LoadFault::UnsupportedFeature(name, NO_CONV_BIAS@))
        } else {
            length_fault(
                name,
                vector_of(file, name).len(),
                h.conv_channels() as nat,
                ELEMENTS_NOTE@,
            )
        },
    )
}

/// Why a layer's decay cannot be loaded.
pub open spec fn decay_fault(file: GgufFile, h: Mamba2Hparams, l: nat) -> Option<LoadFault> {
    let name = block_name(l, "ssm_a"@);
    first_fault(
        vector_fault(file, name),
        if vector_of(file, name).len() != h.n_head {
            Some(
                LoadFault::UnsupportedFeature(
                    name,
                    decimal(vector_of(file, name).len()) + NOT_PER_HEAD@[0]@ + decimal(
                        h.n_head as nat,
                    ) + NOT_PER_HEAD@[1]@,
                ),
            )
        } else {
            None
        },
    )
}

/// Why a layer's norm cannot be loaded; a layer may have none.
pub open spec fn group_norm_fault(file: GgufFile, h: Mamba2Hparams, l: nat) -> Option<LoadFault> {
    let name = block_name(l, "ssm_norm.weight"@);
    if file.has(name) {
        first_fault(
            vector_fault(file, name),
            length_fault(name, vector_of(file, name).len(), h.d_inner as nat, ELEMENTS_NOTE@),
        )
    } else {
        None
    }
}

/// Why a layer's tensors cannot be loaded.
pub open spec fn tensors_fault(file: GgufFile, h: Mamba2Hparams, l: nat, hidden_dim: usize) -> Option<
    LoadFault,
> {
    first_fault(
        sized_matrix_fault(
            file,
            block_name(l, "ssm_in.weight"@),
            h.in_rows() as usize,
            hidden_dim,
            IN_PROJ_NOTE@,
        ),
        first_fault(
            sized_vector_fault(
                file,
                block_name(l, "ssm_conv1d.weight"@),
                (h.d_conv * h.conv_channels()) as usize,
                ELEMENTS_NOTE@,
            ),
            first_fault(
                conv_bias_fault(file, h, l),
                first_fault(
                    sized_vector_fault(
                        file,
                        block_name(l, "ssm_dt.bias"@),
                        h.n_head,
                        ELEMENTS_NOTE@,
                    ),
                    first_fault(
                        decay_fault(file, h, l),
                        first_fault(
                            sized_vector_fault(
                                file,
                                block_name(l, "ssm_d"@),
                                h.n_head,
                                ELEMENTS_NOTE@,
                            ),
                            first_fault(
                                group_norm_fault(file, h, l),
                                sized_matrix_fault(
                                    file,
                                    block_name(l, "ssm_out.weight"@),
                                    hidden_dim,
                                    h.d_inner,
                                    OUT_PROJ_NOTE@,
                                ),
                            ),
                        ),
                    ),
                ),
            ),
        ),
    )
}

/// Whether the sizes that a layer's tensors are held against are machine
/// numbers, as far as loading gets to them.
pub open spec fn layer_widths_fit(file: GgufFile, h: Mamba2Hparams, l: nat, hidden_dim: usize) -> bool {
    let in_proj = block_name(l, "ssm_in.weight"@);
    &&& matrix_fault(file, in_proj) is None ==> h.in_rows() <= usize::MAX
    &&& sized_matrix_fault(file, in_proj, h.in_rows() as usize, hidden_dim, IN_PROJ_NOTE@) is None
        && vector_fault(file, block_name(l, "ssm_conv1d.weight"@)) is None ==> h.d_conv
        * h.conv_channels() <= usize::MAX
}

impl Mamba2 {
    /// Every tensor has the size that the hyperparameters fix.
    pub open spec fn well_formed(&self) -> bool {
        &&& self.h.well_formed()
        &&& self.h.weights_fit()
        &&& self.in_proj.n_rows() == self.h.in_rows()
        &&& self.in_proj.n_cols() == self.out_proj.n_rows()
        &&& self.conv1d@.len() == self.h.d_conv * self.h.conv_channels()
        &&& self.conv1d_bias@.len() == self.h.conv_channels()
        &&& self.dt_bias@.len() == self.h.n_head
        &&& self.a@.len() == self.h.n_head
        &&& self.d@.len() == self.h.n_head
        &&& self.norm is Some ==> self.norm->0@.len() == self.h.d_inner
        &&& self.out_proj.n_cols() == self.h.d_inner
    }

    /// What a layer's weights are.
    pub open spec fn is_layer(&self, file: GgufFile, l: nat) -> bool {
        &&& self.in_proj.is_tensor(file, block_name(l, "ssm_in.weight"@))
        &&& self.conv1d@ == vector_of(file, block_name(l, "ssm_conv1d.weight"@))
        &&& self.conv1d_bias@ == vector_of(file, block_name(l, "ssm_conv1d.bias"@))
        &&& self.dt_bias@ == vector_of(file, block_name(l, "ssm_dt.bias"@))
        &&& self.a@ == vector_of(file, block_name(l, "ssm_a"@))
        &&& self.d@ == vector_of(file, block_name(l, "ssm_d"@))
        &&& is_optional_vector(file, block_name(l, "ssm_norm.weight"@), self.norm)
        &&& self.out_proj.is_tensor(file, block_name(l, "ssm_out.weight"@))
    }

    /// Why a layer cannot be loaded.
    pub open spec fn fault(file: GgufFile, arch: Seq<char>, l: nat, hidden_dim: usize) -> Option<
        LoadFault,
    > {
        first_fault(
            Mamba2Hparams::fault(file, arch),
            tensors_fault(file, Mamba2Hparams::declared(file, arch), l, hidden_dim),
        )
    }

    /// Loads a layer's tensors and checks their sizes.
    pub fn load(file: &GgufFile, arch: &str, layer: usize, hidden_dim: usize) -> (w: Result<
        Self,
        LoadError,
    >)
        requires
            Mamba2Hparams::fault(*file, arch@) is None ==> layer_widths_fit(
                *file,
                Mamba2Hparams::declared(*file, arch@),
                layer as nat,
                hidden_dim,
            ),
        ensures
            match Self::fault(*file, arch@, layer as nat, hidden_dim) {
                Some(fault) => w is Err && w->Err_0@ == fault,
                None => {
                    &&& w is Ok
                    &&& w->Ok_0.h == Mamba2Hparams::declared(*file, arch@)
                    &&& w->Ok_0.is_layer(*file, layer as nat)
                    &&& w->Ok_0.well_formed()
                    &&& w->Ok_0.out_proj.n_rows() == hidden_dim
                },
            },
    {
        let h = Mamba2Hparams::read(file, arch)?;
        let in_name = block_name_text(layer, "ssm_in.weight");
        let in_proj = load_weight_matrix(file, in_name.as_str())?;
        let rows = h.in_proj_rows();
        check_size(file, in_name.as_str(), &in_proj, rows, hidden_dim, IN_PROJ_NOTE)?;
        let width = h.conv_width();
        let conv_name = block_name_text(layer, "ssm_conv1d.weight");
        let conv1d = load_f32_vec(file, conv_name.as_str())?;
        assert(h.d_conv * h.conv_channels() <= usize::MAX);
        check_length(conv_name.as_str(), conv1d.len(), h.d_conv * width, ELEMENTS_NOTE)?;
        let bias_name = block_name_text(layer, "ssm_conv1d.bias");
        let conv1d_bias = match load_f32_vec_optional(file, bias_name.as_str())? {
            Some(b) => b,
            None => {
                return Err(
                    LoadError::UnsupportedFeature(bias_name, String::from_str(NO_CONV_BIAS)),
                );
            },
        };
        check_length(bias_name.as_str(), conv1d_bias.len(), width, ELEMENTS_NOTE)?;
        let dt_bias = load_sized_vec(
            file,
            block_name_text(layer, "ssm_dt.bias").as_str(),
            h.n_head,
            ELEMENTS_NOTE,
        )?;
        let a_name = block_name_text(layer, "ssm_a");
        let a = load_f32_vec(file, a_name.as_str())?;
        if a.len() != h.n_head {
            return Err(
                LoadError::UnsupportedFeature(
                    a_name,
                    decimal_text(a.len() as u64).concat(NOT_PER_HEAD[0]).concat(
                        decimal_text(h.n_head as u64).as_str(),
                    ).concat(NOT_PER_HEAD[1]),
                ),
            );
        }
        let d = load_sized_vec(
            file,
            block_name_text(layer, "ssm_d").as_str(),
            h.n_head,
            ELEMENTS_NOTE,
        )?;
        let norm_name = block_name_text(layer, "ssm_norm.weight");
        let norm = load_f32_vec_optional(file, norm_name.as_str())?;
        match &norm {
            Some(n) => {
                check_length(norm_name.as_str(), n.len(), h.d_inner, ELEMENTS_NOTE)?;
            },
            None => {},
        }
        let out_proj = load_sized_matrix(
            file,
            block_name_text(layer, "ssm_out.weight").as_str(),
            hidden_dim,
            h.d_inner,
            OUT_PROJ_NOTE,
        )?;
        Ok(Mamba2 { h, in_proj, conv1d, conv1d_bias, dt_bias, a, d, norm, out_proj })
    }

    /// Whether every tensor has the size that the hyperparameters fix and
    /// the lengths of the state are machine numbers.
    fn is_sized(&self) -> (yes: bool)
        ensures
            yes == (self.well_formed() && self.h.sizes_fit()),
    {
        let h = &self.h;
        if h.n_head == 0 || h.d_inner % h.n_head != 0 || h.n_group == 0 || h.d_inner % h.n_group
            != 0 || h.d_conv < 2 || !h.fits() {
            return false;
        }
        let rows = h.in_proj_rows();
        let width = h.conv_width();
        assert(h.d_conv * h.conv_channels() <= usize::MAX);
        let normed = match &self.norm {
            Some(n) => n.len() == h.d_inner,
            None => true,
        };
        normed && self.in_proj.rows() == rows && self.in_proj.cols() == self.out_proj.rows()
            && self.conv1d.len() == h.d_conv * width && self.conv1d_bias.len() == width
            && self.dt_bias.len() == h.n_head && self.a.len() == h.n_head && self.d.len()
            == h.n_head && self.out_proj.cols() == h.d_inner
    }

    /// Whether the block can be run on the inputs of `rows` tokens, of
    /// this length together, and on this state: its tensors have their
    /// sizes, and so have the inputs and the state.
    pub fn takes(&self, inputs: usize, rows: usize, state: &RecurrentState) -> (yes: bool)
        ensures
            yes == {
                &&& self.well_formed()
                &&& inputs == rows * self.out_proj.n_rows()
                &&& state.conv@.len() == (self.h.d_conv - 1) * self.h.conv_channels()
                &&& state.ssm@.len() == self.h.scan_len()
            },
    {
        let found = state.ssm.len();
        if !self.is_sized() {
            assert(self.well_formed() ==> found < self.h.scan_len());
            return false;
        }
        let (conv, ssm) = self.h.state_floats();
        let whole = match rows.checked_mul(self.out_proj.rows()) {
            Some(n) => n == inputs,
            None => false,
        };
        whole && state.conv.len() == conv && found == ssm
    }

    /// The state of a new sequence for this layer.
    pub fn zero_state(&self) -> (state: RecurrentState)
        requires
            self.well_formed(),
            self.h.sizes_fit(),
        ensures
            state.conv@ == Seq::new(
                ((self.h.d_conv - 1) * self.h.conv_channels()) as nat,
                |i: int| 0u32,
            ),
            state.ssm@ == Seq::new(self.h.scan_len() as nat, |i: int| 0u32),
    {
        let (conv, ssm) = self.h.state_floats();
        RecurrentState::zeros(conv, ssm)
    }
}

/// The dimensions of a layer are the numbers under their own keys: the
/// inner width is `inner_size`, the state `state_size` wide, there is a
/// head for each of `time_step_rank` and a group for each of
/// `group_count`, and the window is `conv_kernel` long.
pub proof fn mamba2_dimensions_are_their_keys(file: GgufFile, arch: Seq<char>)
    requires
        Mamba2Hparams::fault(file, arch) is None,
    ensures
        ({
            let h = Mamba2Hparams::declared(file, arch);
            &&& file.meta_u64(arch + "."@ + "ssm.conv_kernel"@) is Some
            &&& h.d_conv == file.meta_u64(arch + "."@ + "ssm.conv_kernel"@)->0 as usize
            &&& file.meta_u64(arch + "."@ + "ssm.inner_size"@) is Some
            &&& h.d_inner == file.meta_u64(arch + "."@ + "ssm.inner_size"@)->0 as usize
            &&& file.meta_u64(arch + "."@ + "ssm.state_size"@) is Some
            &&& h.d_state == file.meta_u64(arch + "."@ + "ssm.state_size"@)->0 as usize
            &&& file.meta_u64(arch + "."@ + "ssm.time_step_rank"@) is Some
            &&& h.n_head == file.meta_u64(arch + "."@ + "ssm.time_step_rank"@)->0 as usize
            &&& file.meta_u64(arch + "."@ + "ssm.group_count"@) is Some
            &&& h.n_group == file.meta_u64(arch + "."@ + "ssm.group_count"@)->0 as usize
            &&& h.n_head > 0 && h.d_inner % h.n_head == 0
            &&& h.n_group > 0 && h.d_inner % h.n_group == 0
            &&& h.d_conv >= 2
        }),
{
}

/// A layer's weights are the tensors of their names, of the layer's own
/// block: the decay is `ssm_a`, the skip `ssm_d`, the bias of the time
/// step `ssm_dt`, and so on; a norm is there where the file has one.
pub proof fn a_mamba2_layer_is_loaded_by_name(file: GgufFile, l: nat, m: Mamba2)
    requires
        m.is_layer(file, l),
    ensures
        m.in_proj.is_tensor(file, "blk."@ + decimal(l) + "."@ + "ssm_in.weight"@),
        m.conv1d@ == vector_of(file, "blk."@ + decimal(l) + "."@ + "ssm_conv1d.weight"@),
        m.conv1d_bias@ == vector_of(file, "blk."@ + decimal(l) + "."@ + "ssm_conv1d.bias"@),
        m.dt_bias@ == vector_of(file, "blk."@ + decimal(l) + "."@ + "ssm_dt.bias"@),
        m.a@ == vector_of(file, "blk."@ + decimal(l) + "."@ + "ssm_a"@),
        m.d@ == vector_of(file, "blk."@ + decimal(l) + "."@ + "ssm_d"@),
        m.norm is Some <==> file.has("blk."@ + decimal(l) + "."@ + "ssm_norm.weight"@),
        m.norm is Some ==> m.norm->0@ == vector_of(
            file,
            "blk."@ + decimal(l) + "."@ + "ssm_norm.weight"@,
        ),
        m.out_proj.is_tensor(file, "blk."@ + decimal(l) + "."@ + "ssm_out.weight"@),
{
}

/// A layer's weights have the sizes that its dimensions give. The input
/// projection makes, for each token, as many gating values as the inner
/// width, then the convolution's channels (`x`, `B` and `C`), then a step
/// for each head.
pub proof fn mamba2_weights_have_the_sizes_of_their_heads(m: Mamba2)
    requires
        m.well_formed(),
    ensures
        m.in_proj.n_rows() == m.h.d_inner + (m.h.d_inner + m.h.n_group * m.h.d_state + m.h.n_group
            * m.h.d_state) + m.h.n_head,
        m.conv1d_bias@.len() == m.h.d_inner + m.h.n_group * m.h.d_state + m.h.n_group
            * m.h.d_state,
        m.conv1d@.len() == m.h.d_conv * m.conv1d_bias@.len(),
        m.dt_bias@.len() == m.h.n_head,
        m.a@.len() == m.h.n_head,
        m.d@.len() == m.h.n_head,
        m.norm is Some ==> m.norm->0@.len() == m.h.d_inner,
        m.out_proj.n_cols() == m.h.d_inner,
        m.in_proj.n_cols() == m.out_proj.n_rows(),
{
}

/// The heads share the inner width out without a rest, and the scan keeps
/// for each of its channels a state of `d_state`.
pub proof fn heads_share_the_inner_width(h: Mamba2Hparams)
    requires
        h.well_formed(),
    ensures
        h.n_head * h.head_width() == h.d_inner,
        h.scan_len() == h.d_inner * h.d_state,
{
    vstd::arithmetic::div_mod::lemma_fundamental_div_mod(h.d_inner as int, h.n_head as int);
}

/// Which dimensions are taken: every key is there, the inner width is a
/// multiple of the heads and of the groups, and the convolution looks at
/// more than the last token.
pub proof fn which_mamba2_dimensions_are_taken(file: GgufFile, arch: Seq<char>)
    ensures
        Mamba2Hparams::fault(file, arch) is None <==> {
            let inner = file.meta_u64(arch + "."@ + "ssm.inner_size"@)->0 as usize;
            let heads = file.meta_u64(arch + "."@ + "ssm.time_step_rank"@)->0 as usize;
            let groups = file.meta_u64(arch + "."@ + "ssm.group_count"@)->0 as usize;
            &&& file.meta_u64(arch + "."@ + "ssm.conv_kernel"@) is Some
            &&& file.meta_u64(arch + "."@ + "ssm.inner_size"@) is Some
            &&& file.meta_u64(arch + "."@ + "ssm.state_size"@) is Some
            &&& file.meta_u64(arch + "."@ + "ssm.time_step_rank"@) is Some
            &&& file.meta_u64(arch + "."@ + "ssm.group_count"@) is Some
            &&& heads > 0 && inner % heads == 0
            &&& groups > 0 && inner % groups == 0
            &&& file.meta_u64(arch + "."@ + "ssm.conv_kernel"@)->0 as usize >= 2
        },
{
}

/// Which layers load: those with every tensor but the norm, which may be
/// left out, of the sizes that the dimensions give.
pub proof fn which_mamba2_layers_load(file: GgufFile, h: Mamba2Hparams, l: nat, hidden_dim: usize)
    ensures
        tensors_fault(file, h, l, hidden_dim) is None <==> {
            let channels = h.d_inner + 2 * (h.n_group * h.d_state);
            &&& sized_matrix_fault(file, "blk."@ + decimal(l) + "."@ + "ssm_in.weight"@, (h.d_inner + channels + h.n_head) as usize, hidden_dim, IN_PROJ_NOTE@) is None
            &&& sized_vector_fault(file, "blk."@ + decimal(l) + "."@ + "ssm_conv1d.weight"@, (h.d_conv * channels) as usize, ELEMENTS_NOTE@) is None
            &&& vector_fault(file, "blk."@ + decimal(l) + "."@ + "ssm_conv1d.bias"@) is None
            &&& sized_vector_fault(file, "blk."@ + decimal(l) + "."@ + "ssm_dt.bias"@, (h.n_head) as usize, ELEMENTS_NOTE@) is None
            &&& vector_fault(file, "blk."@ + decimal(l) + "."@ + "ssm_a"@) is None
            &&& vector_of(file, "blk."@ + decimal(l) + "."@ + "ssm_a"@).len() == h.n_head
            &&& sized_vector_fault(file, "blk."@ + decimal(l) + "."@ + "ssm_d"@, (h.n_head) as usize, ELEMENTS_NOTE@) is None
            &&& sized_matrix_fault(file, "blk."@ + decimal(l) + "."@ + "ssm_out.weight"@, (hidden_dim) as usize, h.d_inner, OUT_PROJ_NOTE@) is None
            &&& vector_of(file, "blk."@ + decimal(l) + "."@ + "ssm_conv1d.bias"@).len() == channels as nat
            &&& file.has("blk."@ + decimal(l) + "."@ + "ssm_norm.weight"@) ==> vector_fault(file, "blk."@ + decimal(l) + "."@ + "ssm_norm.weight"@) is None && vector_of(file, "blk."@ + decimal(l) + "."@ + "ssm_norm.weight"@).len() == h.d_inner
        },
{
}

/// Of several keys that are missing, the first of those read is named.
pub proof fn the_first_missing_mamba2_key_is_named(file: GgufFile, arch: Seq<char>)
    ensures
        file.meta_u64(arch + "."@ + "ssm.conv_kernel"@) is None ==> Mamba2Hparams::fault(file, arch) == Some(
            LoadFault::MissingHparam(arch + "."@ + "ssm.conv_kernel"@),
        ),
        file.meta_u64(arch + "."@ + "ssm.conv_kernel"@) is Some && file.meta_u64(arch + "."@ + "ssm.inner_size"@) is None ==> Mamba2Hparams::fault(file, arch) == Some(
            LoadFault::MissingHparam(arch + "."@ + "ssm.inner_size"@),
        ),
        file.meta_u64(arch + "."@ + "ssm.conv_kernel"@) is Some && file.meta_u64(arch + "."@ + "ssm.inner_size"@) is Some && file.meta_u64(arch + "."@ + "ssm.state_size"@) is None ==> Mamba2Hparams::fault(file, arch) == Some(
            LoadFault::MissingHparam(arch + "."@ + "ssm.state_size"@),
        ),
        file.meta_u64(arch + "."@ + "ssm.conv_kernel"@) is Some && file.meta_u64(arch + "."@ + "ssm.inner_size"@) is Some && file.meta_u64(arch + "."@ + "ssm.state_size"@) is Some && file.meta_u64(arch + "."@ + "ssm.time_step_rank"@) is None ==> Mamba2Hparams::fault(file, arch) == Some(
            LoadFault::MissingHparam(arch + "."@ + "ssm.time_step_rank"@),
        ),
        file.meta_u64(arch + "."@ + "ssm.conv_kernel"@) is Some && file.meta_u64(arch + "."@ + "ssm.inner_size"@) is Some && file.meta_u64(arch + "."@ + "ssm.state_size"@) is Some && file.meta_u64(arch + "."@ + "ssm.time_step_rank"@) is Some && file.meta_u64(arch + "."@ + "ssm.group_count"@) is None ==> Mamba2Hparams::fault(file, arch) == Some(
            LoadFault::MissingHparam(arch + "."@ + "ssm.group_count"@),
        ),
{
}

} // verus!
