//! The weights of an MLA attention layer, what its cache holds, and how
//! one decode step lays its values out.
//!
//! With the combined decompression the cache holds every head's key and
//! value; with the split one it holds the latent, which all heads share,
//! and the query is brought into the latent's space instead.

use crate::engine::MlaConfig;
use crate::mla_q_proj::MlaQProj;
use crate::weights::WeightMatrix;
use vstd::prelude::*;
use vstd::slice::{slice_subrange, slice_to_vec};

verus! {

/// The K/V decompression of one layer.
#[derive(Debug)]
pub enum MlaKvB {
    /// One matrix, each head's K rows then its V rows.
    Combined(WeightMatrix),
    /// One pair of matrices per head, K in the absorbing direction.
    Split { k_b: Vec<WeightMatrix>, v_b: Vec<WeightMatrix> },
}

/// The attention weights of one layer.
#[derive(Debug)]
pub struct MlaAttnWeights {
    pub q: MlaQProj,
    pub kv_a_proj_with_mqa: WeightMatrix,
    pub kv_a_layernorm: Vec<u32>,
    pub kv_b: MlaKvB,
    pub o_proj: WeightMatrix,
    pub g_proj: Option<WeightMatrix>,
}

impl MlaConfig {
    /// The width of a head's query and key.
    pub open spec fn q_head(&self) -> int {
        self.qk_nope_head_dim + self.qk_rope_head_dim
    }

    /// How many values of the combined decompression belong to one head.
    pub open spec fn kv_head(&self) -> int {
        self.qk_nope_head_dim + self.v_head_dim
    }

    /// The width of the latent with the shared key behind it.
    pub open spec fn latent(&self) -> int {
        self.kv_lora_rank + self.qk_rope_head_dim
    }
}

impl MlaKvB {
    /// How many values the key cache holds for each position.
    pub open spec fn cache_width(&self, cfg: MlaConfig) -> int {
        match self {
            MlaKvB::Combined(_) => cfg.num_heads * cfg.q_head(),
            MlaKvB::Split { .. } => cfg.latent(),
        }
    }

    /// How many positions a key cache of this length holds.
    pub fn cached_positions(&self, cfg: &MlaConfig, k_cache_len: usize) -> (n: usize)
        requires
            0 < self.cache_width(*cfg) <= usize::MAX,
        ensures
            n == k_cache_len as int / self.cache_width(*cfg),
    {
        match self {
            MlaKvB::Combined(_) => {
                proof {
                    let heads = cfg.num_heads as int;
                    let head = cfg.q_head();
                    assert(heads >= 1 && head <= heads * head) by (nonlinear_arith)
                        requires
                            0 <= heads,
                            0 <= head,
                            0 < heads * head,
                    ;
                }
                k_cache_len / (cfg.num_heads * (cfg.qk_nope_head_dim + cfg.qk_rope_head_dim))
            },
            MlaKvB::Split { .. } => k_cache_len / (cfg.kv_lora_rank + cfg.qk_rope_head_dim),
        }
    }
}

/// A step that appends one position's values to the key cache adds one
/// cached position.
pub proof fn a_step_caches_one_position(kv_b: MlaKvB, cfg: MlaConfig, k_cache_len: int)
    requires
        0 < kv_b.cache_width(cfg),
        0 <= k_cache_len,
    ensures
        (k_cache_len + kv_b.cache_width(cfg)) / kv_b.cache_width(cfg) == k_cache_len
            / kv_b.cache_width(cfg) + 1,
{
    let w = kv_b.cache_width(cfg);
    vstd::arithmetic::div_mod::lemma_div_plus_one(k_cache_len, w);
}

/// The keys of the first `n` heads: of each head its own part, then the
/// part that all heads share.
pub open spec fn head_keys(cfg: MlaConfig, full: Seq<u32>, shared: Seq<u32>, n: int) -> Seq<u32>
    decreases n,
{
    if n <= 0 {
        seq![]
    } else {
        let at = (n - 1) * cfg.kv_head();
        head_keys(cfg, full, shared, n - 1) + full.subrange(at, at + cfg.qk_nope_head_dim) + shared
    }
}

/// The values of the first `n` heads.
pub open spec fn head_values(cfg: MlaConfig, full: Seq<u32>, n: int) -> Seq<u32>
    decreases n,
{
    if n <= 0 {
        seq![]
    } else {
        let at = (n - 1) * cfg.kv_head();
        head_values(cfg, full, n - 1) + full.subrange(
            at + cfg.qk_nope_head_dim,
            at + cfg.kv_head(),
        )
    }
}

/// The queries of the first `n` heads in the latent's space: of each head
/// its absorbed part, then its rotated part.
pub open spec fn absorbed_queries(
    cfg: MlaConfig,
    absorbed: Seq<Seq<u32>>,
    query: Seq<u32>,
    n: int,
) -> Seq<u32>
    decreases n,
{
    if n <= 0 {
        seq![]
    } else {
        let at = (n - 1) * cfg.q_head();
        absorbed_queries(cfg, absorbed, query, n - 1) + absorbed[n - 1] + query.subrange(
            at + cfg.qk_nope_head_dim,
            at + cfg.q_head(),
        )
    }
}

/// The values of each of `parts`.
pub open spec fn part_values(parts: Seq<Vec<u32>>) -> Seq<Seq<u32>> {
    Seq::new(parts.len(), |i: int| parts[i]@)
}

proof fn head_in(h: int, heads: int, width: int)
    requires
        0 <= h < heads,
        0 <= width,
    ensures
        0 <= h * width,
        h * width + width == (h + 1) * width,
        (h + 1) * width <= heads * width,
        width <= heads * width,
{
    assert(0 <= h * width && h * width + width == (h + 1) * width && (h + 1) * width <= heads
        * width && width <= heads * width) by (nonlinear_arith)
        requires
            0 <= h < heads,
            0 <= width,
    ;
}

/// Where the rotated part of a head's query is.
pub fn rotated_part(cfg: &MlaConfig, head: usize) -> (range: (usize, usize))
    requires
        head < cfg.num_heads,
        cfg.num_heads * cfg.q_head() <= usize::MAX,
    ensures
        range.0 == head * cfg.q_head() + cfg.qk_nope_head_dim,
        range.1 == (head + 1) * cfg.q_head(),
        range.1 - range.0 == cfg.qk_rope_head_dim,
{
    proof {
        head_in(head as int, cfg.num_heads as int, cfg.q_head());
    }
    let width = cfg.qk_nope_head_dim + cfg.qk_rope_head_dim;
    (head * width + cfg.qk_nope_head_dim, (head + 1) * width)
}

/// Parts the compressed key and value into the latent and the key that
/// all heads share.
pub fn split_latent(cfg: &MlaConfig, compressed: &[u32]) -> (parts: (Vec<u32>, Vec<u32>))
    requires
        cfg.kv_lora_rank <= compressed@.len(),
    ensures
        parts.0@ == compressed@.take(cfg.kv_lora_rank as int),
        parts.1@ == compressed@.skip(cfg.kv_lora_rank as int),
        parts.0@ + parts.1@ == compressed@,
{
    let latent = slice_to_vec(slice_subrange(compressed, 0, cfg.kv_lora_rank));
    let shared = slice_to_vec(slice_subrange(compressed, cfg.kv_lora_rank, compressed.len()));
    assert(latent@ =~= compressed@.take(cfg.kv_lora_rank as int));
    assert(shared@ =~= compressed@.skip(cfg.kv_lora_rank as int));
    assert(latent@ + shared@ =~= compressed@);
    (latent, shared)
}

/// One position's keys and values for the combined decompression: `full`
/// is what decompression gives, `shared` the rotated key that all heads
/// share.
pub fn naive_step(cfg: &MlaConfig, full: &[u32], shared: &[u32]) -> (step: (Vec<u32>, Vec<u32>))
    requires
        cfg.num_heads * cfg.kv_head() <= full@.len(),
        shared@.len() == cfg.qk_rope_head_dim,
    ensures
        step.0@ == head_keys(*cfg, full@, shared@, cfg.num_heads as int),
        step.1@ == head_values(*cfg, full@, cfg.num_heads as int),
        step.0@.len() == cfg.num_heads * cfg.q_head(),
        step.1@.len() == cfg.num_heads * cfg.v_head_dim,
{
    let mut keys: Vec<u32> = Vec::new();
    let mut values: Vec<u32> = Vec::new();
    let total = full.len();
    let mut h: usize = 0;
    proof {
        assert(0 * cfg.q_head() == 0 && 0 * cfg.v_head_dim == 0);
    }
    while h < cfg.num_heads
        invariant
            h <= cfg.num_heads,
            total == full@.len(),
            cfg.num_heads * cfg.kv_head() <= total,
            shared@.len() == cfg.qk_rope_head_dim,
            keys@ == head_keys(*cfg, full@, shared@, h as int),
            values@ == head_values(*cfg, full@, h as int),
            keys@.len() == h * cfg.q_head(),
            values@.len() == h * cfg.v_head_dim,
        decreases cfg.num_heads - h,
    {
        proof {
            head_in(h as int, cfg.num_heads as int, cfg.kv_head());
            head_in(h as int, cfg.num_heads as int, cfg.q_head());
            head_in(h as int, cfg.num_heads as int, cfg.v_head_dim as int);
        }
        let stride = cfg.qk_nope_head_dim + cfg.v_head_dim;
        let at = h * stride;
        let ghost was_keys = keys@;
        let ghost was_values = values@;
        let own = slice_subrange(full, at, at + cfg.qk_nope_head_dim);
        let value = slice_subrange(full, at + cfg.qk_nope_head_dim, at + stride);
        keys.extend_from_slice(own);
        keys.extend_from_slice(shared);
        values.extend_from_slice(value);
        assert(keys@ =~= was_keys + own@ + shared@);
        assert(values@ =~= was_values + value@);
        h += 1;
    }
    (keys, values)
}

/// One position's entry for the split decompression: the normed latent,
/// then the rotated key that all heads share.
pub fn latent_step(cfg: &MlaConfig, latent: &[u32], shared: &[u32]) -> (step: Vec<u32>)
    requires
        latent@.len() == cfg.kv_lora_rank,
        shared@.len() == cfg.qk_rope_head_dim,
    ensures
        step@ == latent@ + shared@,
        step@.len() == cfg.latent(),
{
    let mut step: Vec<u32> = Vec::new();
    step.extend_from_slice(latent);
    step.extend_from_slice(shared);
    assert(step@ =~= latent@ + shared@);
    step
}

/// The queries in the latent's space, from what absorbing each head's own
/// part gives and the whole query.
pub fn absorbed_query(cfg: &MlaConfig, absorbed: &Vec<Vec<u32>>, query: &[u32]) -> (q: Vec<u32>)
    requires
        absorbed@.len() == cfg.num_heads,
        forall|h: int|
            0 <= h < absorbed@.len() ==> (#[trigger] absorbed@[h])@.len() == cfg.kv_lora_rank,
        cfg.num_heads * cfg.q_head() <= query@.len(),
    ensures
        q@ == absorbed_queries(*cfg, part_values(absorbed@), query@, cfg.num_heads as int),
        q@.len() == cfg.num_heads * cfg.latent(),
{
    let mut q: Vec<u32> = Vec::new();
    let total = query.len();
    let mut h: usize = 0;
    proof {
        assert(0 * cfg.latent() == 0);
    }
    while h < cfg.num_heads
        invariant
            h <= cfg.num_heads,
            total == query@.len(),
            absorbed@.len() == cfg.num_heads,
            forall|k: int|
                0 <= k < absorbed@.len() ==> (#[trigger] absorbed@[k])@.len() == cfg.kv_lora_rank,
            cfg.num_heads * cfg.q_head() <= total,
            q@ == absorbed_queries(*cfg, part_values(absorbed@), query@, h as int),
            q@.len() == h * cfg.latent(),
        decreases cfg.num_heads - h,
    {
        proof {
            head_in(h as int, cfg.num_heads as int, cfg.q_head());
            head_in(h as int, cfg.num_heads as int, cfg.latent());
        }
        let width = cfg.qk_nope_head_dim + cfg.qk_rope_head_dim;
        let at = h * width;
        let ghost was = q@;
        let part = absorbed[h].as_slice();
        let rotated = slice_subrange(query, at + cfg.qk_nope_head_dim, at + width);
        q.extend_from_slice(part);
        q.extend_from_slice(rotated);
        assert(part_values(absorbed@)[h as int] == part@);
        assert(q@ =~= was + part@ + rotated@);
        h += 1;
    }
    q
}

/// The part of the attention's result over the latent that belongs to a
/// head.
pub fn head_latent(cfg: &MlaConfig, out: &[u32], head: usize) -> (part: Vec<u32>)
    requires
        head < cfg.num_heads,
        cfg.num_heads * cfg.kv_lora_rank <= out@.len(),
    ensures
        part@ == out@.subrange(head * cfg.kv_lora_rank, (head + 1) * cfg.kv_lora_rank),
{
    proof {
        head_in(head as int, cfg.num_heads as int, cfg.kv_lora_rank as int);
    }
    assert(out@.len() == out.len());
    slice_to_vec(
        slice_subrange(out, head * cfg.kv_lora_rank, (head + 1) * cfg.kv_lora_rank),
    )
}

/// The heads' values one after the other.
pub fn stack_heads(parts: &Vec<Vec<u32>>) -> (out: Vec<u32>)
    ensures
        out@ == part_values(parts@).flatten(),
{
    let mut out: Vec<u32> = Vec::new();
    let ghost views = part_values(parts@);
    let mut h: usize = 0;
    proof {
        assert(views.take(0) =~= seq![]);
        assert(views.take(0).flatten() =~= seq![]);
    }
    while h < parts.len()
        invariant
            h <= parts@.len(),
            views == part_values(parts@),
            out@ == views.take(h as int).flatten(),
        decreases parts@.len() - h,
    {
        let ghost was = out@;
        out.extend_from_slice(parts[h].as_slice());
        proof {
            assert(views[h as int] == parts@[h as int]@);
            assert(views.take(h + 1) =~= views.take(h as int).push(views[h as int]));
            views.take(h as int).lemma_flatten_push(views[h as int]);
            assert(out@ =~= was + parts@[h as int]@);
        }
        h += 1;
    }
    assert(views.take(views.len() as int) =~= views);
    out
}

proof fn place_of_head(h: int, n: int, width: int, i: int)
    requires
        0 <= h < n,
        0 <= i < width,
    ensures
        0 <= h * width + i < n * width,
        h < n - 1 ==> h * width + i < (n - 1) * width,
        (n - 1) * width + width == n * width,
{
    assert(0 <= h * width + i < n * width && (h < n - 1 ==> h * width + i < (n - 1) * width) && (n
        - 1) * width + width == n * width) by (nonlinear_arith)
        requires
            0 <= h < n,
            0 <= i < width,
    ;
}

proof fn keys_len(cfg: MlaConfig, full: Seq<u32>, shared: Seq<u32>, n: int)
    requires
        0 <= n,
        n * cfg.kv_head() <= full.len(),
        shared.len() == cfg.qk_rope_head_dim,
    ensures
        head_keys(cfg, full, shared, n).len() == n * cfg.q_head(),
        head_values(cfg, full, n).len() == n * cfg.v_head_dim,
    decreases n,
{
    if n > 0 {
        head_in(n - 1, n, cfg.kv_head());
        head_in(n - 1, n, cfg.q_head());
        head_in(n - 1, n, cfg.v_head_dim as int);
        keys_len(cfg, full, shared, n - 1);
    } else {
        assert(0 * cfg.q_head() == 0 && 0 * cfg.v_head_dim == 0);
    }
}

/// Where each element of a position's keys comes from: head `h`'s key is
/// the first `qk_nope_head_dim` elements of what decompression gives that
/// head, and behind them the key that all heads share.
pub proof fn a_heads_key_is_its_own_part_and_the_shared_one(
    cfg: MlaConfig,
    full: Seq<u32>,
    shared: Seq<u32>,
    n: int,
    h: int,
    i: int,
)
    requires
        0 <= h < n,
        0 <= i < cfg.qk_nope_head_dim + cfg.qk_rope_head_dim,
        n * (cfg.qk_nope_head_dim + cfg.v_head_dim) <= full.len(),
        shared.len() == cfg.qk_rope_head_dim,
    ensures
        ({
            let q = cfg.qk_nope_head_dim + cfg.qk_rope_head_dim;
            let kv = cfg.qk_nope_head_dim + cfg.v_head_dim;
            let keys = head_keys(cfg, full, shared, n);
            &&& keys.len() == n * q
            &&& i < cfg.qk_nope_head_dim ==> keys[h * q + i] == full[h * kv + i]
            &&& i >= cfg.qk_nope_head_dim ==> keys[h * q + i] == shared[i - cfg.qk_nope_head_dim]
        }),
    decreases n,
{
    let q = cfg.q_head();
    let kv = cfg.kv_head();
    keys_len(cfg, full, shared, n);
    head_in(n - 1, n, kv);
    keys_len(cfg, full, shared, n - 1);
    place_of_head(h, n, q, i);
    if h < n - 1 {
        a_heads_key_is_its_own_part_and_the_shared_one(cfg, full, shared, n - 1, h, i);
    }
}

/// Where each element of a position's values comes from: head `h`'s value
/// is what decompression gives that head behind its own part of the key.
pub proof fn a_heads_value_stands_behind_its_key(
    cfg: MlaConfig,
    full: Seq<u32>,
    n: int,
    h: int,
    i: int,
)
    requires
        0 <= h < n,
        0 <= i < cfg.v_head_dim,
        n * (cfg.qk_nope_head_dim + cfg.v_head_dim) <= full.len(),
    ensures
        ({
            let kv = cfg.qk_nope_head_dim + cfg.v_head_dim;
            let values = head_values(cfg, full, n);
            &&& values.len() == n * cfg.v_head_dim
            &&& values[h * cfg.v_head_dim + i] == full[h * kv + cfg.qk_nope_head_dim + i]
        }),
    decreases n,
{
    let kv = cfg.kv_head();
    let shared: Seq<u32> = Seq::new(cfg.qk_rope_head_dim as nat, |k: int| 0u32);
    keys_len(cfg, full, shared, n);
    head_in(n - 1, n, kv);
    keys_len(cfg, full, shared, n - 1);
    place_of_head(h, n, cfg.v_head_dim as int, i);
    if h < n - 1 {
        a_heads_value_stands_behind_its_key(cfg, full, n - 1, h, i);
    }
}

proof fn queries_len(cfg: MlaConfig, absorbed: Seq<Seq<u32>>, query: Seq<u32>, n: int)
    requires
        0 <= n <= absorbed.len(),
        forall|h: int| 0 <= h < absorbed.len() ==> (#[trigger] absorbed[h]).len() == cfg.kv_lora_rank,
        n * cfg.q_head() <= query.len(),
    ensures
        absorbed_queries(cfg, absorbed, query, n).len() == n * cfg.latent(),
    decreases n,
{
    if n > 0 {
        head_in(n - 1, n, cfg.q_head());
        head_in(n - 1, n, cfg.latent());
        queries_len(cfg, absorbed, query, n - 1);
    } else {
        assert(0 * cfg.latent() == 0);
    }
}

/// Where each element of an absorbed query comes from: head `h`'s query
/// is what absorbing that head gives, and behind it the rotated part of
/// the head's own query, unchanged.
pub proof fn an_absorbed_query_keeps_its_rotated_part(
    cfg: MlaConfig,
    absorbed: Seq<Seq<u32>>,
    query: Seq<u32>,
    n: int,
    h: int,
    i: int,
)
    requires
        0 <= h < n <= absorbed.len(),
        0 <= i < cfg.kv_lora_rank + cfg.qk_rope_head_dim,
        forall|k: int| 0 <= k < absorbed.len() ==> (#[trigger] absorbed[k]).len() == cfg.kv_lora_rank,
        n * (cfg.qk_nope_head_dim + cfg.qk_rope_head_dim) <= query.len(),
    ensures
        ({
            let width = cfg.kv_lora_rank + cfg.qk_rope_head_dim;
            let head = cfg.qk_nope_head_dim + cfg.qk_rope_head_dim;
            let q = absorbed_queries(cfg, absorbed, query, n);
            &&& q.len() == n * width
            &&& i < cfg.kv_lora_rank ==> q[h * width + i] == absorbed[h][i]
            &&& i >= cfg.kv_lora_rank ==> q[h * width + i] == query[h * head
                + cfg.qk_nope_head_dim + (i - cfg.kv_lora_rank)]
        }),
    decreases n,
{
    let width = cfg.latent();
    queries_len(cfg, absorbed, query, n);
    head_in(n - 1, n, cfg.q_head());
    queries_len(cfg, absorbed, query, n - 1);
    place_of_head(h, n, width, i);
    assert(absorbed[n - 1].len() == cfg.kv_lora_rank);
    if h < n - 1 {
        an_absorbed_query_keeps_its_rotated_part(cfg, absorbed, query, n - 1, h, i);
    }
}

/// What a position takes in the key cache: with the combined
/// decompression the keys of all heads, with the split one the latent and
/// the one key that the heads share, however many heads there are.
pub proof fn what_a_position_takes_in_the_cache(kv_b: MlaKvB, cfg: MlaConfig)
    ensures
        kv_b is Combined ==> kv_b.cache_width(cfg) == cfg.num_heads * (cfg.qk_nope_head_dim
            + cfg.qk_rope_head_dim),
        kv_b is Split ==> kv_b.cache_width(cfg) == cfg.kv_lora_rank + cfg.qk_rope_head_dim,
{
}

} // verus!
