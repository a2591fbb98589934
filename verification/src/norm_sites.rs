//! Which tensor each norm of a layer is stored under, and with which
//! function, by architecture.
//!
//! The same tensor name feeds different sites of different architectures,
//! so the site is decided by the architecture and never by which tensors
//! happen to be there.

use crate::capability::{
    generic_rows_run, is_post_norm_only, runs_generic, BIASED_LAYER_NORM,
    NON_PARAMETRIC_LAYER_NORM, NON_PARAMETRIC_RMS_NORM, POST_NORM_ONLY_ARCHITECTURES,
    WEIGHTED_LAYER_NORM,
};
use crate::gguf::GgufFile;
use crate::load_error::{GgufError, LoadError, LoadFault};
use crate::norm::{function_of, norm_function, NormFunction, NormModel, NormOp, NormParam};
use crate::text::{block_name, block_name_text, contains_name, decimal, has_name};
use crate::weights::{load_f32_vec, vector_fault, vector_of};
use vstd::prelude::*;
use vstd::string::StringExecFns;

verus! {

/// Architectures that store the norm before the feed-forward block under
/// `post_attention_norm`.
pub const PRE_FFN_NORM_IS_POST_ATTENTION_NORM: [&'static str; 3] = [
    "gpt-oss",
    "seed_oss",
    "glm4moe",
];

/// Architectures that store the norm before the feed-forward block under
/// `attn_output_norm`.
pub const PRE_FFN_NORM_IS_ATTN_OUTPUT_NORM: [&'static str; 1] = ["dbrx"];

/// Architectures whose norm of the attention's output is stored under
/// `attn_output_norm`, and that of the feed-forward's output under
/// `layer_output_norm` or `post_ffw_norm`; both must be there.
pub const POST_NORMS_UNDER_GROK_NAMES: [&'static str; 1] = ["grok"];

/// A norm site whose weight the file stores, under the first of its names
/// that the file has.
#[derive(Debug, Clone, Copy, PartialEq, Eq)]
pub struct StoredNorm {
    pub names: &'static [&'static str],
    /// The file must have it.
    pub required: bool,
}

/// The model of a [`StoredNorm`].
pub struct SiteModel {
    pub names: Seq<Seq<char>>,
    pub required: bool,
}

/// The characters of each of `names`.
pub open spec fn name_chars(names: Seq<&str>) -> Seq<Seq<char>> {
    Seq::new(names.len(), |i: int| names[i]@)
}

impl View for StoredNorm {
    type V = SiteModel;

    open spec fn view(&self) -> SiteModel {
        SiteModel { names: name_chars(self.names@), required: self.required }
    }
}

/// The name of a layer's tensor, or of one outside the layers.
pub open spec fn site_name(layer: Option<usize>, base: Seq<char>) -> Seq<char> {
    match layer {
        Some(l) => block_name(l as nat, base),
        None => base,
    }
}

/// The names tried for one parameter of a site, in order: for a weight
/// each name with its suffix and then without, for a bias with its
/// suffix alone.
pub open spec fn candidates_of(names: Seq<Seq<char>>, layer: Option<usize>, part: NormParam) -> Seq<
    Seq<char>,
>
    decreases names.len(),
{
    if names.len() == 0 {
        seq![]
    } else {
        let full = site_name(layer, names.last());
        candidates_of(names.drop_last(), layer, part) + match part {
            NormParam::Weight => seq![full + ".weight"@, full],
            NormParam::Bias => seq![full + ".bias"@],
        }
    }
}

/// The first of `names` that the file has a tensor for.
pub open spec fn first_present(file: GgufFile, names: Seq<Seq<char>>) -> Option<Seq<char>>
    decreases names.len(),
{
    if names.len() == 0 {
        None
    } else if file.has(names[0]) {
        Some(names[0])
    } else {
        first_present(file, names.skip(1))
    }
}

/// Names with ` | ` between them.
pub open spec fn joined(names: Seq<Seq<char>>) -> Seq<char>
    decreases names.len(),
{
    if names.len() == 0 {
        seq![]
    } else if names.len() == 1 {
        names[0]
    } else {
        joined(names.drop_last()) + " | "@ + names.last()
    }
}

/// The characters of each of `names`.
pub open spec fn candidate_chars(names: Seq<String>) -> Seq<Seq<char>> {
    Seq::new(names.len(), |i: int| names[i]@)
}

fn find_present(file: &GgufFile, names: &Vec<String>) -> (found: Option<usize>)
    ensures
        match first_present(*file, candidate_chars(names@)) {
            Some(name) => found is Some && found->0 < names@.len() && names@[found->0 as int]@
                == name && file.has(name),
            None => found is None,
        },
{
    let ghost views = candidate_chars(names@);
    let mut i: usize = 0;
    assert(views.skip(0) =~= views);
    while i < names.len()
        invariant
            views == candidate_chars(names@),
            i <= names@.len(),
            first_present(*file, views) == first_present(*file, views.skip(i as int)),
        decreases names@.len() - i,
    {
        assert(views.skip(i as int).skip(1) =~= views.skip(i + 1));
        assert(views[i as int] == names@[i as int]@);
        if file.has_tensor(names[i].as_str()) {
            return Some(i);
        }
        i += 1;
    }
    None
}

fn join_names(names: &Vec<String>) -> (t: String)
    ensures
        t@ == joined(candidate_chars(names@)),
{
    let ghost views = candidate_chars(names@);
    let mut t = String::new();
    let mut i: usize = 0;
    assert(views.take(0) =~= seq![]);
    while i < names.len()
        invariant
            views == candidate_chars(names@),
            i <= names@.len(),
            t@ == joined(views.take(i as int)),
        decreases names@.len() - i,
    {
        if i > 0 {
            t.append(" | ");
        }
        t.append(names[i].as_str());
        proof {
            let now = views.take(i + 1);
            assert(now.drop_last() =~= views.take(i as int));
            assert(now.last() == names@[i as int]@);
            if i == 0 {
                assert(t@ =~= now[0]);
            }
        }
        i += 1;
    }
    assert(views.take(views.len() as int) =~= views);
    t
}

/// Why one parameter of a site cannot be read.
pub open spec fn part_fault(
    file: GgufFile,
    site: SiteModel,
    layer: Option<usize>,
    part: NormParam,
) -> Option<LoadFault> {
    let names = candidates_of(site.names, layer, part);
    match first_present(file, names) {
        Some(name) => vector_fault(file, name),
        None => Some(LoadFault::TensorNotFound(joined(names))),
    }
}

/// One parameter of a site that can be read.
pub open spec fn part_of(file: GgufFile, site: SiteModel, layer: Option<usize>, part: NormParam) -> Seq<
    u32,
> {
    vector_of(file, first_present(file, candidates_of(site.names, layer, part))->0)
}

impl StoredNorm {
    /// A site that the file must have.
    pub fn required(names: &'static [&'static str]) -> (s: Self)
        ensures
            s.names@ == names@,
            s.required,
    {
        StoredNorm { names, required: true }
    }

    /// A site that the file may leave out.
    pub fn optional(names: &'static [&'static str]) -> (s: Self)
        ensures
            s.names@ == names@,
            !s.required,
    {
        StoredNorm { names, required: false }
    }

    /// Every name tried for the weight, in order.
    pub fn candidates(&self, layer: Option<usize>) -> (names: Vec<String>)
        ensures
            candidate_chars(names@) == candidates_of(self@.names, layer, NormParam::Weight),
    {
        self.candidates_for(layer, NormParam::Weight)
    }

    /// Every name tried for one parameter, in order.
    pub fn candidates_for(&self, layer: Option<usize>, part: NormParam) -> (names: Vec<String>)
        ensures
            candidate_chars(names@) == candidates_of(self@.names, layer, part),
    {
        let ghost bases = self@.names;
        let mut names: Vec<String> = Vec::new();
        let mut i: usize = 0;
        assert(bases.take(0) =~= seq![]);
        assert(candidate_chars(names@) =~= seq![]);
        while i < self.names.len()
            invariant
                bases == name_chars(self.names@),
                i <= self.names@.len(),
                candidate_chars(names@) == candidates_of(bases.take(i as int), layer, part),
            decreases self.names@.len() - i,
        {
            let base = self.names[i];
            let ghost was = names@;
            let full = match layer {
                Some(l) => block_name_text(l, base),
                None => String::from_str(base),
            };
            proof {
                let now = bases.take(i + 1);
                assert(now.drop_last() =~= bases.take(i as int));
                assert(now.last() == base@);
                assert(full@ == site_name(layer, base@));
            }
            let ghost chars = full@;
            match part {
                NormParam::Weight => {
                    names.push(String::from_str(full.as_str()).concat(".weight"));
                    names.push(full);
                    assert(candidate_chars(names@) =~= candidate_chars(was) + seq![
                        chars + ".weight"@,
                        chars,
                    ]);
                },
                NormParam::Bias => {
                    names.push(full.concat(".bias"));
                    assert(candidate_chars(names@) =~= candidate_chars(was) + seq![
                        chars + ".bias"@,
                    ]);
                },
            }
            i += 1;
        }
        assert(bases.take(bases.len() as int) =~= bases);
        names
    }

    /// Reads the weight; `None` where the site is optional and the file
    /// leaves it out.
    pub fn load(&self, file: &GgufFile, layer: Option<usize>) -> (w: Result<
        Option<Vec<u32>>,
        LoadError,
    >)
        ensures
            ({
                let names = candidates_of(self@.names, layer, NormParam::Weight);
                match first_present(*file, names) {
                    Some(name) => match vector_fault(*file, name) {
                        Some(fault) => w is Err && w->Err_0@ == fault,
                        None => match w {
                            Ok(Some(v)) => v@ == vector_of(*file, name),
                            _ => false,
                        },
                    },
                    None => if self.required {
                        w is Err && w->Err_0@ == LoadFault::TensorNotFound(joined(names))
                    } else {
                        w is Ok && w->Ok_0 is None
                    },
                }
            }),
    {
        let names = self.candidates(layer);
        match find_present(file, &names) {
            Some(i) => match load_f32_vec(file, names[i].as_str()) {
                Ok(v) => Ok(Some(v)),
                Err(e) => Err(e),
            },
            None => if self.required {
                Err(LoadError::Gguf(GgufError::TensorNotFound(join_names(&names))))
            } else {
                Ok(None)
            },
        }
    }

    /// Reads one parameter of a site that the file must have.
    pub fn load_required_part(&self, file: &GgufFile, layer: Option<usize>, part: NormParam) -> (v:
        Result<Vec<u32>, LoadError>)
        requires
            self.required,
        ensures
            match part_fault(*file, self@, layer, part) {
                Some(fault) => v is Err && v->Err_0@ == fault,
                None => v is Ok && v->Ok_0@ == part_of(*file, self@, layer, part),
            },
    {
        let names = self.candidates_for(layer, part);
        match find_present(file, &names) {
            Some(i) => load_f32_vec(file, names[i].as_str()),
            None => Err(LoadError::Gguf(GgufError::TensorNotFound(join_names(&names)))),
        }
    }
}

/// Where every norm of an architecture's layer is.
#[derive(Debug, Clone, Copy, PartialEq, Eq)]
pub struct NormSites {
    pub function: NormFunction,
    /// Before attention; `None` where nothing is normed there.
    pub attn: Option<StoredNorm>,
    /// Before the feed-forward block.
    pub ffn: Option<StoredNorm>,
    /// On the attention's output.
    pub post_attn: Option<StoredNorm>,
    /// On the feed-forward's output.
    pub post_ffn: Option<StoredNorm>,
    /// Before the output head.
    pub output: StoredNorm,
}

/// The model of [`NormSites`].
pub struct SitesModel {
    pub function: NormFunction,
    pub attn: Option<SiteModel>,
    pub ffn: Option<SiteModel>,
    pub post_attn: Option<SiteModel>,
    pub post_ffn: Option<SiteModel>,
    pub output: SiteModel,
}

/// The model of a site that may not be there.
pub open spec fn site_view(site: Option<StoredNorm>) -> Option<SiteModel> {
    match site {
        Some(s) => Some(s@),
        None => None,
    }
}

impl View for NormSites {
    type V = SitesModel;

    open spec fn view(&self) -> SitesModel {
        SitesModel {
            function: self.function,
            attn: site_view(self.attn),
            ffn: site_view(self.ffn),
            post_attn: site_view(self.post_attn),
            post_ffn: site_view(self.post_ffn),
            output: self.output@,
        }
    }
}

/// A site of one name.
pub open spec fn one_name(name: Seq<char>, required: bool) -> SiteModel {
    SiteModel { names: seq![name], required }
}

/// The sites of `arch`.
pub open spec fn sites_of(arch: Seq<char>) -> SitesModel {
    let post_norm_only = has_name(POST_NORM_ONLY_ARCHITECTURES@, arch);
    let grok = has_name(POST_NORMS_UNDER_GROK_NAMES@, arch);
    SitesModel {
        function: function_of(arch),
        attn: if post_norm_only {
            None
        } else {
            Some(one_name("attn_norm"@, true))
        },
        ffn: if has_name(PRE_FFN_NORM_IS_ATTN_OUTPUT_NORM@, arch) {
            Some(one_name("attn_output_norm"@, true))
        } else if has_name(PRE_FFN_NORM_IS_POST_ATTENTION_NORM@, arch) {
            Some(one_name("post_attention_norm"@, true))
        } else if post_norm_only {
            None
        } else {
            Some(one_name("ffn_norm"@, true))
        },
        post_attn: if grok {
            Some(one_name("attn_output_norm"@, true))
        } else if has_name(PRE_FFN_NORM_IS_POST_ATTENTION_NORM@, arch) {
            None
        } else {
            Some(one_name("post_attention_norm"@, false))
        },
        post_ffn: if grok {
            Some(
                SiteModel {
                    names: seq!["layer_output_norm"@, "post_ffw_norm"@],
                    required: true,
                },
            )
        } else {
            Some(one_name("post_ffw_norm"@, false))
        },
        output: one_name("output_norm"@, true),
    }
}

/// Why the norm of a site cannot be loaded: the parameters that the
/// function has are read, the weight first.
pub open spec fn pre_norm_fault(
    function: NormFunction,
    site: Option<SiteModel>,
    file: GgufFile,
    layer: Option<usize>,
) -> Option<LoadFault> {
    match site {
        None => None,
        Some(s) => if !function.weighted() {
            None
        } else if part_fault(file, s, layer, NormParam::Weight) is Some {
            part_fault(file, s, layer, NormParam::Weight)
        } else if function.biased() {
            part_fault(file, s, layer, NormParam::Bias)
        } else {
            None
        },
    }
}

/// The norm of a site that can be loaded.
pub open spec fn pre_norm_of(
    function: NormFunction,
    site: Option<SiteModel>,
    file: GgufFile,
    layer: Option<usize>,
) -> NormModel {
    match site {
        None => NormModel::Identity,
        Some(s) => function.norm(
            part_of(file, s, layer, NormParam::Weight),
            part_of(file, s, layer, NormParam::Bias),
        ),
    }
}

impl NormSites {
    /// The sites of `arch`.
    pub fn for_arch(arch: &str) -> (sites: Self)
        ensures
            sites@ == sites_of(arch@),
    {
        let mut attn = Some(StoredNorm::required(&["attn_norm"]));
        let mut ffn = Some(StoredNorm::required(&["ffn_norm"]));
        let mut post_attn = Some(StoredNorm::optional(&["post_attention_norm"]));
        let mut post_ffn = Some(StoredNorm::optional(&["post_ffw_norm"]));
        let output = StoredNorm::required(&["output_norm"]);
        if is_post_norm_only(arch) {
            attn = None;
            ffn = None;
        }
        if contains_name(PRE_FFN_NORM_IS_POST_ATTENTION_NORM.as_slice(), arch) {
            ffn = Some(StoredNorm::required(&["post_attention_norm"]));
            post_attn = None;
        }
        if contains_name(PRE_FFN_NORM_IS_ATTN_OUTPUT_NORM.as_slice(), arch) {
            ffn = Some(StoredNorm::required(&["attn_output_norm"]));
        }
        if contains_name(POST_NORMS_UNDER_GROK_NAMES.as_slice(), arch) {
            post_attn = Some(StoredNorm::required(&["attn_output_norm"]));
            post_ffn = Some(StoredNorm::required(&["layer_output_norm", "post_ffw_norm"]));
        }
        let sites = NormSites {
            function: norm_function(arch),
            attn,
            ffn,
            post_attn,
            post_ffn,
            output,
        };
        proof {
            let want = sites_of(arch@);
            assert(sites.output@.names =~= want.output.names);
            if sites.attn is Some {
                assert(sites.attn->0@.names =~= want.attn->0.names);
            }
            if sites.ffn is Some {
                assert(sites.ffn->0@.names =~= want.ffn->0.names);
            }
            if sites.post_attn is Some {
                assert(sites.post_attn->0@.names =~= want.post_attn->0.names);
            }
            assert(sites.post_ffn->0@.names =~= want.post_ffn->0.names);
        }
        sites
    }

    /// The norm of a site before a branch, or before the output head.
    pub fn load_pre_norm(&self, site: Option<StoredNorm>, file: &GgufFile, layer: Option<usize>) -> (op:
        Result<NormOp, LoadError>)
        requires
            site is Some ==> site->0.required,
        ensures
            match pre_norm_fault(self.function, site_view(site), *file, layer) {
                Some(fault) => op is Err && op->Err_0@ == fault,
                None => op is Ok && op->Ok_0@ == pre_norm_of(
                    self.function,
                    site_view(site),
                    *file,
                    layer,
                ),
            },
    {
        let stored = match site {
            None => {
                return Ok(NormOp::Identity);
            },
            Some(stored) => stored,
        };
        let weight = if self.function.has_weight() {
            Some(stored.load_required_part(file, layer, NormParam::Weight)?)
        } else {
            None
        };
        let bias = if self.function.has_bias() {
            Some(stored.load_required_part(file, layer, NormParam::Bias)?)
        } else {
            None
        };
        Ok(self.function.resolve(weight, bias))
    }

    /// The weight of a norm on a branch's output; `None` where the
    /// architecture has no such site or the file leaves it out.
    pub fn load_post_norm(site: Option<StoredNorm>, file: &GgufFile, layer: usize) -> (w: Result<
        Option<Vec<u32>>,
        LoadError,
    >)
        ensures
            match post_norm_fault(site_view(site), *file, layer) {
                Some(fault) => w is Err && w->Err_0@ == fault,
                None => w is Ok && post_norm_is(site_view(site), *file, layer, w->Ok_0),
            },
    {
        match site {
            None => Ok(None),
            Some(stored) => stored.load(file, Some(layer)),
        }
    }
}

/// Why the norm on a branch's output cannot be loaded.
pub open spec fn post_norm_fault(site: Option<SiteModel>, file: GgufFile, layer: usize) -> Option<
    LoadFault,
> {
    match site {
        None => None,
        Some(s) => {
            let names = candidates_of(s.names, Some(layer), NormParam::Weight);
            match first_present(file, names) {
                Some(name) => vector_fault(file, name),
                None => if s.required {
                    Some(LoadFault::TensorNotFound(joined(names)))
                } else {
                    None
                },
            }
        },
    }
}

/// Whether `w` is the weight of the norm on a branch's output.
pub open spec fn post_norm_is(
    site: Option<SiteModel>,
    file: GgufFile,
    layer: usize,
    w: Option<Vec<u32>>,
) -> bool {
    let name = match site {
        None => None,
        Some(s) => first_present(file, candidates_of(s.names, Some(layer), NormParam::Weight)),
    };
    match name {
        Some(name) => w is Some && w->0@ == vector_of(file, name),
        None => w is None,
    }
}

/// The names of a site; none, where there is no such site.
pub open spec fn names_of(site: Option<SiteModel>) -> Seq<Seq<char>> {
    match site {
        Some(s) => s.names,
        None => seq![],
    }
}

/// Whether two sites have no name in common.
pub open spec fn apart(a: Option<SiteModel>, b: Option<SiteModel>) -> bool {
    forall|i: int, j: int|
        0 <= i < names_of(a).len() && 0 <= j < names_of(b).len() ==> (#[trigger] names_of(a)[i]) != (
        #[trigger] names_of(b)[j])
}

/// Every architecture that a list of norms names runs on the generic
/// decoder: no list keys a behaviour on a name that nothing reaches.
pub proof fn norm_lists_name_generic_rows(arch: Seq<char>)
    requires
        has_name(POST_NORM_ONLY_ARCHITECTURES@, arch) || has_name(NON_PARAMETRIC_LAYER_NORM@, arch)
            || has_name(NON_PARAMETRIC_RMS_NORM@, arch) || has_name(WEIGHTED_LAYER_NORM@, arch)
            || has_name(BIASED_LAYER_NORM@, arch) || has_name(
            PRE_FFN_NORM_IS_POST_ATTENTION_NORM@,
            arch,
        ) || has_name(PRE_FFN_NORM_IS_ATTN_OUTPUT_NORM@, arch) || has_name(
            POST_NORMS_UNDER_GROK_NAMES@,
            arch,
        ),
    ensures
        runs_generic(arch),
{
    generic_rows_run(11);
    generic_rows_run(13);
    generic_rows_run(10);
    generic_rows_run(32);
    generic_rows_run(29);
    generic_rows_run(30);
    generic_rows_run(31);
    generic_rows_run(17);
    generic_rows_run(18);
    generic_rows_run(16);
    generic_rows_run(19);
}

/// Whatever the architecture, no tensor name is read for two sites, the
/// one before the output head among them, and the sites before a branch
/// and before the head must be in the file.
pub proof fn no_norm_is_read_twice(arch: Seq<char>)
    ensures
        ({
            let s = sites_of(arch);
            &&& apart(s.attn, s.ffn)
            &&& apart(s.attn, s.post_attn)
            &&& apart(s.attn, s.post_ffn)
            &&& apart(s.ffn, s.post_attn)
            &&& apart(s.ffn, s.post_ffn)
            &&& apart(s.post_attn, s.post_ffn)
            &&& apart(s.attn, Some(s.output))
            &&& apart(s.ffn, Some(s.output))
            &&& apart(s.post_attn, Some(s.output))
            &&& apart(s.post_ffn, Some(s.output))
            &&& s.attn is Some ==> s.attn->0.required
            &&& s.ffn is Some ==> s.ffn->0.required
            &&& s.output.required
        }),
{
    reveal_strlit("attn_norm");
    reveal_strlit("ffn_norm");
    reveal_strlit("post_attention_norm");
    reveal_strlit("post_ffw_norm");
    reveal_strlit("attn_output_norm");
    reveal_strlit("layer_output_norm");
    reveal_strlit("output_norm");
    reveal_strlit("gpt-oss");
    reveal_strlit("seed_oss");
    reveal_strlit("glm4moe");
    reveal_strlit("dbrx");
    reveal_strlit("grok");
    assert("attn_norm"@.len() == 9 && "ffn_norm"@.len() == 8 && "post_attention_norm"@.len() == 19
        && "post_ffw_norm"@.len() == 13 && "attn_output_norm"@.len() == 16
        && "layer_output_norm"@.len() == 17 && "output_norm"@.len() == 11);
    assert("dbrx"@[0] == 'd' && "grok"@[0] == 'g' && "dbrx"@.len() == 4 && "grok"@.len() == 4
        && "gpt-oss"@.len() == 7 && "seed_oss"@.len() == 8 && "glm4moe"@.len() == 7);
    assert(has_name(POST_NORMS_UNDER_GROK_NAMES@, arch) ==> arch == "grok"@);
    assert(has_name(PRE_FFN_NORM_IS_ATTN_OUTPUT_NORM@, arch) ==> arch == "dbrx"@);
    assert(has_name(PRE_FFN_NORM_IS_POST_ATTENTION_NORM@, arch) ==> arch.len() >= 7);
}

/// Where each architecture's norms are stored. Before attention it is
/// `attn_norm`, but for the two that norm only outputs; before the
/// feed-forward block `ffn_norm`, `post_attention_norm` or
/// `attn_output_norm`, as the architecture has it; and a name that stands
/// for a norm before a branch stands for none on an output.
pub proof fn where_an_architecture_stores_its_norms(arch: Seq<char>)
    ensures
        ({
            let s = sites_of(arch);
            let outputs_only = arch == "olmo2"@ || arch == "exaone4"@;
            let shifted = arch == "gpt-oss"@ || arch == "seed_oss"@ || arch == "glm4moe"@;
            &&& s.function == function_of(arch)
            &&& outputs_only ==> s.attn is None && s.ffn is None
            &&& !outputs_only ==> s.attn is Some && s.attn->0.names == seq!["attn_norm"@]
                && s.attn->0.required
            &&& shifted ==> s.ffn is Some && s.ffn->0.names == seq!["post_attention_norm"@]
                && s.ffn->0.required && s.post_attn is None
            &&& arch == "dbrx"@ ==> s.ffn is Some && s.ffn->0.names == seq!["attn_output_norm"@]
                && s.ffn->0.required
            &&& !outputs_only && !shifted && arch != "dbrx"@ ==> s.ffn is Some && s.ffn->0.names
                == seq!["ffn_norm"@] && s.ffn->0.required
            &&& arch == "grok"@ ==> {
                &&& s.post_attn is Some && s.post_attn->0.names == seq!["attn_output_norm"@]
                &&& s.post_attn->0.required
                &&& s.post_ffn is Some && s.post_ffn->0.names == seq![
                    "layer_output_norm"@,
                    "post_ffw_norm"@,
                ]
                &&& s.post_ffn->0.required
            }
            &&& arch != "grok"@ && !shifted ==> s.post_attn is Some && s.post_attn->0.names
                == seq!["post_attention_norm"@] && !s.post_attn->0.required
            &&& arch != "grok"@ ==> s.post_ffn is Some && s.post_ffn->0.names == seq![
                "post_ffw_norm"@,
            ] && !s.post_ffn->0.required
            &&& s.output.names == seq!["output_norm"@] && s.output.required
        }),
{
    reveal_strlit("gpt-oss");
    reveal_strlit("seed_oss");
    reveal_strlit("glm4moe");
    reveal_strlit("dbrx");
    reveal_strlit("grok");
    reveal_strlit("olmo2");
    reveal_strlit("exaone4");
    assert("dbrx"@[0] == 'd' && "grok"@[0] == 'g' && "dbrx"@.len() == 4 && "grok"@.len() == 4
        && "gpt-oss"@.len() == 7 && "seed_oss"@.len() == 8 && "glm4moe"@.len() == 7);
    assert("olmo2"@.len() == 5 && "exaone4"@.len() == 7 && "exaone4"@[0] == 'e' && "gpt-oss"@[0]
        == 'g' && "glm4moe"@[0] == 'g');
    assert(POST_NORM_ONLY_ARCHITECTURES@[0]@ == "olmo2"@);
    assert(POST_NORM_ONLY_ARCHITECTURES@[1]@ == "exaone4"@);
    assert(PRE_FFN_NORM_IS_POST_ATTENTION_NORM@[0]@ == "gpt-oss"@);
    assert(PRE_FFN_NORM_IS_POST_ATTENTION_NORM@[1]@ == "seed_oss"@);
    assert(PRE_FFN_NORM_IS_POST_ATTENTION_NORM@[2]@ == "glm4moe"@);
    assert(PRE_FFN_NORM_IS_ATTN_OUTPUT_NORM@[0]@ == "dbrx"@);
    assert(POST_NORMS_UNDER_GROK_NAMES@[0]@ == "grok"@);
}

/// Of the names tried for a parameter the first that the file has is
/// read.
pub proof fn the_first_name_there_is_counts(file: GgufFile, names: Seq<Seq<char>>, i: int)
    ensures
        0 <= i < names.len() && file.has(names[i]) && (forall|j: int|
            0 <= j < i ==> !file.has(#[trigger] names[j])) ==> first_present(file, names) == Some(
            names[i],
        ),
        (forall|j: int| 0 <= j < names.len() ==> !file.has(#[trigger] names[j])) ==> first_present(
            file,
            names,
        ) is None,
    decreases names.len(),
{
    if names.len() > 0 && !file.has(names[0]) {
        let rest = names.skip(1);
        the_first_name_there_is_counts(file, rest, i - 1);
        if forall|j: int| 0 <= j < names.len() ==> !file.has(#[trigger] names[j]) {
            assert forall|j: int| 0 <= j < rest.len() implies !file.has(#[trigger] rest[j]) by {
                assert(rest[j] == names[j + 1]);
            }
        }
        if 0 < i < names.len() && file.has(names[i]) && (forall|j: int|
            0 <= j < i ==> !file.has(#[trigger] names[j])) {
            assert forall|j: int| 0 <= j < i - 1 implies !file.has(#[trigger] rest[j]) by {
                assert(rest[j] == names[j + 1]);
            }
            assert(rest[i - 1] == names[i]);
        }
    }
}

/// The names tried for a site, in order. Each base name of the site is
/// tried before the next; a weight is looked for under the name with
/// `.weight` and then without, a bias with `.bias` alone; and in a layer
/// the name has the layer's `blk.N.` before it.
pub proof fn names_are_tried_with_their_suffix_first(
    bases: Seq<Seq<char>>,
    layer: Option<usize>,
    i: int,
)
    requires
        0 <= i < bases.len(),
    ensures
        ({
            let full = match layer {
                Some(l) => "blk."@ + decimal(l as nat) + "."@ + bases[i],
                None => bases[i],
            };
            let weights = candidates_of(bases, layer, NormParam::Weight);
            let biases = candidates_of(bases, layer, NormParam::Bias);
            &&& weights.len() == 2 * bases.len()
            &&& weights[2 * i] == full + ".weight"@
            &&& weights[2 * i + 1] == full
            &&& biases.len() == bases.len()
            &&& biases[i] == full + ".bias"@
        }),
    decreases bases.len(),
{
    let head = bases.drop_last();
    if head.len() > 0 {
        names_are_tried_with_their_suffix_first(
            head,
            layer,
            if i < head.len() {
                i
            } else {
                0
            },
        );
    } else {
        assert(candidates_of(head, layer, NormParam::Weight) =~= seq![]);
        assert(candidates_of(head, layer, NormParam::Bias) =~= seq![]);
    }
}

/// What the norm before a layer's attention is, for an architecture that
/// has one: the weight under `blk.N.attn_norm.weight`, or under the bare
/// name where the file has only that, and the bias under
/// `blk.N.attn_norm.bias` for a norm with one.
pub proof fn the_norm_before_attention_is_attn_norm(file: GgufFile, arch: Seq<char>, l: usize)
    requires
        arch != "olmo2"@,
        arch != "exaone4"@,
        pre_norm_fault(function_of(arch), sites_of(arch).attn, file, Some(l)) is None,
    ensures
        ({
            let full = "blk."@ + decimal(l as nat) + "."@ + "attn_norm"@;
            let op = pre_norm_of(function_of(arch), sites_of(arch).attn, file, Some(l));
            let weight = if file.has(full + ".weight"@) {
                vector_of(file, full + ".weight"@)
            } else {
                vector_of(file, full)
            };
            match function_of(arch) {
                NormFunction::Rms => op == NormModel::Rms(weight),
                NormFunction::LayerNorm => op == NormModel::LayerNorm(weight),
                NormFunction::LayerNormBias => op == NormModel::LayerNormBias(
                    weight,
                    vector_of(file, full + ".bias"@),
                ),
                NormFunction::LayerNormNoParams => op == NormModel::LayerNormNoParams,
                NormFunction::RmsNoParams => op == NormModel::RmsNoParams,
            }
        }),
{
    where_an_architecture_stores_its_norms(arch);
    let bases = seq!["attn_norm"@];
    assert(sites_of(arch).attn->0.names == bases);
    names_are_tried_with_their_suffix_first(bases, Some(l), 0);
    let weights = candidates_of(bases, Some(l), NormParam::Weight);
    let biases = candidates_of(bases, Some(l), NormParam::Bias);
    the_first_name_there_is_counts(file, weights, 0);
    the_first_name_there_is_counts(file, weights, 1);
    the_first_name_there_is_counts(file, biases, 0);
    if function_of(arch).weighted() {
        assert(first_present(file, weights) is Some);
        if !file.has(weights[0]) && !file.has(weights[1]) {
            assert(forall|j: int| 0 <= j < weights.len() ==> !file.has(#[trigger] weights[j]));
        }
        if function_of(arch).biased() {
            assert(first_present(file, biases) is Some);
            if !file.has(biases[0]) {
                assert(forall|j: int| 0 <= j < biases.len() ==> !file.has(#[trigger] biases[j]));
            }
        }
    }
}

/// A norm on a branch's output is the first of its names that the file
/// has; a site that the architecture lacks, and an optional one that the
/// file leaves out, give none, and a required one that the file leaves
/// out is refused.
pub proof fn an_output_norm_may_be_left_out_where_it_is_optional(
    site: Option<SiteModel>,
    file: GgufFile,
    l: usize,
    w: Option<Vec<u32>>,
)
    requires
        post_norm_fault(site, file, l) is None,
        post_norm_is(site, file, l, w),
    ensures
        site is None ==> w is None,
        site matches Some(s) ==> {
            let names = candidates_of(s.names, Some(l), NormParam::Weight);
            &&& s.required ==> w is Some
            &&& w is Some <==> exists|i: int| 0 <= i < names.len() && file.has(#[trigger] names[i])
            &&& forall|i: int|
                0 <= i < names.len() && file.has(#[trigger] names[i]) && (forall|j: int|
                    0 <= j < i ==> !file.has(#[trigger] names[j])) ==> w is Some && w->0@
                    == vector_of(file, names[i])
        },
{
    if site is Some {
        let names = candidates_of(site->0.names, Some(l), NormParam::Weight);
        the_first_name_there_is_counts(file, names, 0);
        assert forall|i: int|
            0 <= i < names.len() && file.has(#[trigger] names[i]) && (forall|j: int|
                0 <= j < i ==> !file.has(#[trigger] names[j])) implies w is Some && w->0@
            == vector_of(file, names[i]) by {
            the_first_name_there_is_counts(file, names, i);
        }
        present_is_in(file, names);
    }
}

proof fn present_is_in(file: GgufFile, names: Seq<Seq<char>>)
    ensures
        first_present(file, names) is Some <==> exists|i: int|
            0 <= i < names.len() && file.has(#[trigger] names[i]),
    decreases names.len(),
{
    if names.len() > 0 {
        let rest = names.skip(1);
        present_is_in(file, rest);
        if file.has(names[0]) {
        } else {
            if exists|i: int| 0 <= i < rest.len() && file.has(#[trigger] rest[i]) {
                let i = choose|i: int| 0 <= i < rest.len() && file.has(#[trigger] rest[i]);
                assert(names[i + 1] == rest[i]);
            }
            if exists|i: int| 0 <= i < names.len() && file.has(#[trigger] names[i]) {
                let i = choose|i: int| 0 <= i < names.len() && file.has(#[trigger] names[i]);
                assert(rest[i - 1] == names[i]);
            }
        }
    }
}

} // verus!
