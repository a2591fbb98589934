//! Where a model's weights come from: a matrix is a tensor of the file,
//! one of the equal parts a tensor is cut into, or data held in place.

use crate::gguf::{element_count, GgmlType, GgufFile};
use crate::load_error::{LoadError, LoadFault};
use crate::text::{decimal, decimal_text};
use vstd::prelude::*;
use vstd::string::StringExecFns;

verus! {

/// A weight matrix.
#[derive(Debug)]
pub enum WeightMatrix {
    /// `rows * cols` elements, row by row, as bit patterns.
    F32 { data: Vec<u32>, rows: usize, cols: usize },
    /// Part `part` of the `parts` equal parts that a tensor of the file
    /// is cut into along its slowest dimension.
    Stored { tensor: String, part: usize, parts: usize, rows: usize, cols: usize },
}

impl WeightMatrix {
    pub open spec fn n_rows(&self) -> usize {
        match self {
            WeightMatrix::F32 { rows, .. } => *rows,
            WeightMatrix::Stored { rows, .. } => *rows,
        }
    }

    pub open spec fn n_cols(&self) -> usize {
        match self {
            WeightMatrix::F32 { cols, .. } => *cols,
            WeightMatrix::Stored { cols, .. } => *cols,
        }
    }

    /// The number of rows: the width of what the matrix gives.
    pub fn rows(&self) -> (n: usize)
        ensures
            n == self.n_rows(),
    {
        match self {
            WeightMatrix::F32 { rows, .. } => *rows,
            WeightMatrix::Stored { rows, .. } => *rows,
        }
    }

    /// The number of columns: the width of what the matrix takes.
    pub fn cols(&self) -> (n: usize)
        ensures
            n == self.n_cols(),
    {
        match self {
            WeightMatrix::F32 { cols, .. } => *cols,
            WeightMatrix::Stored { cols, .. } => *cols,
        }
    }

    /// Whether this is the whole of the file's tensor `name`.
    pub open spec fn is_tensor(&self, file: GgufFile, name: Seq<char>) -> bool {
        self.is_part(file, name, 0, 1) && file.tensor(name)->0.shape@.len() == 2
    }

    /// Whether this is part `part` of the `parts` parts of the file's
    /// tensor `name`.
    pub open spec fn is_part(&self, file: GgufFile, name: Seq<char>, part: int, parts: int) -> bool {
        match self {
            WeightMatrix::Stored { tensor, part: p, parts: n, rows, cols } => {
                &&& tensor@ == name
                &&& *p == part
                &&& *n == parts
                &&& file.has(name)
                &&& *rows == file.tensor(name)->0.shape@[1] as usize
                &&& *cols == file.tensor(name)->0.shape@[0] as usize
            },
            _ => false,
        }
    }

    /// Whether this holds `data` in place, `rows` rows of `cols`.
    pub open spec fn holds(&self, data: Seq<u32>, rows: int, cols: int) -> bool {
        match self {
            WeightMatrix::F32 { data: d, rows: r, cols: c } => d@ == data && *r == rows && *c
                == cols,
            _ => false,
        }
    }
}

/// The first of two faults that there is.
pub open spec fn first_fault(a: Option<LoadFault>, b: Option<LoadFault>) -> Option<LoadFault> {
    if a is Some {
        a
    } else {
        b
    }
}

/// The refusal of a tensor that is no matrix.
pub const NOT_A_MATRIX: &'static str = "not a 2-D tensor";

/// The refusal of a tensor that does not cut into the parts asked for,
/// before their number.
pub const NOT_CUT: &'static str = "not a 3-D tensor of this many slices: ";

/// Why the tensor `name` cannot be a weight matrix.
pub open spec fn matrix_fault(file: GgufFile, name: Seq<char>) -> Option<LoadFault> {
    match file.tensor(name) {
        None => Some(LoadFault::TensorNotFound(name)),
        Some(t) => if t.shape@.len() != 2 {
            Some(LoadFault::UnsupportedFeature(name, NOT_A_MATRIX@))
        } else {
            None
        },
    }
}

/// Takes the tensor `name` as a weight matrix.
pub fn load_weight_matrix(file: &GgufFile, name: &str) -> (w: Result<WeightMatrix, LoadError>)
    ensures
        match matrix_fault(*file, name@) {
            Some(fault) => w is Err && w->Err_0@ == fault,
            None => w is Ok && w->Ok_0.is_tensor(*file, name@),
        },
{
    let t = file.required_tensor(name)?;
    if t.shape.len() != 2 {
        return Err(
            LoadError::UnsupportedFeature(String::from_str(name), String::from_str(NOT_A_MATRIX)),
        );
    }
    Ok(
        WeightMatrix::Stored {
            tensor: String::from_str(name),
            part: 0,
            parts: 1,
            rows: t.shape[1] as usize,
            cols: t.shape[0] as usize,
        },
    )
}

/// Why the tensor `name` cannot be cut into `parts` matrices.
pub open spec fn parts_fault(file: GgufFile, name: Seq<char>, parts: usize) -> Option<LoadFault> {
    match file.tensor(name) {
        None => Some(LoadFault::TensorNotFound(name)),
        Some(t) => if t.shape@.len() != 3 || t.shape@[2] != parts {
            Some(LoadFault::UnsupportedFeature(name, NOT_CUT@ + decimal(parts as nat)))
        } else {
            None
        },
    }
}

/// Whether `ws` are the `parts` matrices that the tensor `name` is cut
/// into, in order.
pub open spec fn are_parts(file: GgufFile, ws: Seq<WeightMatrix>, name: Seq<char>, parts: usize) -> bool {
    &&& ws.len() == parts
    &&& forall|i: int|
        0 <= i < parts ==> (#[trigger] ws[i]).is_part(file, name, i, parts as int)
}

/// Cuts the tensor `name` along its slowest dimension into `parts`
/// matrices, one for each expert or head.
pub fn split_expert_tensor(file: &GgufFile, name: &str, parts: usize) -> (ws: Result<
    Vec<WeightMatrix>,
    LoadError,
>)
    ensures
        match parts_fault(*file, name@, parts) {
            Some(fault) => ws is Err && ws->Err_0@ == fault,
            None => ws is Ok && are_parts(*file, ws->Ok_0@, name@, parts),
        },
{
    let t = file.required_tensor(name)?;
    if t.shape.len() != 3 || t.shape[2] != parts as u64 {
        return Err(
            LoadError::UnsupportedFeature(
                String::from_str(name),
                String::from_str(NOT_CUT).concat(decimal_text(parts as u64).as_str()),
            ),
        );
    }
    let rows: usize = t.shape[1] as usize;
    let cols: usize = t.shape[0] as usize;
    let mut ws: Vec<WeightMatrix> = Vec::new();
    let mut part: usize = 0;
    while part < parts
        invariant
            part <= parts,
            file.has(name@),
            rows == file.tensor(name@)->0.shape@[1] as usize,
            cols == file.tensor(name@)->0.shape@[0] as usize,
            ws@.len() == part,
            forall|i: int|
                0 <= i < part ==> (#[trigger] ws@[i]).is_part(*file, name@, i, parts as int),
        decreases parts - part,
    {
        ws.push(
            WeightMatrix::Stored { tensor: String::from_str(name), part, parts, rows, cols },
        );
        part += 1;
    }
    Ok(ws)
}

/// Why the tensor `name` cannot be read as 32-bit floats.
pub open spec fn vector_fault(file: GgufFile, name: Seq<char>) -> Option<LoadFault> {
    match file.tensor(name) {
        None => Some(LoadFault::TensorNotFound(name)),
        Some(t) => match t.dtype {
            GgmlType::Other(_) => Some(LoadFault::UnsupportedDtype(name, t.dtype)),
            _ => None,
        },
    }
}

/// The elements of the tensor `name`.
pub open spec fn vector_of(file: GgufFile, name: Seq<char>) -> Seq<u32> {
    file.tensor(name)->0.values@
}

/// A copy of a vector of bit patterns.
pub fn copied(v: &Vec<u32>) -> (c: Vec<u32>)
    ensures
        c@ == v@,
{
    vstd::slice::slice_to_vec(v.as_slice())
}

/// Reads the elements of the tensor `name`.
pub fn load_f32_vec(file: &GgufFile, name: &str) -> (v: Result<Vec<u32>, LoadError>)
    ensures
        match vector_fault(*file, name@) {
            Some(fault) => v is Err && v->Err_0@ == fault,
            None => {
                &&& v is Ok
                &&& v->Ok_0@ == vector_of(*file, name@)
                &&& file.complete() ==> v->Ok_0@.len() == element_count(
                    file.tensor(name@)->0.shape@,
                )
            },
        },
{
    let t = file.required_tensor(name)?;
    match t.dtype {
        GgmlType::Other(_) => Err(LoadError::UnsupportedDtype(String::from_str(name), t.dtype)),
        _ => Ok(copied(&t.values)),
    }
}

/// Why an optional tensor cannot be read; a missing one is no fault.
pub open spec fn optional_vector_fault(file: GgufFile, name: Seq<char>) -> Option<LoadFault> {
    if file.has(name) {
        vector_fault(file, name)
    } else {
        None
    }
}

/// Whether `v` holds the tensor `name` exactly when the file has it.
pub open spec fn is_optional_vector(file: GgufFile, name: Seq<char>, v: Option<Vec<u32>>) -> bool {
    &&& v is Some <==> file.has(name)
    &&& v is Some ==> v->0@ == vector_of(file, name)
}

/// Reads the elements of the tensor `name`, if the file has it.
pub fn load_f32_vec_optional(file: &GgufFile, name: &str) -> (v: Result<
    Option<Vec<u32>>,
    LoadError,
>)
    ensures
        match optional_vector_fault(*file, name@) {
            Some(fault) => v is Err && v->Err_0@ == fault,
            None => v is Ok && is_optional_vector(*file, name@, v->Ok_0),
        },
{
    if !file.has_tensor(name) {
        return Ok(None);
    }
    Ok(Some(load_f32_vec(file, name)?))
}

/// Why a tensor that must be there is not.
pub open spec fn presence_fault(file: GgufFile, name: Seq<char>) -> Option<LoadFault> {
    if file.has(name) {
        None
    } else {
        Some(LoadFault::TensorNotFound(name))
    }
}

/// Checks that the file has the tensor `name`.
pub fn require_tensor(file: &GgufFile, name: &str) -> (r: Result<(), LoadError>)
    ensures
        match presence_fault(*file, name@) {
            Some(fault) => r is Err && r->Err_0@ == fault,
            None => r is Ok,
        },
{
    let _ = file.required_tensor(name)?;
    Ok(())
}

/// The bit pattern of 1.0.
pub const ONE_BITS: u32 = 0x3f80_0000;

/// A vector of ones.
pub fn ones(n: usize) -> (v: Vec<u32>)
    ensures
        v@ == Seq::new(n as nat, |i: int| ONE_BITS),
{
    let v: Vec<u32> = vec![ONE_BITS; n];
    assert(v@ =~= Seq::new(n as nat, |i: int| ONE_BITS));
    v
}

/// The three projections of a gated feed-forward block.
#[derive(Debug)]
pub struct ExpertWeights {
    pub gate: WeightMatrix,
    pub up: WeightMatrix,
    pub down: WeightMatrix,
}

/// What a matrix of the wrong size is refused with: the size found, the
/// note, and the size wanted.
pub open spec fn size_chars(rows: nat, cols: nat, note: Seq<char>, want_rows: nat, want_cols: nat) -> Seq<char> {
    decimal(rows) + "x"@ + decimal(cols) + note + decimal(want_rows) + "x"@ + decimal(want_cols)
}

/// Why the tensor `name` cannot be a matrix of `rows` rows and `cols`
/// columns.
pub open spec fn sized_matrix_fault(
    file: GgufFile,
    name: Seq<char>,
    rows: usize,
    cols: usize,
    note: Seq<char>,
) -> Option<LoadFault> {
    let shape = file.tensor(name)->0.shape@;
    first_fault(
        matrix_fault(file, name),
        if shape[1] as usize != rows || shape[0] as usize != cols {
            Some(
                LoadFault::UnsupportedFeature(
                    name,
                    size_chars(
                        shape[1] as usize as nat,
                        shape[0] as usize as nat,
                        note,
                        rows as nat,
                        cols as nat,
                    ),
                ),
            )
        } else {
            None
        },
    )
}

/// Checks the size of a matrix taken from the tensor `name`.
pub fn check_size(
    file: &GgufFile,
    name: &str,
    w: &WeightMatrix,
    rows: usize,
    cols: usize,
    note: &str,
) -> (r: Result<(), LoadError>)
    requires
        matrix_fault(*file, name@) is None,
        w.is_tensor(*file, name@),
    ensures
        match sized_matrix_fault(*file, name@, rows, cols, note@) {
            Some(fault) => r is Err && r->Err_0@ == fault,
            None => r is Ok && w.n_rows() == rows && w.n_cols() == cols,
        },
{
    if w.rows() != rows || w.cols() != cols {
        return Err(
            LoadError::UnsupportedFeature(
                String::from_str(name),
                decimal_text(w.rows() as u64).concat("x").concat(
                    decimal_text(w.cols() as u64).as_str(),
                ).concat(note).concat(decimal_text(rows as u64).as_str()).concat("x").concat(
                    decimal_text(cols as u64).as_str(),
                ),
            ),
        );
    }
    Ok(())
}

/// Takes the tensor `name` as a matrix of `rows` rows and `cols` columns.
pub fn load_sized_matrix(file: &GgufFile, name: &str, rows: usize, cols: usize, note: &str) -> (w:
    Result<WeightMatrix, LoadError>)
    ensures
        match sized_matrix_fault(*file, name@, rows, cols, note@) {
            Some(fault) => w is Err && w->Err_0@ == fault,
            None => {
                &&& w is Ok
                &&& w->Ok_0.is_tensor(*file, name@)
                &&& w->Ok_0.n_rows() == rows
                &&& w->Ok_0.n_cols() == cols
            },
        },
{
    let w = load_weight_matrix(file, name)?;
    check_size(file, name, &w, rows, cols, note)?;
    Ok(w)
}

/// Why a vector read from the tensor `name` has the wrong length.
pub open spec fn length_fault(name: Seq<char>, found: nat, wanted: nat, note: Seq<char>) -> Option<
    LoadFault,
> {
    if found == wanted {
        None
    } else {
        Some(LoadFault::UnsupportedFeature(name, decimal(found) + note + decimal(wanted)))
    }
}

/// Checks the length of a vector read from the tensor `name`.
pub fn check_length(name: &str, found: usize, wanted: usize, note: &str) -> (r: Result<
    (),
    LoadError,
>)
    ensures
        match length_fault(name@, found as nat, wanted as nat, note@) {
            Some(fault) => r is Err && r->Err_0@ == fault,
            None => r is Ok,
        },
{
    if found == wanted {
        Ok(())
    } else {
        Err(
            LoadError::UnsupportedFeature(
                String::from_str(name),
                decimal_text(found as u64).concat(note).concat(
                    decimal_text(wanted as u64).as_str(),
                ),
            ),
        )
    }
}

/// Why the tensor `name` cannot be a vector of `len` elements.
pub open spec fn sized_vector_fault(file: GgufFile, name: Seq<char>, len: usize, note: Seq<char>) -> Option<
    LoadFault,
> {
    first_fault(
        vector_fault(file, name),
        length_fault(name, vector_of(file, name).len(), len as nat, note),
    )
}

/// Reads the tensor `name` as a vector of `len` elements.
pub fn load_sized_vec(file: &GgufFile, name: &str, len: usize, note: &str) -> (v: Result<
    Vec<u32>,
    LoadError,
>)
    ensures
        match sized_vector_fault(*file, name@, len, note@) {
            Some(fault) => v is Err && v->Err_0@ == fault,
            None => v is Ok && v->Ok_0@ == vector_of(*file, name@) && v->Ok_0@.len() == len,
        },
{
    let v = load_f32_vec(file, name)?;
    check_length(name, v.len(), len, note)?;
    Ok(v)
}

/// The state a recurrent layer carries from one token to the next, as
/// bit patterns.
#[derive(Debug)]
pub struct RecurrentState {
    /// The last inputs of the convolution.
    pub conv: Vec<u32>,
    /// The state of the recurrence.
    pub ssm: Vec<u32>,
}

impl RecurrentState {
    /// The state of a new sequence: all zeros, of these lengths.
    pub fn zeros(conv: usize, ssm: usize) -> (state: Self)
        ensures
            state.conv@ == Seq::new(conv as nat, |i: int| 0u32),
            state.ssm@ == Seq::new(ssm as nat, |i: int| 0u32),
    {
        let c: Vec<u32> = vec![0; conv];
        let s: Vec<u32> = vec![0; ssm];
        assert(c@ =~= Seq::new(conv as nat, |i: int| 0u32));
        assert(s@ =~= Seq::new(ssm as nat, |i: int| 0u32));
        RecurrentState { conv: c, ssm: s }
    }
}

/// The transpose of `s`, which holds `rows` rows of `cols`: row `c` of
/// the result is column `c` of `s`.
pub open spec fn transpose(s: Seq<u32>, rows: int, cols: int) -> Seq<u32> {
    Seq::new((rows * cols) as nat, |i: int| s[(i % rows) * cols + i / rows])
}

proof fn place_in_grid(q: int, r: int, n: int)
    requires
        0 <= r < n,
    ensures
        (q * n + r) / n == q,
        (q * n + r) % n == r,
{
    vstd::arithmetic::div_mod::lemma_fundamental_div_mod_converse(q * n + r, n, q, r);
}

/// The element in row `r` and column `c` goes to row `c` and column `r`.
pub proof fn transpose_swaps(s: Seq<u32>, rows: int, cols: int, r: int, c: int)
    requires
        0 <= r < rows,
        0 <= c < cols,
    ensures
        0 <= c * rows + r < rows * cols,
        transpose(s, rows, cols)[c * rows + r] == s[r * cols + c],
{
    assert(0 <= c * rows + r < rows * cols) by (nonlinear_arith)
        requires
            0 <= r < rows,
            0 <= c < cols,
    ;
    place_in_grid(c, r, rows);
}

/// Transposing twice gives back what was transposed.
pub proof fn transpose_twice(s: Seq<u32>, rows: int, cols: int)
    requires
        0 < rows,
        0 < cols,
        s.len() == rows * cols,
    ensures
        transpose(transpose(s, rows, cols), cols, rows) == s,
{
    let t = transpose(s, rows, cols);
    let back = transpose(t, cols, rows);
    assert(rows * cols == cols * rows) by (nonlinear_arith);
    assert forall|i: int| 0 <= i < s.len() implies back[i] == s[i] by {
        let r = i / cols;
        let c = i % cols;
        vstd::arithmetic::div_mod::lemma_fundamental_div_mod(i, cols);
        assert(i == r * cols + c) by (nonlinear_arith)
            requires
                i == cols * r + c,
        ;
        assert(0 <= r < rows) by (nonlinear_arith)
            requires
                i == r * cols + c,
                0 <= c < cols,
                0 <= i < rows * cols,
        ;
        transpose_swaps(s, rows, cols, r, c);
        assert(back[i] == t[(i % cols) * rows + i / cols]);
    }
    assert(back =~= s);
}

/// Transposes `rows` rows of `cols`.
pub fn transposed(s: &[u32], rows: usize, cols: usize) -> (t: Vec<u32>)
    requires
        s@.len() == rows * cols,
    ensures
        t@ == transpose(s@, rows as int, cols as int),
{
    let mut t: Vec<u32> = Vec::new();
    let mut c: usize = 0;
    let total = s.len();
    proof {
        assert(0 * rows == 0);
    }
    while c < cols
        invariant
            c <= cols,
            total == s@.len(),
            s@.len() == rows * cols,
            t@.len() == c * rows,
            forall|i: int|
                0 <= i < t@.len() ==> t@[i] == transpose(s@, rows as int, cols as int)[i],
        decreases cols - c,
    {
        let mut r: usize = 0;
        while r < rows
            invariant
                c < cols,
                r <= rows,
                total == s@.len(),
                s@.len() == rows * cols,
                t@.len() == c * rows + r,
                forall|i: int|
                    0 <= i < t@.len() ==> t@[i] == transpose(s@, rows as int, cols as int)[i],
            decreases rows - r,
        {
            proof {
                assert(0 <= r * cols && r * cols + c < rows * cols) by (nonlinear_arith)
                    requires
                        0 <= r < rows,
                        0 <= c < cols,
                ;
                transpose_swaps(s@, rows as int, cols as int, r as int, c as int);
            }
            t.push(s[r * cols + c]);
            r += 1;
        }
        assert(c * rows + rows == (c + 1) * rows) by (nonlinear_arith);
        c += 1;
    }
    assert(cols * rows == rows * cols) by (nonlinear_arith);
    assert(t@ =~= transpose(s@, rows as int, cols as int));
    t
}

/// A matrix taken from a tensor is that tensor, whole: it has a row for
/// each entry of the slower dimension and a column for each of the faster
/// one.
pub proof fn a_matrix_has_its_tensors_shape(file: GgufFile, name: Seq<char>, w: WeightMatrix)
    requires
        w.is_tensor(file, name),
    ensures
        file.has(name),
        file.tensor(name)->0.shape@.len() == 2,
        w.n_cols() == file.tensor(name)->0.shape@[0] as usize,
        w.n_rows() == file.tensor(name)->0.shape@[1] as usize,
        w matches WeightMatrix::Stored { tensor, part, parts, rows, cols } && tensor@ == name
            && part == 0 && parts == 1 && rows == w.n_rows() && cols == w.n_cols(),
{
}

/// The parts that a tensor is cut into are all of it, one after the other
/// and each once: part `i` is the `i`-th, and each has the shape of the
/// two faster dimensions.
pub proof fn parts_are_cut_in_order(
    file: GgufFile,
    ws: Seq<WeightMatrix>,
    name: Seq<char>,
    parts: usize,
    i: int,
)
    requires
        are_parts(file, ws, name, parts),
        0 <= i < parts,
    ensures
        ws.len() == parts,
        ws[i] matches WeightMatrix::Stored { tensor, part, parts: of, rows, cols } && tensor@
            == name && part == i && of == parts && rows == file.tensor(name)->0.shape@[1] as usize
            && cols == file.tensor(name)->0.shape@[0] as usize,
{
    assert(ws[i].is_part(file, name, i, parts as int));
}

/// What a tensor must be to be taken: there, for anything; of two
/// dimensions, for a matrix, and of the very sizes asked for; of three,
/// with as many slices as parts, to be cut; of a type that can be read,
/// for a vector, and of the very length asked for.
pub proof fn a_tensor_is_taken_for_what_it_is(
    file: GgufFile,
    name: Seq<char>,
    rows: usize,
    cols: usize,
    note: Seq<char>,
)
    ensures
        matrix_fault(file, name) is None <==> file.has(name) && file.tensor(name)->0.shape@.len()
            == 2,
        sized_matrix_fault(file, name, rows, cols, note) is None <==> file.has(name)
            && file.tensor(name)->0.shape@.len() == 2 && file.tensor(name)->0.shape@[0] as usize
            == cols && file.tensor(name)->0.shape@[1] as usize == rows,
        parts_fault(file, name, rows) is None <==> file.has(name) && file.tensor(
            name,
        )->0.shape@.len() == 3 && file.tensor(name)->0.shape@[2] == rows,
        vector_fault(file, name) is None <==> file.has(name) && !(file.tensor(
            name,
        )->0.dtype is Other),
        sized_vector_fault(file, name, rows, note) is None <==> file.has(name) && !(file.tensor(
            name,
        )->0.dtype is Other) && file.tensor(name)->0.values@.len() == rows,
        optional_vector_fault(file, name) is None <==> !file.has(name) || !(file.tensor(
            name,
        )->0.dtype is Other),
        presence_fault(file, name) is None <==> file.has(name),
        !file.has(name) ==> {
            &&& matrix_fault(file, name) == Some(LoadFault::TensorNotFound(name))
            &&& sized_matrix_fault(file, name, rows, cols, note) == Some(
                LoadFault::TensorNotFound(name),
            )
            &&& parts_fault(file, name, rows) == Some(LoadFault::TensorNotFound(name))
            &&& vector_fault(file, name) == Some(LoadFault::TensorNotFound(name))
            &&& sized_vector_fault(file, name, rows, note) == Some(LoadFault::TensorNotFound(name))
            &&& presence_fault(file, name) == Some(LoadFault::TensorNotFound(name))
        },
        file.has(name) ==> vector_of(file, name) == file.tensor(name)->0.values@,
{
}

/// Of two faults the earlier one is reported.
pub proof fn the_earlier_fault_is_reported(a: Option<LoadFault>, b: Option<LoadFault>)
    ensures
        a is Some ==> first_fault(a, b) == a,
        a is None ==> first_fault(a, b) == b,
        first_fault(a, b) is None <==> a is None && b is None,
{
}

} // verus!
