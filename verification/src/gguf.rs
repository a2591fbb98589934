//! An opened GGUF file, as the plain values the loaders read: its
//! metadata, and for every tensor its name, dimensions, element type and
//! elements.
//!
//! Floating-point values are carried as their IEEE-754 bit patterns. No
//! rule of this library adds or multiplies two of them: a value is
//! passed on, replaced by a default, or asked for its sign. Beside the
//! bit pattern of a float of the metadata stands its `Debug` writing, the
//! shortest decimal that reads back as the value: with a digit after the
//! point, or with an exponent where the value is very large or small.
//! Messages quote it, or write it out with all its digits
//! ([`crate::text::written_out`]).

use crate::load_error::{GgufError, LoadError, LoadFault};
use crate::text::{bool_chars, bool_text, decimal, decimal_text, str_eq};
use vstd::prelude::*;
use vstd::string::StringExecFns;

verus! {

/// A tensor's element type.
#[derive(Debug, Clone, Copy, PartialEq, Eq, Structural)]
pub enum GgmlType {
    F32,
    F16,
    BF16,
    /// A block-quantised type the kernels read, by its number.
    Quant(u32),
    /// A type no kernel reads, by its number.
    Other(u32),
}

/// A metadata value.
#[derive(Debug)]
pub enum GgufValue {
    U8(u8),
    I8(i8),
    U16(u16),
    I16(i16),
    U32(u32),
    I32(i32),
    /// A 32-bit float: its bit pattern, and its writing.
    F32 { bits: u32, text: String },
    Bool(bool),
    String(String),
    Array(Vec<GgufValue>),
    U64(u64),
    I64(i64),
    /// A 64-bit float: its bit pattern, and its writing.
    F64 { wide_bits: u64, text: String },
}

/// How a string is written between quotes, with its special characters
/// escaped.
pub uninterp spec fn quoted_chars(s: Seq<char>) -> Seq<char>;

/// Writes a string between quotes by the `Debug` formatting of
/// `core::str`. The result depends on the characters of `s` alone, and
/// is named [`quoted_chars`]; which characters are escaped, and how, is
/// not stated.
#[verifier::external_body]
pub(crate) fn quoted_text(s: &str) -> (t: String)
    ensures
        t@ == quoted_chars(s@),
{
    format!("{:?}", s)
}

/// The decimal writing of an integer, with a leading `-` where it is
/// negative.
pub open spec fn signed_decimal(n: int) -> Seq<char> {
    if n < 0 {
        "-"@ + decimal((-n) as nat)
    } else {
        decimal(n as nat)
    }
}

fn signed_decimal_text(n: i64) -> (t: String)
    ensures
        t@ == signed_decimal(n as int),
{
    if n < 0 {
        let magnitude: u64 = (-(n + 1)) as u64 + 1;
        String::from_str("-").concat(decimal_text(magnitude).as_str())
    } else {
        decimal_text(n as u64)
    }
}

/// How a metadata value is written in a message: the name of its type,
/// then what it holds.
pub open spec fn value_chars(v: GgufValue) -> Seq<char>
    decreases v,
{
    match v {
        GgufValue::U8(n) => "U8("@ + decimal(n as nat) + ")"@,
        GgufValue::I8(n) => "I8("@ + signed_decimal(n as int) + ")"@,
        GgufValue::U16(n) => "U16("@ + decimal(n as nat) + ")"@,
        GgufValue::I16(n) => "I16("@ + signed_decimal(n as int) + ")"@,
        GgufValue::U32(n) => "U32("@ + decimal(n as nat) + ")"@,
        GgufValue::I32(n) => "I32("@ + signed_decimal(n as int) + ")"@,
        GgufValue::F32 { text, .. } => "F32("@ + text@ + ")"@,
        GgufValue::Bool(b) => "Bool("@ + bool_chars(b) + ")"@,
        GgufValue::String(s) => "String("@ + quoted_chars(s@) + ")"@,
        GgufValue::Array(items) => "Array(["@ + items_chars(items@, items@.len() as int) + "])"@,
        GgufValue::U64(n) => "U64("@ + decimal(n as nat) + ")"@,
        GgufValue::I64(n) => "I64("@ + signed_decimal(n as int) + ")"@,
        GgufValue::F64 { text, .. } => "F64("@ + text@ + ")"@,
    }
}

/// The first `n` of `items`, written one after another with `, ` between
/// them.
pub open spec fn items_chars(items: Seq<GgufValue>, n: int) -> Seq<char>
    decreases items, n,
{
    if n <= 0 || n > items.len() {
        seq![]
    } else {
        items_chars(items, n - 1) + (if n > 1 {
            ", "@
        } else {
            seq![]
        }) + value_chars(items[n - 1])
    }
}

/// Writes a metadata value for a message.
pub fn value_text(v: &GgufValue) -> (t: String)
    ensures
        t@ == value_chars(*v),
    decreases v,
{
    match v {
        GgufValue::U8(n) => String::from_str("U8(").concat(decimal_text(*n as u64).as_str()).concat(
            ")",
        ),
        GgufValue::I8(n) => String::from_str("I8(").concat(
            signed_decimal_text(*n as i64).as_str(),
        ).concat(")"),
        GgufValue::U16(n) => String::from_str("U16(").concat(
            decimal_text(*n as u64).as_str(),
        ).concat(")"),
        GgufValue::I16(n) => String::from_str("I16(").concat(
            signed_decimal_text(*n as i64).as_str(),
        ).concat(")"),
        GgufValue::U32(n) => String::from_str("U32(").concat(
            decimal_text(*n as u64).as_str(),
        ).concat(")"),
        GgufValue::I32(n) => String::from_str("I32(").concat(
            signed_decimal_text(*n as i64).as_str(),
        ).concat(")"),
        GgufValue::F32 { text, .. } => String::from_str("F32(").concat(text.as_str()).concat(")"),
        GgufValue::Bool(b) => String::from_str("Bool(").concat(bool_text(*b)).concat(")"),
        GgufValue::String(s) => String::from_str("String(").concat(
            quoted_text(s.as_str()).as_str(),
        ).concat(")"),
        GgufValue::Array(items) => {
            let mut body = String::new();
            let mut i: usize = 0;
            while i < items.len()
                invariant
                    *v == GgufValue::Array(*items),
                    i <= items@.len(),
                    body@ == items_chars(items@, i as int),
                decreases items@.len() - i,
            {
                if i > 0 {
                    body.append(", ");
                }
                assert(decreases_to!(v => v->Array_0));
                assert(decreases_to!(*items => items@));
                body.append(value_text(&items[i]).as_str());
                i += 1;
                proof {
                    let joined = items_chars(items@, i as int);
                    assert(body@ =~= joined);
                }
            }
            String::from_str("Array([").concat(body.as_str()).concat("])")
        },
        GgufValue::U64(n) => String::from_str("U64(").concat(decimal_text(*n).as_str()).concat(")"),
        GgufValue::I64(n) => String::from_str("I64(").concat(
            signed_decimal_text(*n).as_str(),
        ).concat(")"),
        GgufValue::F64 { text, .. } => String::from_str("F64(").concat(text.as_str()).concat(")"),
    }
}

impl GgufValue {
    /// The value as an unsigned integer: any integer that is not
    /// negative, whatever its width and signedness.
    pub open spec fn unsigned(&self) -> Option<u64> {
        match self {
            GgufValue::U8(n) => Some(*n as u64),
            GgufValue::U16(n) => Some(*n as u64),
            GgufValue::U32(n) => Some(*n as u64),
            GgufValue::U64(n) => Some(*n),
            GgufValue::I8(n) if *n >= 0 => Some(*n as u64),
            GgufValue::I16(n) if *n >= 0 => Some(*n as u64),
            GgufValue::I32(n) if *n >= 0 => Some(*n as u64),
            GgufValue::I64(n) if *n >= 0 => Some(*n as u64),
            _ => None,
        }
    }

    /// The value as an unsigned integer, if it is one.
    pub fn as_u64(&self) -> (n: Option<u64>)
        ensures
            n == self.unsigned(),
    {
        match self {
            GgufValue::U8(n) => Some(*n as u64),
            GgufValue::U16(n) => Some(*n as u64),
            GgufValue::U32(n) => Some(*n as u64),
            GgufValue::U64(n) => Some(*n),
            GgufValue::I8(n) => if *n >= 0 {
                Some(*n as u64)
            } else {
                None
            },
            GgufValue::I16(n) => if *n >= 0 {
                Some(*n as u64)
            } else {
                None
            },
            GgufValue::I32(n) => if *n >= 0 {
                Some(*n as u64)
            } else {
                None
            },
            GgufValue::I64(n) => if *n >= 0 {
                Some(*n as u64)
            } else {
                None
            },
            _ => None,
        }
    }

    /// The value as a truth value.
    pub open spec fn truth(&self) -> Option<bool> {
        match self {
            GgufValue::Bool(b) => Some(*b),
            _ => None,
        }
    }

    /// The value as a truth value, if it is one.
    pub fn as_bool(&self) -> (b: Option<bool>)
        ensures
            b == self.truth(),
    {
        match self {
            GgufValue::Bool(b) => Some(*b),
            _ => None,
        }
    }
}

/// A tensor of the file.
#[derive(Debug)]
pub struct TensorInfo {
    pub name: String,
    /// The dimensions, fastest-varying first: a matrix of `rows` rows
    /// and `cols` columns is `[cols, rows]`.
    pub shape: Vec<u64>,
    pub dtype: GgmlType,
    /// The elements in file order, widened to 32-bit floats, as bit
    /// patterns.
    pub values: Vec<u32>,
}

/// The first `n` of some numbers, with `, ` between them.
pub open spec fn numbers_chars(dims: Seq<u64>, n: int) -> Seq<char>
    decreases n,
{
    if n <= 0 {
        seq![]
    } else {
        numbers_chars(dims, n - 1) + (if n > 1 {
            ", "@
        } else {
            seq![]
        }) + decimal(dims[n - 1] as nat)
    }
}

/// How dimensions are written in a message.
pub open spec fn dims_chars(dims: Seq<u64>) -> Seq<char> {
    "["@ + numbers_chars(dims, dims.len() as int) + "]"@
}

/// Writes numbers for a message.
pub fn list_text(dims: &[u64]) -> (t: String)
    ensures
        t@ == dims_chars(dims@),
{
    let mut body = String::new();
    let mut i: usize = 0;
    while i < dims.len()
        invariant
            i <= dims@.len(),
            body@ == numbers_chars(dims@, i as int),
        decreases dims@.len() - i,
    {
        if i > 0 {
            body.append(", ");
        }
        body.append(decimal_text(dims[i]).as_str());
        i += 1;
        assert(body@ =~= numbers_chars(dims@, i as int));
    }
    String::from_str("[").concat(body.as_str()).concat("]")
}

/// Writes dimensions for a message.
pub fn dims_text(dims: &Vec<u64>) -> (t: String)
    ensures
        t@ == dims_chars(dims@),
{
    list_text(dims.as_slice())
}

/// The number of elements that the dimensions `shape` hold.
pub open spec fn element_count(shape: Seq<u64>) -> nat
    decreases shape.len(),
{
    if shape.len() == 0 {
        1
    } else {
        element_count(shape.drop_last()) * shape.last() as nat
    }
}

impl TensorInfo {
    /// Whether the tensor carries as many elements as its dimensions say.
    pub open spec fn complete(&self) -> bool {
        self.values@.len() == element_count(self.shape@)
    }

    /// Whether the tensor carries as many elements as its dimensions say.
    pub fn is_complete(&self) -> (yes: bool)
        ensures
            yes == self.complete(),
    {
        let mut i: usize = 0;
        while i < self.shape.len()
            invariant
                i <= self.shape@.len(),
                forall|j: int| 0 <= j < i ==> self.shape@[j] > 0,
            decreases self.shape@.len() - i,
        {
            if self.shape[i] == 0 {
                proof {
                    zero_dimension(self.shape@, i as int);
                }
                return self.values.len() == 0;
            }
            i += 1;
        }
        let held = self.values.len();
        let mut count: usize = 1;
        let mut k: usize = 0;
        assert(self.shape@.take(0) =~= Seq::<u64>::empty());
        while k < self.shape.len()
            invariant
                k <= self.shape@.len(),
                forall|j: int| 0 <= j < self.shape@.len() ==> self.shape@[j] > 0,
                count == element_count(self.shape@.take(k as int)),
                count >= 1,
                held == self.values@.len(),
            decreases self.shape@.len() - k,
        {
            let ghost next = self.shape@.take(k + 1);
            proof {
                assert(next.drop_last() =~= self.shape@.take(k as int));
                counts_grow(self.shape@, k + 1);
            }
            let dim = self.shape[k];
            if dim > usize::MAX as u64 {
                assert(count * dim > usize::MAX) by (nonlinear_arith)
                    requires
                        dim > usize::MAX,
                        count >= 1,
                ;
                return false;
            }
            match count.checked_mul(dim as usize) {
                Some(n) => {
                    assert(n >= 1) by (nonlinear_arith)
                        requires
                            n == count * dim,
                            count >= 1,
                            dim >= 1,
                    ;
                    count = n;
                },
                None => {
                    return false;
                },
            }
            k += 1;
        }
        assert(self.shape@.take(k as int) =~= self.shape@);
        held == count
    }
}

proof fn zero_dimension(shape: Seq<u64>, i: int)
    requires
        0 <= i < shape.len(),
        shape[i] == 0,
    ensures
        element_count(shape) == 0,
    decreases shape.len(),
{
    let head = shape.drop_last();
    if i == shape.len() - 1 {
        assert(element_count(head) * 0 == 0) by (nonlinear_arith);
    } else {
        zero_dimension(head, i);
        assert(0 * shape.last() == 0) by (nonlinear_arith);
    }
}

proof fn counts_grow(shape: Seq<u64>, k: int)
    requires
        0 <= k <= shape.len(),
        forall|j: int| 0 <= j < shape.len() ==> shape[j] > 0,
    ensures
        1 <= element_count(shape.take(k)) <= element_count(shape),
    decreases shape.len(),
{
    if shape.len() == 0 {
        assert(shape.take(k) =~= shape);
    } else if k == shape.len() {
        assert(shape.take(k) =~= shape);
        counts_grow(shape.drop_last(), k - 1);
        let head = element_count(shape.drop_last());
        let last = shape.last();
        assert(head * last >= 1) by (nonlinear_arith)
            requires
                head >= 1,
                last >= 1,
        ;
    } else {
        counts_grow(shape.drop_last(), k);
        assert(shape.drop_last().take(k) =~= shape.take(k));
        let head = element_count(shape.drop_last());
        let last = shape.last();
        assert(head * last >= head) by (nonlinear_arith)
            requires
                head >= 1,
                last >= 1,
        ;
    }
}

/// The bit pattern of 1e-6.
pub const EPS_1E_6: u32 = 0x3586_37bd;

/// The bit pattern of 10000.0.
pub const THETA_1E4: u32 = 0x461c_4000;

/// The bit pattern of 1e-5.
pub const EPS_1E_5: u32 = 0x3727_c5ac;

/// The bit pattern of 1000000.0.
pub const THETA_1E6: u32 = 0x4974_2400;

/// The key of a file's architecture.
pub const ARCH_KEY: &'static str = "general.architecture";

/// The first of two readings that there is.
pub open spec fn either(a: Option<u64>, b: Option<u64>) -> Option<u64> {
    if a is Some {
        a
    } else {
        b
    }
}

/// A reading, or the default where there is none.
pub open spec fn u64_or(a: Option<u64>, default: int) -> usize {
    if a is Some {
        a->0 as usize
    } else {
        default as usize
    }
}

/// A float reading, or the default where there is none.
pub open spec fn f32_or(a: Option<u32>, default: u32) -> u32 {
    if a is Some {
        a->0
    } else {
        default
    }
}

/// Whether a bit pattern is that of a nonzero float (not-a-number
/// included).
pub open spec fn nonzero_float(bits: u32) -> bool {
    bits != 0 && bits != 0x8000_0000
}

/// A required key that is missing.
pub open spec fn missing_u64(file: GgufFile, key: Seq<char>) -> Option<LoadFault> {
    if file.meta_u64(key) is Some {
        None
    } else {
        Some(LoadFault::MissingHparam(key))
    }
}

/// The smaller of two numbers.
pub open spec fn smaller(a: usize, b: usize) -> usize {
    if a <= b {
        a
    } else {
        b
    }
}

/// The larger of two numbers.
pub open spec fn larger(a: usize, b: usize) -> usize {
    if a >= b {
        a
    } else {
        b
    }
}

/// An opened file.
#[derive(Debug)]
pub struct GgufFile {
    /// The metadata; the first entry of a key is the one that counts.
    pub metadata: Vec<(String, GgufValue)>,
    /// The tensors; the first of a name is the one that counts.
    pub tensors: Vec<TensorInfo>,
}

/// The value of the first entry of `entries` with this key.
pub open spec fn first_value(entries: Seq<(String, GgufValue)>, key: Seq<char>) -> Option<GgufValue>
    decreases entries.len(),
{
    if entries.len() == 0 {
        None
    } else if entries[0].0@ == key {
        Some(entries[0].1)
    } else {
        first_value(entries.skip(1), key)
    }
}

/// The first of `tensors` with this name.
pub open spec fn first_tensor(tensors: Seq<TensorInfo>, name: Seq<char>) -> Option<TensorInfo>
    decreases tensors.len(),
{
    if tensors.len() == 0 {
        None
    } else if tensors[0].name@ == name {
        Some(tensors[0])
    } else {
        first_tensor(tensors.skip(1), name)
    }
}

impl GgufFile {
    /// The value under `key`.
    pub open spec fn meta(&self, key: Seq<char>) -> Option<GgufValue> {
        first_value(self.metadata@, key)
    }

    /// The unsigned integer under `key`.
    pub open spec fn meta_u64(&self, key: Seq<char>) -> Option<u64> {
        match self.meta(key) {
            Some(v) => v.unsigned(),
            None => None,
        }
    }

    /// The bit pattern of the 32-bit float under `key`.
    pub open spec fn meta_f32(&self, key: Seq<char>) -> Option<u32> {
        match self.meta(key) {
            Some(GgufValue::F32 { bits, .. }) => Some(bits),
            _ => None,
        }
    }

    /// The writing of the 32-bit float under `key`.
    pub open spec fn meta_f32_text(&self, key: Seq<char>) -> Option<Seq<char>> {
        match self.meta(key) {
            Some(GgufValue::F32 { text, .. }) => Some(text@),
            _ => None,
        }
    }

    /// The truth value under `key`.
    pub open spec fn meta_bool(&self, key: Seq<char>) -> Option<bool> {
        match self.meta(key) {
            Some(v) => v.truth(),
            None => None,
        }
    }

    /// The string under `key`.
    pub open spec fn meta_str(&self, key: Seq<char>) -> Option<Seq<char>> {
        match self.meta(key) {
            Some(GgufValue::String(s)) => Some(s@),
            _ => None,
        }
    }

    /// The tensor called `name`.
    pub open spec fn tensor(&self, name: Seq<char>) -> Option<TensorInfo> {
        first_tensor(self.tensors@, name)
    }

    /// Whether the file has a tensor called `name`.
    pub open spec fn has(&self, name: Seq<char>) -> bool {
        self.tensor(name) is Some
    }

    /// Whether every tensor carries as many elements as its dimensions
    /// say.
    pub open spec fn complete(&self) -> bool {
        forall|i: int| 0 <= i < self.tensors@.len() ==> (#[trigger] self.tensors@[i]).complete()
    }

    /// Whether every tensor carries as many elements as its dimensions
    /// say.
    pub fn is_complete(&self) -> (yes: bool)
        ensures
            yes == self.complete(),
    {
        let mut i: usize = 0;
        while i < self.tensors.len()
            invariant
                i <= self.tensors@.len(),
                forall|j: int| 0 <= j < i ==> (#[trigger] self.tensors@[j]).complete(),
            decreases self.tensors@.len() - i,
        {
            if !self.tensors[i].is_complete() {
                return false;
            }
            i += 1;
        }
        true
    }

    /// The value under `key`.
    pub fn metadata(&self, key: &str) -> (v: Option<&GgufValue>)
        ensures
            v is Some <==> self.meta(key@) is Some,
            v is Some ==> *v->0 == self.meta(key@)->0,
    {
        let mut i: usize = 0;
        assert(self.metadata@.skip(0) =~= self.metadata@);
        while i < self.metadata.len()
            invariant
                i <= self.metadata@.len(),
                self.meta(key@) == first_value(self.metadata@.skip(i as int), key@),
            decreases self.metadata@.len() - i,
        {
            assert(self.metadata@.skip(i as int).skip(1) =~= self.metadata@.skip(i + 1));
            if str_eq(self.metadata[i].0.as_str(), key) {
                return Some(&self.metadata[i].1);
            }
            i += 1;
        }
        None
    }

    /// The unsigned integer under `key`.
    pub fn metadata_u64(&self, key: &str) -> (n: Option<u64>)
        ensures
            n == self.meta_u64(key@),
    {
        match self.metadata(key) {
            Some(v) => v.as_u64(),
            None => None,
        }
    }

    /// The bit pattern of the 32-bit float under `key`.
    pub fn metadata_f32(&self, key: &str) -> (bits: Option<u32>)
        ensures
            bits == self.meta_f32(key@),
    {
        match self.metadata(key) {
            Some(GgufValue::F32 { bits, .. }) => Some(*bits),
            _ => None,
        }
    }

    /// The 32-bit float under `key`: its bit pattern, and its writing.
    pub fn metadata_float(&self, key: &str) -> (found: Option<(u32, &str)>)
        ensures
            match found {
                Some((bits, text)) => self.meta_f32(key@) == Some(bits) && self.meta_f32_text(key@)
                    == Some(text@),
                None => self.meta_f32(key@) is None,
            },
    {
        match self.metadata(key) {
            Some(GgufValue::F32 { bits, text }) => Some((*bits, text.as_str())),
            _ => None,
        }
    }

    /// The truth value under `key`.
    pub fn metadata_bool(&self, key: &str) -> (b: Option<bool>)
        ensures
            b == self.meta_bool(key@),
    {
        match self.metadata(key) {
            Some(v) => v.as_bool(),
            None => None,
        }
    }

    /// The string under `key`.
    pub fn metadata_str(&self, key: &str) -> (s: Option<&str>)
        ensures
            s is Some <==> self.meta_str(key@) is Some,
            s is Some ==> s->0@ == self.meta_str(key@)->0,
    {
        match self.metadata(key) {
            Some(GgufValue::String(s)) => Some(s.as_str()),
            _ => None,
        }
    }

    /// The tensor called `name`.
    pub fn find_tensor(&self, name: &str) -> (t: Option<&TensorInfo>)
        ensures
            t is Some <==> self.tensor(name@) is Some,
            t is Some ==> *t->0 == self.tensor(name@)->0,
            t is Some && self.complete() ==> t->0.complete(),
    {
        let mut i: usize = 0;
        assert(self.tensors@.skip(0) =~= self.tensors@);
        while i < self.tensors.len()
            invariant
                i <= self.tensors@.len(),
                self.tensor(name@) == first_tensor(self.tensors@.skip(i as int), name@),
            decreases self.tensors@.len() - i,
        {
            assert(self.tensors@.skip(i as int).skip(1) =~= self.tensors@.skip(i + 1));
            if str_eq(self.tensors[i].name.as_str(), name) {
                return Some(&self.tensors[i]);
            }
            i += 1;
        }
        None
    }

    /// Whether the file has a tensor called `name`.
    pub fn has_tensor(&self, name: &str) -> (yes: bool)
        ensures
            yes == self.has(name@),
    {
        self.find_tensor(name).is_some()
    }

    /// The unsigned integer under `key`, which the file must hold.
    pub fn required_u64(&self, key: &str) -> (n: Result<u64, LoadError>)
        ensures
            n is Ok <==> self.meta_u64(key@) is Some,
            n is Ok ==> n->Ok_0 == self.meta_u64(key@)->0,
            n is Err ==> n->Err_0@ == LoadFault::MissingHparam(key@),
    {
        match self.metadata_u64(key) {
            Some(n) => Ok(n),
            None => Err(LoadError::MissingHparam(String::from_str(key))),
        }
    }

    /// The string under `key`, which the file must hold.
    pub fn required_str(&self, key: &str) -> (s: Result<&str, LoadError>)
        ensures
            s is Ok <==> self.meta_str(key@) is Some,
            s is Ok ==> s->Ok_0@ == self.meta_str(key@)->0,
            s is Err ==> s->Err_0@ == LoadFault::MissingHparam(key@),
    {
        match self.metadata_str(key) {
            Some(s) => Ok(s),
            None => Err(LoadError::MissingHparam(String::from_str(key))),
        }
    }

    /// The tensor called `name`, which the file must hold.
    pub fn required_tensor(&self, name: &str) -> (t: Result<&TensorInfo, LoadError>)
        ensures
            t is Ok <==> self.has(name@),
            t is Ok ==> *t->Ok_0 == self.tensor(name@)->0,
            t is Ok && self.complete() ==> t->Ok_0.complete(),
            t is Err ==> t->Err_0@ == LoadFault::TensorNotFound(name@),
    {
        match self.find_tensor(name) {
            Some(t) => Ok(t),
            None => Err(LoadError::Gguf(GgufError::TensorNotFound(String::from_str(name)))),
        }
    }
    /// The unsigned integer under `key`, or `default` where there is
    /// none.
    pub fn usize_or(&self, key: &str, default: usize) -> (n: usize)
        ensures
            n == u64_or(self.meta_u64(key@), default as int),
    {
        match self.metadata_u64(key) {
            Some(n) => n as usize,
            None => default,
        }
    }

    /// The bit pattern of the float under `key`, or `default` where
    /// there is none.
    pub fn bits_or(&self, key: &str, default: u32) -> (bits: u32)
        ensures
            bits == f32_or(self.meta_f32(key@), default),
    {
        match self.metadata_f32(key) {
            Some(bits) => bits,
            None => default,
        }
    }
}

/// The tensor a file finds under a name is one of its own.
pub proof fn first_tensor_is_a_tensor(tensors: Seq<TensorInfo>, name: Seq<char>)
    ensures
        first_tensor(tensors, name) is Some ==> exists|i: int|
            0 <= i < tensors.len() && #[trigger] tensors[i] == first_tensor(tensors, name)->0
                && tensors[i].name@ == name,
        first_tensor(tensors, name) is None ==> forall|i: int|
            0 <= i < tensors.len() ==> (#[trigger] tensors[i]).name@ != name,
    decreases tensors.len(),
{
    if tensors.len() > 0 && tensors[0].name@ != name {
        first_tensor_is_a_tensor(tensors.skip(1), name);
        let rest = tensors.skip(1);
        if first_tensor(rest, name) is Some {
            let i = choose|i: int|
                0 <= i < rest.len() && #[trigger] rest[i] == first_tensor(rest, name)->0
                    && rest[i].name@ == name;
            assert(tensors[i + 1] == rest[i]);
        } else {
            assert forall|i: int| 0 <= i < tensors.len() implies (#[trigger] tensors[i]).name@
                != name by {
                if i > 0 {
                    assert(tensors[i] == rest[i - 1]);
                }
            }
        }
    }
}

/// Of several entries under one key the first counts, whatever stands
/// behind it; a key that no entry has gives nothing.
pub proof fn the_first_entry_of_a_key_counts(file: GgufFile, key: Seq<char>, i: int)
    ensures
        0 <= i < file.metadata@.len() && file.metadata@[i].0@ == key && (forall|j: int|
            0 <= j < i ==> (#[trigger] file.metadata@[j]).0@ != key) ==> file.meta(key) == Some(
            file.metadata@[i].1,
        ),
        (forall|j: int| 0 <= j < file.metadata@.len() ==> (#[trigger] file.metadata@[j]).0@ != key)
            ==> file.meta(key) is None,
{
    first_entry(file.metadata@, key, i);
}

proof fn first_entry(entries: Seq<(String, GgufValue)>, key: Seq<char>, i: int)
    ensures
        0 <= i < entries.len() && entries[i].0@ == key && (forall|j: int|
            0 <= j < i ==> (#[trigger] entries[j]).0@ != key) ==> first_value(entries, key) == Some(
            entries[i].1,
        ),
        (forall|j: int| 0 <= j < entries.len() ==> (#[trigger] entries[j]).0@ != key)
            ==> first_value(entries, key) is None,
    decreases entries.len(),
{
    if entries.len() > 0 && entries[0].0@ != key {
        let rest = entries.skip(1);
        first_entry(rest, key, i - 1);
        assert forall|j: int| 0 <= j < rest.len() implies #[trigger] rest[j] == entries[j + 1] by {}
        if forall|j: int| 0 <= j < entries.len() ==> (#[trigger] entries[j]).0@ != key {
            assert forall|j: int| 0 <= j < rest.len() implies (#[trigger] rest[j]).0@ != key by {
                assert(rest[j] == entries[j + 1]);
            }
        }
        if 0 < i < entries.len() && entries[i].0@ == key && (forall|j: int|
            0 <= j < i ==> (#[trigger] entries[j]).0@ != key) {
            assert forall|j: int| 0 <= j < i - 1 implies (#[trigger] rest[j]).0@ != key by {
                assert(rest[j] == entries[j + 1]);
            }
            assert(rest[i - 1] == entries[i]);
        }
    }
}

/// Of several tensors of one name the first counts, whatever stands
/// behind it; a name that no tensor has gives nothing.
pub proof fn the_first_tensor_of_a_name_counts(file: GgufFile, name: Seq<char>, i: int)
    ensures
        0 <= i < file.tensors@.len() && file.tensors@[i].name@ == name && (forall|j: int|
            0 <= j < i ==> (#[trigger] file.tensors@[j]).name@ != name) ==> file.tensor(name)
            == Some(file.tensors@[i]),
        file.has(name) <==> exists|j: int|
            0 <= j < file.tensors@.len() && (#[trigger] file.tensors@[j]).name@ == name,
{
    first_of_name(file.tensors@, name, i);
    first_tensor_is_a_tensor(file.tensors@, name);
}

proof fn first_of_name(tensors: Seq<TensorInfo>, name: Seq<char>, i: int)
    ensures
        0 <= i < tensors.len() && tensors[i].name@ == name && (forall|j: int|
            0 <= j < i ==> (#[trigger] tensors[j]).name@ != name) ==> first_tensor(tensors, name)
            == Some(tensors[i]),
    decreases tensors.len(),
{
    if tensors.len() > 0 && tensors[0].name@ != name {
        let rest = tensors.skip(1);
        first_of_name(rest, name, i - 1);
        if 0 < i < tensors.len() && tensors[i].name@ == name && (forall|j: int|
            0 <= j < i ==> (#[trigger] tensors[j]).name@ != name) {
            assert forall|j: int| 0 <= j < i - 1 implies (#[trigger] rest[j]).name@ != name by {
                assert(rest[j] == tensors[j + 1]);
            }
            assert(rest[i - 1] == tensors[i]);
        }
    }
}

/// An integer reads as the number it is, whatever its width, and a
/// negative one as none; no other value reads as a number, and only a
/// truth value reads as one.
pub proof fn only_counts_read_as_counts(v: GgufValue, n: int)
    ensures
        v matches GgufValue::U8(x) ==> v.unsigned() is Some && v.unsigned()->0 == x,
        v matches GgufValue::U16(x) ==> v.unsigned() is Some && v.unsigned()->0 == x,
        v matches GgufValue::U32(x) ==> v.unsigned() is Some && v.unsigned()->0 == x,
        v matches GgufValue::U64(x) ==> v.unsigned() is Some && v.unsigned()->0 == x,
        v matches GgufValue::I8(x) ==> if x < 0 {
            v.unsigned() is None
        } else {
            v.unsigned() is Some && v.unsigned()->0 == x
        },
        v matches GgufValue::I16(x) ==> if x < 0 {
            v.unsigned() is None
        } else {
            v.unsigned() is Some && v.unsigned()->0 == x
        },
        v matches GgufValue::I32(x) ==> if x < 0 {
            v.unsigned() is None
        } else {
            v.unsigned() is Some && v.unsigned()->0 == x
        },
        v matches GgufValue::I64(x) ==> if x < 0 {
            v.unsigned() is None
        } else {
            v.unsigned() is Some && v.unsigned()->0 == x
        },
        v is F32 || v is F64 || v is Bool || v is String || v is Array ==> v.unsigned() is None,
        v matches GgufValue::Bool(b) ==> v.truth() == Some(b),
        !(v is Bool) ==> v.truth() is None,
{
}

/// A key reads as what its value is: as a number, a float, a truth value
/// or a string only where the value is one, and a required one is missing
/// exactly where it does not read as a number.
pub proof fn a_key_reads_as_its_value(file: GgufFile, key: Seq<char>)
    ensures
        file.meta(key) is None ==> file.meta_u64(key) is None && file.meta_f32(key) is None
            && file.meta_bool(key) is None && file.meta_str(key) is None,
        file.meta(key) matches Some(v) ==> {
            &&& file.meta_u64(key) == v.unsigned()
            &&& file.meta_bool(key) == v.truth()
            &&& v matches GgufValue::F32 { bits, text } ==> file.meta_f32(key) == Some(bits)
                && file.meta_f32_text(key) == Some(text@)
            &&& !(v is F32) ==> file.meta_f32(key) is None
            &&& v matches GgufValue::String(s) ==> file.meta_str(key) == Some(s@)
            &&& !(v is String) ==> file.meta_str(key) is None
        },
        missing_u64(file, key) is None <==> file.meta_u64(key) is Some,
        missing_u64(file, key) is Some ==> missing_u64(file, key)->0 == LoadFault::MissingHparam(
            key,
        ),
        forall|a: u64, d: usize| #[trigger] u64_or(Some(a), d as int) == a as usize,
        forall|d: usize| #[trigger] u64_or(None, d as int) == d,
        forall|a: u32, d: u32| #[trigger] f32_or(Some(a), d) == a,
        forall|d: u32| #[trigger] f32_or(None, d) == d,
{
}

/// The floats that stand where a file declares none, by their bits: one
/// millionth, ten thousand, one hundred-thousandth and one million. Zero
/// has two patterns, one for each sign, and no other float is zero.
pub proof fn the_floats_that_stand_where_none_is_declared(bits: u32, a: usize, b: usize)
    ensures
        EPS_1E_6 == 0x3586_37bd,
        THETA_1E4 == 0x461c_4000,
        EPS_1E_5 == 0x3727_c5ac,
        THETA_1E6 == 0x4974_2400,
        nonzero_float(bits) <==> bits != 0 && bits != 0x8000_0000,
        smaller(a, b) <= a && smaller(a, b) <= b && (smaller(a, b) == a || smaller(a, b) == b),
        larger(a, b) >= a && larger(a, b) >= b && (larger(a, b) == a || larger(a, b) == b),
{
}

} // verus!
