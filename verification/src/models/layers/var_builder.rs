//! The weight directory: names below module paths, shapes and target types.
//!
//! A weight file lists its tensors with the innermost dimension first. The
//! rules here resolve a name, hold the requested shape against the listed one
//! and say in which type the weight goes to the card.

use super::shape::{copy_dims, reversed, same_dims};
use super::tensor::{GgmlDType, HostTensorBoxed};
use crate::dtype::Dtype;
use crate::f16c;
use crate::text;
use std::sync::Arc;
use vstd::prelude::*;

verus! {

/// A tensor as its weight file lists it: the innermost dimension first.
pub struct TensorEntry {
    pub name: String,
    pub shape: Vec<usize>,
    pub dtype: GgmlDType,
}

/// A view into a weight directory below a module path.
pub struct VarBuilderX {
    pub path: String,
    /// Whether the weights come from a quantized single file.
    pub is_gguf: bool,
    /// The listed tensors; none without an opened file.
    pub gguf: Option<Arc<Vec<TensorEntry>>>,
    /// Whether a device pool takes the loaded weights.
    pub has_pool: bool,
}

/// Why a weight cannot be loaded.
#[derive(Debug)]
pub enum WeightError {
    /// No quantized single file is open.
    NotGguf,
    /// The directory does not list the name.
    Missing { name: String },
    /// The listed shape is another one.
    ShapeMismatch { name: String },
    /// No device pool was given.
    NoPool,
    /// Weights are not loaded in this type.
    DtypeClosed { dtype: Dtype },
}

/// A weight to decode: which entry, and its shape outermost dimension first.
pub struct WeightPlan {
    pub index: usize,
    pub dtype: GgmlDType,
    pub shape: Vec<usize>,
}

/// The first entry with this name.
pub open spec fn entry_of(entries: Seq<TensorEntry>, name: Seq<char>) -> Option<int>
    decreases entries.len(),
{
    if entries.len() == 0 {
        None
    } else {
        match entry_of(entries.drop_last(), name) {
            Some(i) => Some(i),
            None => if entries.last().name@ == name {
                Some(entries.len() - 1)
            } else {
                None
            },
        }
    }
}

/// Finds the first entry with this name.
pub fn find_entry(entries: &Vec<TensorEntry>, name: &str) -> (r: Option<usize>)
    ensures
        match r {
            Some(i) => entry_of(entries@, name@) == Some(i as int) && i < entries@.len(),
            None => entry_of(entries@, name@) is None,
        },
{
    let n: usize = entries.len();
    let mut i: usize = 0;
    assert(entries@.take(0) =~= Seq::empty());
    while i < n
        invariant
            i <= n,
            n == entries@.len(),
            entry_of(entries@.take(i as int), name@) is None,
        decreases n - i,
    {
        assert(entries@.take(i as int + 1).drop_last() =~= entries@.take(i as int));
        if text::same_text(entries[i].name.as_str(), name) {
            proof {
                lemma_entry_stays(entries@, name@, i as int + 1);
            }
            return Some(i);
        }
        i += 1;
    }
    assert(entries@.take(n as int) =~= entries@);
    None
}

proof fn lemma_entry_stays(entries: Seq<TensorEntry>, name: Seq<char>, n: int)
    requires
        0 <= n <= entries.len(),
        entry_of(entries.take(n), name) is Some,
    ensures
        entry_of(entries, name) == entry_of(entries.take(n), name),
    decreases entries.len(),
{
    if n < entries.len() {
        assert(entries.drop_last().take(n) =~= entries.take(n));
        lemma_entry_stays(entries.drop_last(), name, n);
    } else {
        assert(entries.take(n) =~= entries);
    }
}

/// A module of a weight directory.
#[verifier::ext_equal]
pub struct ModuleAt {
    pub path: Seq<char>,
    pub is_gguf: bool,
    pub gguf: Option<Arc<Vec<TensorEntry>>>,
    pub has_pool: bool,
}

impl ModuleAt {
    /// The full name of `name` in this module.
    pub open spec fn name_of(&self, name: Seq<char>) -> Seq<char> {
        text::dotted(self.path, name)
    }

    /// The module `name` in this module.
    pub open spec fn below(&self, name: Seq<char>) -> ModuleAt {
        ModuleAt { path: self.name_of(name), ..*self }
    }

    /// Whether a full name is listed.
    pub open spec fn lists_full(&self, full: Seq<char>) -> bool {
        match self.gguf {
            Some(entries) => entry_of(entries@, full) is Some,
            None => false,
        }
    }

    /// Whether `name` is listed in this module.
    pub open spec fn lists(&self, name: Seq<char>) -> bool {
        self.lists_full(self.name_of(name))
    }
}

impl View for VarBuilderX {
    type V = ModuleAt;

    open spec fn view(&self) -> ModuleAt {
        ModuleAt {
            path: self.path@,
            is_gguf: self.is_gguf,
            gguf: self.gguf,
            has_pool: self.has_pool,
        }
    }
}

impl VarBuilderX {
    /// The full name of `name` below this path.
    pub open spec fn name_of(&self, name: Seq<char>) -> Seq<char> {
        self@.name_of(name)
    }

    /// Whether a full name is listed.
    pub open spec fn lists_full(&self, full: Seq<char>) -> bool {
        self@.lists_full(full)
    }

    /// Whether `name` is listed below this path.
    pub open spec fn lists(&self, name: Seq<char>) -> bool {
        self@.lists(name)
    }

    /// The listed shape of `name`, outermost dimension first.
    pub open spec fn shape_of(&self, name: Seq<char>) -> Option<Seq<usize>> {
        match self.gguf {
            Some(entries) => match entry_of(entries@, self.name_of(name)) {
                Some(i) => Some(entries@[i].shape@.reverse()),
                None => None,
            },
            None => None,
        }
    }

    pub fn is_gguf(&self) -> (r: bool)
        ensures
            r == self.is_gguf,
    {
        self.is_gguf
    }

    pub fn is_var_builder(&self) -> (r: bool)
        ensures
            r == !self.is_gguf,
    {
        !self.is_gguf
    }

    pub fn is_qvar_builder(&self) -> (r: bool)
        ensures
            r == self.is_gguf,
    {
        self.is_gguf
    }

    pub fn path(&self) -> (r: &str)
        ensures
            r@ == self.path@,
    {
        self.path.as_str()
    }

    /// The same directory, one module deeper.
    pub fn pp(&self, name: &str) -> (r: VarBuilderX)
        ensures
            r@ == self@.below(name@),
            r.path@ == text::dotted(self.path@, name@),
            r.is_gguf == self.is_gguf,
            r.gguf == self.gguf,
            r.has_pool == self.has_pool,
    {
        let gguf: Option<Arc<Vec<TensorEntry>>> = match &self.gguf {
            Some(entries) => Some(entries.clone()),
            None => None,
        };
        VarBuilderX {
            path: text::join_path(self.path.as_str(), name),
            is_gguf: self.is_gguf,
            gguf,
            has_pool: self.has_pool,
        }
    }

    /// The same directory, at the module `path`.
    pub fn at(&self, path: &str) -> (r: VarBuilderX)
        ensures
            r.path@ == path@,
            r.is_gguf == self.is_gguf,
            r.gguf == self.gguf,
            r.has_pool == self.has_pool,
    {
        let gguf: Option<Arc<Vec<TensorEntry>>> = match &self.gguf {
            Some(entries) => Some(entries.clone()),
            None => None,
        };
        VarBuilderX { path: text::copy(path), is_gguf: self.is_gguf, gguf, has_pool: self.has_pool }
    }

    /// The full name of `name` below this path.
    pub fn full_name(&self, name: &str) -> (r: String)
        ensures
            r@ == self.name_of(name@),
    {
        text::join_path(self.path.as_str(), name)
    }

    /// Whether the directory lists `name` below this path.
    pub fn has_key(&self, name: &str) -> (r: bool)
        ensures
            r == self.lists(name@),
    {
        match &self.gguf {
            Some(entries) => {
                let full: String = self.full_name(name);
                find_entry(entries, full.as_str()).is_some()
            },
            None => false,
        }
    }

    /// Whether the directory lists `name` below this path.
    pub fn contains_tensor(&self, name: &str) -> (r: bool)
        ensures
            r == self.lists(name@),
    {
        self.has_key(name)
    }

    /// The listed shape of `name`, outermost dimension first.
    pub fn tensor_shape(&self, name: &str) -> (r: Option<Vec<usize>>)
        ensures
            match r {
                Some(s) => self.shape_of(name@) == Some(s@),
                None => self.shape_of(name@) is None,
            },
    {
        match &self.gguf {
            Some(entries) => {
                let full: String = self.full_name(name);
                match find_entry(entries, full.as_str()) {
                    Some(i) => Some(reversed(entries[i].shape.as_slice())),
                    None => None,
                }
            },
            None => None,
        }
    }

    /// What [`VarBuilderX::plan_get`] answers.
    pub open spec fn planned(&self, shape: Seq<usize>, name: Seq<char>, r: Result<
        WeightPlan,
        WeightError,
    >) -> bool {
        let full = self.name_of(name);
        match self.gguf {
            None => r matches Err(WeightError::NotGguf),
            Some(entries) => match entry_of(entries@, full) {
                None => r matches Err(WeightError::Missing { name: n }) && n@ == full,
                Some(i) => if entries@[i].shape@ == shape.reverse() {
                    r matches Ok(p) && p.index == i && p.dtype == entries@[i].dtype && p.shape@
                        == shape
                } else {
                    r matches Err(WeightError::ShapeMismatch { name: n }) && n@ == full
                },
            },
        }
    }

    /// The weight `name` with the requested shape, outermost dimension first.
    pub fn plan_get(&self, shape: &[usize], name: &str) -> (r: Result<WeightPlan, WeightError>)
        ensures
            self.planned(shape@, name@, r),
    {
        let entries: &Arc<Vec<TensorEntry>> = match &self.gguf {
            Some(entries) => entries,
            None => {
                return Err(WeightError::NotGguf);
            },
        };
        let full: String = self.full_name(name);
        let i: usize = match find_entry(entries, full.as_str()) {
            Some(i) => i,
            None => {
                return Err(WeightError::Missing { name: full });
            },
        };
        let want: Vec<usize> = reversed(shape);
        if !same_dims(entries[i].shape.as_slice(), want.as_slice()) {
            return Err(WeightError::ShapeMismatch { name: full });
        }
        Ok(WeightPlan { index: i, dtype: entries[i].dtype, shape: copy_dims(shape) })
    }

    /// The weight `name` in its listed shape.
    pub fn plan_get_no_shape(&self, name: &str) -> (r: Result<WeightPlan, WeightError>)
        ensures
            match self.shape_of(name@) {
                Some(s) => self.planned(s, name@, r),
                None => r matches Err(WeightError::Missing { name: n }) && n@ == self.name_of(
                    name@,
                ),
            },
    {
        match self.tensor_shape(name) {
            Some(s) => self.plan_get(s.as_slice(), name),
            None => Err(WeightError::Missing { name: self.full_name(name) }),
        }
    }
}

/// Decoded weights in the type that goes to the card.
pub enum WeightData {
    F32(Vec<u32>),
    BF16(Vec<u16>),
    F16(Vec<u16>),
}

/// The little endian words of whole groups of four bytes.
pub open spec fn word_at(bytes: Seq<u8>, i: int) -> int {
    bytes[4 * i] + 0x100 * bytes[4 * i + 1] + 0x1_0000 * bytes[4 * i + 2] + 0x100_0000 * bytes[4
        * i + 3]
}

/// Bytes to little endian words; up to three last bytes are dropped.
pub fn words_of_bytes(bytes: &[u8]) -> (r: Vec<u32>)
    ensures
        r@.len() == bytes@.len() / 4,
        forall|i: int| 0 <= i < r@.len() ==> #[trigger] r@[i] == word_at(bytes@, i),
{
    let total: usize = bytes.len();
    let n: usize = total / 4;
    let mut r: Vec<u32> = Vec::with_capacity(n);
    let mut i: usize = 0;
    while i < n
        invariant
            i <= n,
            n == total / 4,
            total == bytes@.len(),
            r@.len() == i,
            forall|j: int| 0 <= j < i ==> #[trigger] r@[j] == word_at(bytes@, j),
        decreases n - i,
    {
        let w: u32 = bytes[4 * i] as u32 + 0x100 * (bytes[4 * i + 1] as u32) + 0x1_0000 * (bytes[4
            * i + 2] as u32) + 0x100_0000 * (bytes[4 * i + 3] as u32);
        r.push(w);
        i += 1;
    }
    r
}

/// Words to little endian bytes.
pub fn bytes_of_words(words: &[u32]) -> (r: Vec<u8>)
    ensures
        r@.len() == 4 * words@.len(),
        forall|i: int| 0 <= i < words@.len() ==> #[trigger] word_at(r@, i) == words@[i],
{
    let n: usize = words.len();
    let mut r: Vec<u8> = Vec::new();
    let mut i: usize = 0;
    while i < n
        invariant
            i <= n,
            n == words@.len(),
            r@.len() == 4 * i,
            forall|j: int| 0 <= j < i ==> #[trigger] word_at(r@, j) == words@[j],
        decreases n - i,
    {
        let ghost before = r@;
        let w: u32 = words[i];
        r.push((w % 0x100) as u8);
        r.push((w / 0x100 % 0x100) as u8);
        r.push((w / 0x1_0000 % 0x100) as u8);
        r.push((w / 0x100_0000) as u8);
        proof {
            assert forall|j: int| 0 <= j < i implies #[trigger] word_at(r@, j) == words@[j] by {
                assert(word_at(before, j) == word_at(r@, j));
            }
            assert(word_at(r@, i as int) == w);
        }
        i += 1;
    }
    r
}

/// Singles in the target type of a load. Other types than the three floating
/// ones are not loaded as weights.
pub fn convert_weights(singles: Vec<u32>, has_pool: bool, dtype: Dtype) -> (r: Result<
    WeightData,
    WeightError,
>)
    requires
        has_pool && dtype == Dtype::BF16 ==> forall|i: int|
            0 <= i < singles@.len() ==> (#[trigger] singles@[i]) + 0x7fff + (singles@[i] as int
                / 0x1_0000) % 2 <= u32::MAX,
    ensures
        !has_pool ==> r matches Err(WeightError::NoPool),
        has_pool && dtype == Dtype::F32 ==> (r matches Ok(WeightData::F32(v)) && v == singles),
        has_pool && dtype == Dtype::BF16 ==> (r matches Ok(WeightData::BF16(v)) && v@.len()
            == singles@.len() && forall|i: int|
            0 <= i < v@.len() ==> #[trigger] v@[i] == f16c::round_half_even(
                singles@[i] as int,
                0x1_0000,
            )),
        has_pool && dtype == Dtype::F16 ==> (r matches Ok(WeightData::F16(v)) && v@.len()
            == singles@.len() && forall|i: int|
            0 <= i < v@.len() ==> #[trigger] v@[i] == f16c::half_of_single_quiet(singles@[i])),
        has_pool && dtype != Dtype::F32 && dtype != Dtype::BF16 && dtype != Dtype::F16 ==> (
        r matches Err(WeightError::DtypeClosed { dtype: d }) && d == dtype),
{
    if !has_pool {
        return Err(WeightError::NoPool);
    }
    let n: usize = singles.len();
    match dtype {
        Dtype::F32 => Ok(WeightData::F32(singles)),
        Dtype::BF16 => {
            let mut v: Vec<u16> = Vec::with_capacity(n);
            let mut i: usize = 0;
            while i < n
                invariant
                    i <= n,
                    n == singles@.len(),
                    v@.len() == i,
                    forall|j: int|
                        0 <= j < n ==> (#[trigger] singles@[j]) + 0x7fff + (singles@[j] as int
                            / 0x1_0000) % 2 <= u32::MAX,
                    forall|j: int|
                        0 <= j < i ==> #[trigger] v@[j] == f16c::round_half_even(
                            singles@[j] as int,
                            0x1_0000,
                        ),
                decreases n - i,
            {
                v.push(f16c::f32_to_bf16_bits(singles[i]));
                i += 1;
            }
            Ok(WeightData::BF16(v))
        },
        Dtype::F16 => {
            let mut v: Vec<u16> = Vec::with_capacity(n);
            let mut i: usize = 0;
            while i < n
                invariant
                    i <= n,
                    n == singles@.len(),
                    v@.len() == i,
                    forall|j: int|
                        0 <= j < i ==> #[trigger] v@[j] == f16c::half_of_single_quiet(singles@[j]),
                decreases n - i,
            {
                v.push(f16c::f32_to_f16_bits(singles[i]));
                i += 1;
            }
            Ok(WeightData::F16(v))
        },
        _ => Err(WeightError::DtypeClosed { dtype }),
    }
}

impl WeightPlan {
    /// The singles of a weight that is stored as such. Any other type has to be
    /// decoded first.
    pub fn stored_singles(&self, raw: &[u8]) -> (r: Option<Vec<u32>>)
        ensures
            match r {
                Some(v) => self.dtype == GgmlDType::F32 && v@.len() == raw@.len() / 4 && forall|
                    i: int,
                |
                    0 <= i < v@.len() ==> #[trigger] v@[i] == word_at(raw@, i),
                None => self.dtype != GgmlDType::F32,
            },
    {
        if self.dtype == GgmlDType::F32 {
            Some(words_of_bytes(raw))
        } else {
            None
        }
    }

    /// The decoded weight, kept on the host in little endian singles.
    pub fn on_host(self, singles: &[u32]) -> (r: HostTensorBoxed)
        ensures
            r.shape@ == self.shape@,
            r.data@.len() == 4 * singles@.len(),
            forall|i: int| 0 <= i < singles@.len() ==> #[trigger] word_at(r.data@, i) == singles@[i],
    {
        HostTensorBoxed { shape: self.shape, data: bytes_of_words(singles) }
    }
}

/// A weight that is stored in singles is kept on the host byte by byte.
pub proof fn law_stored_singles_stay(raw: Seq<u8>, singles: Seq<u32>, data: Seq<u8>)
    requires
        raw.len() % 4 == 0,
        singles.len() == raw.len() / 4,
        forall|i: int| 0 <= i < singles.len() ==> #[trigger] singles[i] == word_at(raw, i),
        data.len() == 4 * singles.len(),
        forall|i: int| 0 <= i < singles.len() ==> #[trigger] word_at(data, i) == singles[i],
    ensures
        data == raw,
{
    assert forall|b: int| 0 <= b < raw.len() implies data[b] == raw[b] by {
        let i = b / 4;
        assert(0 <= i < singles.len());
        assert(word_at(data, i) == word_at(raw, i));
        lemma_word_bytes(data, raw, i);
    }
    assert(data =~= raw);
}

proof fn lemma_word_bytes(a: Seq<u8>, b: Seq<u8>, i: int)
    requires
        0 <= i,
        word_at(a, i) == word_at(b, i),
    ensures
        a[4 * i] == b[4 * i],
        a[4 * i + 1] == b[4 * i + 1],
        a[4 * i + 2] == b[4 * i + 2],
        a[4 * i + 3] == b[4 * i + 3],
{
    lemma_lowest_byte(
        a[4 * i] as int,
        b[4 * i] as int,
        a[4 * i + 1] + 0x100 * a[4 * i + 2] + 0x1_0000 * a[4 * i + 3],
        b[4 * i + 1] + 0x100 * b[4 * i + 2] + 0x1_0000 * b[4 * i + 3],
    );
    lemma_lowest_byte(
        a[4 * i + 1] as int,
        b[4 * i + 1] as int,
        a[4 * i + 2] + 0x100 * a[4 * i + 3],
        b[4 * i + 2] + 0x100 * b[4 * i + 3],
    );
    lemma_lowest_byte(
        a[4 * i + 2] as int,
        b[4 * i + 2] as int,
        a[4 * i + 3] as int,
        b[4 * i + 3] as int,
    );
}

proof fn lemma_lowest_byte(a: int, b: int, x: int, y: int)
    requires
        0 <= a < 0x100,
        0 <= b < 0x100,
        a + 0x100 * x == b + 0x100 * y,
    ensures
        a == b,
        x == y,
{
}

/// Where a key is found: under its own name, or under the name of the quantized
/// single file.
pub struct KeyMap<'a> {
    pub pairs: Vec<(&'a str, &'a str)>,
}

impl<'a> KeyMap<'a> {
    /// The name under which `key` is found. Of two pairs with one key the later
    /// one counts.
    pub open spec fn lookup(&self, key: Seq<char>) -> Option<Seq<char>> {
        lookup_in(self.pairs@, key)
    }

    /// The name under which `key` is found.
    pub fn get(&self, key: &str) -> (r: Option<&'a str>)
        ensures
            match r {
                Some(s) => self.lookup(key@) == Some(s@),
                None => self.lookup(key@) is None,
            },
    {
        let mut i: usize = self.pairs.len();
        assert(self.pairs@.take(i as int) =~= self.pairs@);
        while i > 0
            invariant
                i <= self.pairs@.len(),
                lookup_in(self.pairs@.take(i as int), key@) == self.lookup(key@),
            decreases i,
        {
            assert(self.pairs@.take(i as int).drop_last() =~= self.pairs@.take(i - 1));
            i -= 1;
            if text::same_text(self.pairs[i].0, key) {
                return Some(self.pairs[i].1);
            }
        }
        assert(self.pairs@.take(0) =~= Seq::empty());
        None
    }
}

/// The value of the last pair with this key.
pub open spec fn lookup_in<'a>(pairs: Seq<(&'a str, &'a str)>, key: Seq<char>) -> Option<
    Seq<char>,
>
    decreases pairs.len(),
{
    if pairs.len() == 0 {
        None
    } else if pairs.last().0@ == key {
        Some(pairs.last().1@)
    } else {
        lookup_in(pairs.drop_last(), key)
    }
}

/// Maps keys to their names in a quantized single file, or to themselves.
pub fn collect_key_map<'a, const N: usize>(
    is_qvar_builder: bool,
    pairs: [(&'a str, &'a str); N],
) -> (r: KeyMap<'a>)
    ensures
        r.pairs@.len() == N,
        forall|i: int|
            0 <= i < N ==> (#[trigger] r.pairs@[i]).0 == pairs@[i].0 && r.pairs@[i].1 == (
            if is_qvar_builder {
                pairs@[i].1
            } else {
                pairs@[i].0
            }),
{
    let mut v: Vec<(&'a str, &'a str)> = Vec::new();
    let mut i: usize = 0;
    while i < N
        invariant
            i <= N,
            v@.len() == i,
            forall|j: int|
                0 <= j < i ==> (#[trigger] v@[j]).0 == pairs@[j].0 && v@[j].1 == (
                if is_qvar_builder {
                    pairs@[j].1
                } else {
                    pairs@[j].0
                }),
        decreases N - i,
    {
        let p: (&'a str, &'a str) = pairs[i];
        if is_qvar_builder {
            v.push((p.0, p.1));
        } else {
            v.push((p.0, p.0));
        }
        i += 1;
    }
    KeyMap { pairs: v }
}

} // verus!
