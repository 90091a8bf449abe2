//! Laws of the host side: texts, weight files, half precision, graphs and runners.

use crate::dtype::Dtype;
use crate::f16c;
use crate::graph::{self, GraphAllowance, GraphError, GraphGovernor, GraphPhase, GraphProfile};
use crate::models::layers::tensor::HostTensorBoxed;
use crate::models::layers::var_builder::{
    self, KeyMap, TensorEntry, VarBuilderX, WeightData, WeightError, WeightPlan,
};
use crate::runner::{
    self, AckState, BroadcastError, DecodeGraphRunner, InitAck, NcclId, NcclIdError, NotCaptured,
    Reply, RunnerFailed, SerializableDType,
};
use crate::text;
use crate::transfer::{PdMethod, PdRole};
use std::sync::Arc;
use vstd::prelude::*;

verus! {

// ---- Texts ----

/// Texts are the same exactly where they are character by character; a copy is, and a
/// joined text is the first one with the second behind it.
pub proof fn law_texts_are_joined(a: &str, b: &str, same: bool, c: String, j: String)
    requires
        call_ensures(text::same_text, (a, b), same),
        call_ensures(text::copy, (a,), c),
        call_ensures(text::concat, (a, b), j),
    ensures
        same <==> a@.len() == b@.len() && forall|i: int|
            0 <= i < a@.len() ==> #[trigger] a@[i] == b@[i],
        c@ == a@,
        j@.len() == a@.len() + b@.len(),
        forall|i: int| 0 <= i < a@.len() ==> #[trigger] j@[i] == a@[i],
        forall|i: int| 0 <= i < b@.len() ==> j@[a@.len() + i] == #[trigger] b@[i],
{
    if a@.len() == b@.len() && (forall|i: int| 0 <= i < a@.len() ==> #[trigger] a@[i] == b@[i]) {
        assert(a@ =~= b@);
    }
}

/// A name below a path stands behind a dot; below no path it stands alone.
pub proof fn law_paths_are_dotted(path: &str, name: &str, r: String)
    requires
        call_ensures(text::join_path, (path, name), r),
    ensures
        path@.len() == 0 ==> r@ == name@,
        path@.len() > 0 ==> {
            &&& r@.len() == path@.len() + 1 + name@.len()
            &&& r@.take(path@.len() as int) == path@
            &&& r@[path@.len() as int] == '.'
            &&& r@.skip(path@.len() as int + 1) == name@
        },
{
    if path@.len() > 0 {
        assert(r@.take(path@.len() as int) =~= path@);
        assert(r@.skip(path@.len() as int + 1) =~= name@);
    }
}

/// The value of a text of digits.
pub open spec fn digits_value(s: Seq<char>) -> int
    decreases s.len(),
{
    if s.len() == 0 {
        0
    } else {
        10 * digits_value(s.drop_last()) + (s.last() as int - '0' as int)
    }
}

proof fn lemma_decimal(n: nat)
    ensures
        digits_value(text::decimal_text(n)) == n,
        text::decimal_text(n).len() > 0,
        forall|i: int|
            0 <= i < text::decimal_text(n).len() ==> '0' <= #[trigger] text::decimal_text(n)[i]
                <= '9',
        n > 0 ==> text::decimal_text(n)[0] != '0',
        n < 10 ==> text::decimal_text(n).len() == 1,
    decreases n,
{
    let d = (n % 10) as int;
    assert(text::digit_chars()[d] as int == '0' as int + d) by {
        assert(d == 0 || d == 1 || d == 2 || d == 3 || d == 4 || d == 5 || d == 6 || d == 7 || d
            == 8 || d == 9);
    }
    let s = text::decimal_text(n);
    if n < 10 {
        assert(s.drop_last() =~= Seq::<char>::empty());
        assert(digits_value(s.drop_last()) == 0);
    } else {
        lemma_decimal(n / 10);
        let t = text::decimal_text(n / 10);
        assert(s.drop_last() =~= t);
        assert forall|i: int| 0 <= i < s.len() implies '0' <= #[trigger] s[i] <= '9' by {
            if i < t.len() {
                assert(s[i] == t[i]);
            }
        }
        assert(s[0] == t[0]);
    }
}

/// A number is written in digits that have its value, without zeros in front.
pub proof fn law_numbers_are_written_in_digits(n: usize, r: String)
    requires
        call_ensures(text::decimal, (n,), r),
    ensures
        r@.len() > 0,
        digits_value(r@) == n,
        forall|i: int| 0 <= i < r@.len() ==> '0' <= #[trigger] r@[i] <= '9',
        r@.len() > 1 ==> r@[0] != '0',
{
    lemma_decimal(n as nat);
}

/// Texts are compared letter by letter, upper and lower case alike.
pub proof fn law_case_is_ignored(a: &str, b: &str, r: bool, q: bool)
    requires
        call_ensures(text::eq_ignore_ascii_case, (a, b), r),
        call_ensures(text::eq_ignore_ascii_case, (b, a), q),
    ensures
        r == q,
        a@ == b@ ==> r,
        r <==> a@.len() == b@.len() && forall|i: int|
            0 <= i < a@.len() ==> {
                let (x, y) = (#[trigger] a@[i], b@[i]);
                ||| x == y
                ||| 'A' <= x <= 'Z' && y as int == x as int + 32
                ||| 'A' <= y <= 'Z' && x as int == y as int + 32
            },
{
    if r {
        assert forall|i: int| 0 <= i < a@.len() implies ({
            let (x, y) = (#[trigger] a@[i], b@[i]);
            ||| x == y
            ||| 'A' <= x <= 'Z' && y as int == x as int + 32
            ||| 'A' <= y <= 'Z' && x as int == y as int + 32
        }) by {
            assert(text::ascii_lower(a@[i]) == text::ascii_lower(b@[i]));
        }
        assert forall|i: int| 0 <= i < b@.len() implies text::ascii_lower(#[trigger] b@[i])
            == text::ascii_lower(a@[i]) by {
            assert(text::ascii_lower(a@[i]) == text::ascii_lower(b@[i]));
        }
    }
    if q {
        assert forall|i: int| 0 <= i < a@.len() implies text::ascii_lower(#[trigger] a@[i])
            == text::ascii_lower(b@[i]) by {
            assert(text::ascii_lower(b@[i]) == text::ascii_lower(a@[i]));
        }
    }
}

// ---- Weight files ----

proof fn lemma_entry_of(e: Seq<TensorEntry>, name: Seq<char>)
    ensures
        var_builder::entry_of(e, name) matches Some(i) ==> 0 <= i < e.len() && e[i].name@ == name
            && forall|j: int| 0 <= j < i ==> (#[trigger] e[j]).name@ != name,
        var_builder::entry_of(e, name) is None ==> forall|j: int|
            0 <= j < e.len() ==> (#[trigger] e[j]).name@ != name,
    decreases e.len(),
{
    if e.len() > 0 {
        let s = e.drop_last();
        lemma_entry_of(s, name);
        assert(forall|j: int| 0 <= j < s.len() ==> s[j] == #[trigger] e[j]);
    }
}

/// An entry is found by its name, the first one where several have it.
pub proof fn law_entries_are_found_by_name(
    e: Vec<TensorEntry>,
    name: &str,
    r: Option<usize>,
    j: int,
)
    requires
        call_ensures(var_builder::find_entry, (&e, name), r),
        0 <= j < e@.len(),
    ensures
        r matches Some(i) ==> i < e@.len() && e@[i as int].name@ == name@ && (j < i
            ==> e@[j].name@ != name@),
        r is None ==> e@[j].name@ != name@,
{
    lemma_entry_of(e@, name@);
}

/// A module is a path: going below it joins the name, going elsewhere replaces the path,
/// and both keep the file.
pub proof fn law_modules_are_paths(
    vb: VarBuilderX,
    name: &str,
    below: VarBuilderX,
    there: VarBuilderX,
    full: String,
    joined: String,
    path: &str,
)
    requires
        call_ensures(VarBuilderX::path, (&vb,), path),
        call_ensures(VarBuilderX::pp, (&vb, name), below),
        call_ensures(VarBuilderX::at, (&vb, name), there),
        call_ensures(VarBuilderX::full_name, (&vb, name), full),
        call_ensures(text::join_path, (path, name), joined),
    ensures
        path@ == vb.path@,
        below.path@ == joined@ && full@ == joined@ && there.path@ == name@,
        below.is_gguf == vb.is_gguf && below.gguf == vb.gguf && below.has_pool == vb.has_pool,
        there.is_gguf == vb.is_gguf && there.gguf == vb.gguf && there.has_pool == vb.has_pool,
{
}

/// The kind of a file.
pub proof fn law_files_are_of_one_kind(vb: VarBuilderX, g: bool, v: bool, q: bool)
    requires
        call_ensures(VarBuilderX::is_gguf, (&vb,), g),
        call_ensures(VarBuilderX::is_var_builder, (&vb,), v),
        call_ensures(VarBuilderX::is_qvar_builder, (&vb,), q),
    ensures
        g == vb.is_gguf && q == g && v == !g,
{
}

/// A tensor is there exactly where the file lists its full name, and then its shape is
/// the listed one from the last dimension to the first.
pub proof fn law_tensors_are_listed(
    vb: VarBuilderX,
    name: &str,
    has_it: bool,
    contains: bool,
    shape: Option<Vec<usize>>,
    full: String,
    view: &str,
    entries: Vec<TensorEntry>,
    at: Option<usize>,
)
    requires
        call_ensures(VarBuilderX::has_key, (&vb, name), has_it),
        call_ensures(VarBuilderX::contains_tensor, (&vb, name), contains),
        call_ensures(VarBuilderX::tensor_shape, (&vb, name), shape),
        call_ensures(VarBuilderX::full_name, (&vb, name), full),
        view@ == full@,
        vb.gguf matches Some(g) ==> *g == entries,
        call_ensures(var_builder::find_entry, (&entries, view), at),
    ensures
        has_it == (vb.gguf is Some && at is Some),
        contains == has_it,
        shape is Some == has_it,
        shape matches Some(s) ==> {
            let listed = entries@[at->Some_0 as int].shape@;
            &&& s@.len() == listed.len()
            &&& forall|d: int|
                0 <= d < s@.len() ==> #[trigger] s@[d] == listed[listed.len() - 1 - d]
        },
{
}

/// A weight is planned where it is listed with the shape that is asked for, reversed; the
/// plan names its entry. Asking without a shape takes the one that is listed.
pub proof fn law_weights_are_planned(
    vb: VarBuilderX,
    shape: &[usize],
    name: &str,
    r: Result<WeightPlan, WeightError>,
    q: Result<WeightPlan, WeightError>,
    full: String,
    view: &str,
    entries: Vec<TensorEntry>,
    at: Option<usize>,
)
    requires
        call_ensures(VarBuilderX::plan_get, (&vb, shape, name), r),
        call_ensures(VarBuilderX::plan_get_no_shape, (&vb, name), q),
        call_ensures(VarBuilderX::full_name, (&vb, name), full),
        view@ == full@,
        vb.gguf matches Some(g) ==> *g == entries,
        call_ensures(var_builder::find_entry, (&entries, view), at),
    ensures
        vb.gguf is None ==> r is Err && r->Err_0 is NotGguf,
        vb.gguf is Some && at is None ==> (r matches Err(WeightError::Missing { name: n }) && n@
            == full@),
        vb.gguf is Some ==> (at matches Some(i) ==> {
            let e = entries@[i as int];
            &&& r is Ok == (e.shape@ == shape@.reverse())
            &&& r matches Ok(p) ==> p.index == i && p.dtype == e.dtype && p.shape@ == shape@
            &&& r is Err ==> (r->Err_0 matches WeightError::ShapeMismatch { name: n } && n@
                == full@)
        }),
        q is Ok == (vb.gguf is Some && at is Some),
        q matches Ok(p) ==> {
            let e = entries@[at->Some_0 as int];
            &&& p.index == at->Some_0 && p.dtype == e.dtype
            &&& p.shape@.len() == e.shape@.len()
            &&& forall|d: int|
                0 <= d < p.shape@.len() ==> #[trigger] p.shape@[d] == e.shape@[e.shape@.len() - 1
                    - d]
        },
        q matches Err(e) ==> (e matches WeightError::Missing { name: n } && n@ == full@),
{
    if vb.gguf is Some && at is Some {
        let listed = entries@[at->Some_0 as int].shape@;
        assert(listed.reverse().reverse() =~= listed);
    }
}

/// Words are four bytes, the lowest first, and bytes made of words are read as the same
/// words.
pub proof fn law_words_are_four_bytes(
    bytes: &[u8],
    words: Vec<u32>,
    view: &[u32],
    back: Vec<u8>,
    i: int,
)
    requires
        call_ensures(var_builder::words_of_bytes, (bytes,), words),
        view@ == words@,
        call_ensures(var_builder::bytes_of_words, (view,), back),
        0 <= i < words@.len(),
    ensures
        4 * words@.len() <= bytes@.len() < 4 * words@.len() + 4,
        words@[i] == bytes@[4 * i] + 256 * bytes@[4 * i + 1] + 65536 * bytes@[4 * i + 2] + 16777216
            * bytes@[4 * i + 3],
        back@.len() == 4 * words@.len(),
        back@[4 * i] == bytes@[4 * i] && back@[4 * i + 1] == bytes@[4 * i + 1] && back@[4 * i + 2]
            == bytes@[4 * i + 2] && back@[4 * i + 3] == bytes@[4 * i + 3],
{
    assert(var_builder::word_at(back@, i) == words@[i]);
    assert(words@[i] == var_builder::word_at(bytes@, i));
}

/// Weights stay singles, or are rounded each for itself to one of the half types. Other
/// types are closed, and so are all without a pool.
pub proof fn law_weights_are_converted(
    singles: Vec<u32>,
    pool: bool,
    dtype: Dtype,
    r: Result<WeightData, WeightError>,
    i: int,
    half: u16,
    brain: u16,
)
    requires
        call_ensures(var_builder::convert_weights, (singles, pool, dtype), r),
        0 <= i < singles@.len(),
        call_ensures(f16c::f32_to_f16_bits, (singles@[i],), half),
        call_ensures(f16c::f32_to_bf16_bits, (singles@[i],), brain),
    ensures
        !pool ==> r is Err && r->Err_0 is NoPool,
        pool ==> r is Ok == (dtype is F32 || dtype is BF16 || dtype is F16),
        pool && dtype is F32 ==> (r->Ok_0 matches WeightData::F32(v) && v@ == singles@),
        pool && dtype is F16 ==> (r->Ok_0 matches WeightData::F16(v) && v@.len() == singles@.len()
            && v@[i] == half),
        pool && dtype is BF16 ==> (r->Ok_0 matches WeightData::BF16(v) && v@.len()
            == singles@.len() && v@[i] == brain),
        pool && r is Err ==> (r->Err_0 matches WeightError::DtypeClosed { dtype: d } && d == dtype),
{
}

/// Stored singles are read as words, other types are not; singles on the host have the
/// shape of their plan and their own bytes.
pub proof fn law_stored_singles_reach_the_host(
    p: WeightPlan,
    raw: &[u8],
    r: Option<Vec<u32>>,
    words: Vec<u32>,
    view: &[u32],
    host: HostTensorBoxed,
    bytes: Vec<u8>,
    i: int,
)
    requires
        call_ensures(WeightPlan::stored_singles, (&p, raw), r),
        call_ensures(var_builder::words_of_bytes, (raw,), words),
        call_ensures(WeightPlan::on_host, (p, view), host),
        0 <= i < view@.len(),
    ensures
        r is Some == (p.dtype is F32),
        r matches Some(v) ==> v@ == words@,
        host.shape@ == p.shape@,
        host.data@.len() == 4 * view@.len(),
        host.data@[4 * i] + 256 * host.data@[4 * i + 1] + 65536 * host.data@[4 * i + 2] + 16777216
            * host.data@[4 * i + 3] == view@[i],
{
    assert(var_builder::word_at(host.data@, i) == view@[i]);
    if r is Some {
        assert(r->Some_0@ =~= words@);
    }
}

proof fn lemma_lookup<'a>(pairs: Seq<(&'a str, &'a str)>, key: Seq<char>)
    ensures
        var_builder::lookup_in(pairs, key) matches Some(v) ==> exists|i: int|
            0 <= i < pairs.len() && (#[trigger] pairs[i]).0@ == key && pairs[i].1@ == v && forall|
                j: int,
            |
                i < j < pairs.len() ==> (#[trigger] pairs[j]).0@ != key,
        var_builder::lookup_in(pairs, key) is None ==> forall|i: int|
            0 <= i < pairs.len() ==> (#[trigger] pairs[i]).0@ != key,
    decreases pairs.len(),
{
    if pairs.len() > 0 {
        let s = pairs.drop_last();
        lemma_lookup(s, key);
        assert(forall|j: int| 0 <= j < s.len() ==> s[j] == #[trigger] pairs[j]);
        if pairs.last().0@ == key {
            let i = pairs.len() - 1;
            assert(pairs[i].0@ == key);
        } else if var_builder::lookup_in(s, key) is Some {
            let v = var_builder::lookup_in(s, key)->Some_0;
            let i = choose|i: int|
                0 <= i < s.len() && (#[trigger] s[i]).0@ == key && s[i].1@ == v && forall|j: int|
                    i < j < s.len() ==> (#[trigger] s[j]).0@ != key;
            assert(pairs[i].0@ == key && pairs[i].1@ == v);
            assert forall|j: int| i < j < pairs.len() implies (#[trigger] pairs[j]).0@ != key by {
                if j < s.len() {
                    assert(s[j].0@ != key);
                }
            }
        }
    }
}

/// A key is looked up by its name, the last one where several have it.
pub proof fn law_keys_are_looked_up<'a>(m: KeyMap<'a>, key: &str, r: Option<&'a str>, j: int)
    requires
        call_ensures(KeyMap::<'a>::get, (&m, key), r),
        0 <= j < m.pairs@.len(),
    ensures
        r is None ==> m.pairs@[j].0@ != key@,
        r matches Some(v) ==> exists|i: int|
            0 <= i < m.pairs@.len() && (#[trigger] m.pairs@[i]).0@ == key@ && m.pairs@[i].1@ == v@
                && (j > i ==> m.pairs@[j].0@ != key@),
{
    lemma_lookup(m.pairs@, key@);
}

/// Keys are mapped to the second name in single files and to themselves else.
pub proof fn law_key_maps_follow_the_file<'a, const N: usize>(
    qvar: bool,
    pairs: [(&'a str, &'a str); N],
    r: KeyMap<'a>,
    i: int,
)
    requires
        call_ensures(var_builder::collect_key_map::<N>, (qvar, pairs), r),
        0 <= i < N,
    ensures
        r.pairs@.len() == N,
        r.pairs@[i].0@ == pairs@[i].0@,
        qvar ==> r.pairs@[i].1@ == pairs@[i].1@,
        !qvar ==> r.pairs@[i].1@ == pairs@[i].0@,
{
    let _ = r.pairs@[i];
}

// ---- Half precision ----

/// A half is the nearest to its single, the even one of two that are as near; the sign is
/// kept apart, and a NaN stays a quiet NaN.
pub proof fn law_halves_are_nearest(v: u32, h: u16, q: u16)
    requires
        call_ensures(f16c::half_bits, (v,), h),
        call_ensures(f16c::f32_to_f16_bits, (v,), q),
    ensures
        ({
            let a = v as int % 0x8000_0000;
            &&& a < 0x7f80_0000 ==> f16c::is_nearest_half(a, h as int % 0x8000)
            &&& a == 0x7f80_0000 ==> h as int % 0x8000 == 0x7c00
            &&& a > 0x7f80_0000 ==> h as int % 0x8000 >= 0x7e00 && q as int % 0x8000 == 0x7e00
            &&& h as int / 0x8000 == v as int / 0x8000_0000
            &&& q as int / 0x8000 == v as int / 0x8000_0000
            &&& a <= 0x7f80_0000 ==> q == h
        }),
{
    let a = v as int % 0x8000_0000;
    if a < 0x7f80_0000 {
        f16c::law_half_is_nearest(a);
    }
    if a <= 0x7f80_0000 {
        lemma_half_in_range(a);
    }
}

proof fn lemma_half_in_range(a: int)
    requires
        0 <= a <= 0x7f80_0000,
    ensures
        0 <= f16c::half_magnitude(a) <= 0x7c00,
        a == 0x7f80_0000 ==> f16c::half_magnitude(a) == 0x7c00,
{
    let e = a / 0x80_0000 - 112;
    let m = a % 0x80_0000 + 0x80_0000;
    if 1 <= e < 31 {
        let q = m / 8192;
        assert(1024 <= q < 2048);
    } else if -10 <= e < 1 {
        let d = vstd::arithmetic::power2::pow2((14 - e) as nat) as int;
        vstd::arithmetic::power2::lemma2_to64();
        if e < 0 {
            vstd::arithmetic::power2::lemma_pow2_strictly_increases(14, (14 - e) as nat);
        }
        assert(d >= 0x4000);
        assert(0 <= m / d && m / d < 1024) by (nonlinear_arith)
            requires
                d >= 0x4000,
                0 <= m < 0x100_0000,
        ;
    }
}

/// The other half type keeps the upper bits of a single, rounded to the nearest, the even
/// one of two that are as near.
pub proof fn law_brain_halves_are_nearest(v: u32, h: u16)
    requires
        call_ensures(f16c::f32_to_bf16_bits, (v,), h),
        v + 0x7fff + (v as int / 0x1_0000) % 2 <= u32::MAX,
    ensures
        -0x8000 <= v - h * 0x1_0000 <= 0x8000,
        v - h * 0x1_0000 == 0x8000 || v - h * 0x1_0000 == -0x8000 ==> h as int % 2 == 0,
{
}

/// Halves of bytes are converted pair by pair, and the rest stays.
pub proof fn law_half_bytes_are_converted(
    src: &[u8],
    dst: &mut [u8],
    i: int,
    single: u32,
    h: u16,
)
    requires
        call_ensures(f16c::bf16_bytes_to_f16_bytes, (src, dst), ()),
        0 <= i < src@.len() / 2,
        single == (src@[2 * i] + 256 * src@[2 * i + 1]) * 0x1_0000,
        call_ensures(f16c::half_bits, (single,), h),
    ensures
        final(dst)@.len() == old(dst)@.len(),
        final(dst)@[2 * i] + 256 * final(dst)@[2 * i + 1] == h,
        forall|x: int|
            src@.len() <= x < final(dst)@.len() ==> #[trigger] final(dst)@[x] == old(dst)@[x],
{
    let p = f16c::pair_at(src@, i);
    assert((p * 0x1_0000) as u32 == single);
    let _ = f16c::pair_at(final(dst)@, i);
}

/// Singles are converted to the two bytes of their half, the lower one first.
pub proof fn law_singles_become_half_bytes(src: &[u32], dst: &mut [u8], i: int, h: u16)
    requires
        call_ensures(f16c::f32_slice_to_f16_bytes, (src, dst), ()),
        0 <= i < src@.len(),
        call_ensures(f16c::half_bits, (src@[i],), h),
    ensures
        final(dst)@.len() == old(dst)@.len(),
        final(dst)@[2 * i] + 256 * final(dst)@[2 * i + 1] == h,
        forall|x: int|
            2 * src@.len() <= x < final(dst)@.len() ==> #[trigger] final(dst)@[x] == old(dst)@[x],
{
    let _ = f16c::pair_at(final(dst)@, i);
}

// ---- Graphs ----

/// The allowance is what decoding and verifying need together, and at most what can be
/// counted; what is free beyond it is left.
pub proof fn law_allowances_are_kept_free(
    a: GraphAllowance,
    total: u64,
    g: GraphGovernor,
    free: u64,
    r: u64,
)
    requires
        call_ensures(GraphAllowance::total, (&a,), total),
        g@.allowance == a,
        call_ensures(GraphGovernor::reserve_from, (&g, free), r),
    ensures
        a.decode_bytes + a.verify_bytes <= u64::MAX ==> total == a.decode_bytes + a.verify_bytes,
        a.decode_bytes + a.verify_bytes > u64::MAX ==> total == u64::MAX,
        free >= total ==> r + total == free,
        free < total ==> r == 0,
{
}

/// A governor starts idle, without live graphs, with its allowance and its profiles.
pub proof fn law_governors_start_idle(
    a: GraphAllowance,
    p: Vec<GraphProfile>,
    g: GraphGovernor,
    phase: GraphPhase,
    allowance: &GraphAllowance,
)
    requires
        call_ensures(GraphGovernor::new, (a, p), g),
        call_ensures(GraphGovernor::phase, (&g,), phase),
        call_ensures(GraphGovernor::allowance, (&g,), allowance),
    ensures
        phase is Idle && *allowance == a && g@.profiles == p@ && g@.live_graphs == 0,
{
}

/// A capture begins only while idle, ends only while capturing, and graphs are destroyed
/// only while not capturing. What is refused changes nothing.
pub proof fn law_captures_take_their_turn(
    b: &mut GraphGovernor,
    rb: Result<(), GraphError>,
    e: &mut GraphGovernor,
    p: GraphProfile,
    re: Result<(), GraphError>,
    d: &mut GraphGovernor,
    rd: Result<GraphPhase, GraphError>,
)
    requires
        call_ensures(GraphGovernor::begin_capture, (b,), rb),
        call_ensures(GraphGovernor::end_capture, (e, p), re),
        call_ensures(GraphGovernor::destroy_all, (d,), rd),
    ensures
        rb is Ok == (old(b)@.phase is Idle),
        rb is Ok ==> final(b)@.phase is Capturing,
        re is Ok == (old(e)@.phase is Capturing),
        re is Ok ==> final(e)@.phase is Live && final(e)@.live_graphs == 1,
        rd is Ok == !(old(d)@.phase is Capturing),
        rd is Ok ==> final(d)@.phase is Idle && final(d)@.live_graphs == 0 && rd->Ok_0 is Idle,
        rb is Err ==> final(b)@ == old(b)@,
        re is Err ==> final(e)@ == old(e)@,
        rd is Err ==> final(d)@ == old(d)@,
        final(b)@.profiles == old(b)@.profiles && final(b)@.allowance == old(b)@.allowance,
        final(e)@.profiles == old(e)@.profiles && final(e)@.allowance == old(e)@.allowance,
        final(d)@.profiles == old(d)@.profiles && final(d)@.allowance == old(d)@.allowance,
        rb matches Err(x) ==> (x matches GraphError::IllegalTransition { from, op, .. } && from
            == old(b)@.phase && op@ == "begin_capture"@),
        re matches Err(x) ==> (x matches GraphError::IllegalTransition { from, op, .. } && from
            == old(e)@.phase && op@ == "end_capture"@),
        rd matches Err(x) ==> (x matches GraphError::IllegalTransition { from, op, .. } && from
            is Capturing && op@ == "destroy_all"@),
{
}

/// The profiles of an answer; none where it degrades.
pub open spec fn kept_profiles(r: Result<Vec<GraphProfile>, GraphError>) -> Seq<GraphProfile> {
    match r {
        Ok(list) => list@,
        Err(_) => Seq::empty(),
    }
}

/// Profiles are taken from the last: it is kept where it fits, the others from what it
/// leaves, and where it does not fit the others are kept from all that is free.
pub proof fn law_last_profiles_come_first(
    g: GraphGovernor,
    costs: Vec<u64>,
    free: u64,
    r: Result<Vec<GraphProfile>, GraphError>,
    before: GraphGovernor,
    fewer: Vec<u64>,
    left: u64,
    q: Result<Vec<GraphProfile>, GraphError>,
)
    requires
        g@.profiles.len() > 1,
        costs@.len() == g@.profiles.len(),
        call_ensures(GraphGovernor::preflight_costs, (&g, free, &costs), r),
        before@.profiles == g@.profiles.drop_last(),
        fewer@ == costs@.drop_last(),
        left == if costs@.last() <= free {
            (free - costs@.last()) as u64
        } else {
            free
        },
        call_ensures(GraphGovernor::preflight_costs, (&before, left, &fewer), q),
    ensures
        costs@.last() <= free ==> kept_profiles(r) == kept_profiles(q).push(g@.profiles.last()),
        costs@.last() > free ==> kept_profiles(r) == kept_profiles(q),
{
    let kept = graph::kept_indices(costs@, free as int);
    let rest = graph::kept_indices(fewer@, left as int);
    graph::lemma_kept_in_range(fewer@, left as int);
    graph::lemma_kept_in_range(costs@, free as int);
    assert(kept_profiles(r) =~= graph::pick(g@.profiles, kept));
    assert(kept_profiles(q) =~= graph::pick(before@.profiles, rest));
    assert forall|x: int| 0 <= x < rest.len() implies #[trigger] before@.profiles[rest[x]]
        == g@.profiles[rest[x]] by {
        assert(0 <= rest[x] < fewer@.len());
    }
    if costs@.last() <= free {
        assert(kept == rest.push(costs@.len() - 1));
        assert(graph::pick(g@.profiles, kept) =~= graph::pick(before@.profiles, rest).push(
            g@.profiles.last(),
        ));
    } else {
        assert(graph::pick(g@.profiles, kept) =~= graph::pick(before@.profiles, rest));
    }
}

/// A single profile is kept where it fits. Where none fits the answer degrades, and tells
/// what is free and the least that one needs.
pub proof fn law_profiles_degrade_where_none_fits(
    g: GraphGovernor,
    costs: Vec<u64>,
    free: u64,
    r: Result<Vec<GraphProfile>, GraphError>,
)
    requires
        g@.profiles.len() > 0,
        costs@.len() == g@.profiles.len(),
        call_ensures(GraphGovernor::preflight_costs, (&g, free, &costs), r),
    ensures
        r is Err <==> forall|i: int| 0 <= i < costs@.len() ==> #[trigger] costs@[i] > free,
        r matches Err(e) ==> (e matches GraphError::DegradedToEager { free_bytes, needed }
            && free_bytes == free && costs@.contains(needed) && forall|i: int|
            0 <= i < costs@.len() ==> needed <= #[trigger] costs@[i]),
        g@.profiles.len() == 1 && costs@[0] <= free ==> (r matches Ok(list) && list@
            == seq![g@.profiles[0]]),
{
    graph::law_degrades_iff_nothing_fits(costs@, free as int);
    if g@.profiles.len() == 1 && costs@[0] <= free {
        let kept = graph::kept_indices(costs@, free as int);
        let none = costs@.drop_last();
        assert(none.len() == 0);
        assert(graph::kept_indices(none, free - costs@.last()) =~= Seq::<int>::empty());
        assert(kept =~= seq![0int]);
        assert((r->Ok_0)@ =~= seq![g@.profiles[0]]);
    }
}

/// Costs that are asked for decide as if they had been given.
pub proof fn law_asked_costs_decide<F: Fn(&GraphProfile) -> u64>(
    g: GraphGovernor,
    free: u64,
    f: F,
    r: Result<Vec<GraphProfile>, GraphError>,
)
    requires
        call_ensures(GraphGovernor::preflight::<F>, (&g, free, f), r),
    ensures
        exists|costs: Seq<u64>| #[trigger] graph::costs_of(f, g@.profiles, costs) && decide(
            g,
            free,
            costs,
            r,
        ),
{
    let costs = choose|costs: Seq<u64>| #[trigger]
        graph::costs_of(f, g@.profiles, costs) && graph::preflight_answer(
            g@.profiles,
            costs,
            free,
            r,
        );
    assert forall|given: Vec<u64>, q: Result<Vec<GraphProfile>, GraphError>|
        given@ == costs && #[trigger] call_ensures(
            GraphGovernor::preflight_costs,
            (&g, free, &given),
            q,
        ) implies q is Ok == r is Ok && kept_profiles(q) == kept_profiles(r) by {}
    assert(decide(g, free, costs, r));
}

/// Given costs give the same answer.
pub open spec fn decide(
    g: GraphGovernor,
    free: u64,
    costs: Seq<u64>,
    r: Result<Vec<GraphProfile>, GraphError>,
) -> bool {
    forall|given: Vec<u64>, q: Result<Vec<GraphProfile>, GraphError>|
        given@ == costs && #[trigger] call_ensures(
            GraphGovernor::preflight_costs,
            (&g, free, &given),
            q,
        ) ==> q is Ok == r is Ok && kept_profiles(q) == kept_profiles(r)
}

// ---- Runners ----

/// A type arrives as it was sent, and its number tells it from all others.
pub proof fn law_types_arrive(a: Dtype, s: SerializableDType, b: Dtype)
    requires
        call_ensures(SerializableDType::from_dtype, (a,), s),
        call_ensures(SerializableDType::to_dtype, (s,), b),
    ensures
        b == a,
        s is U8 == a is U8 && s is U32 == a is U32 && s is I64 == a is I64,
        s is BF16 == a is BF16 && s is F16 == a is F16 && s is F32 == a is F32,
        s is F8E8M0 == a is F8E8M0,
{
}

/// Types are numbered in order.
pub proof fn law_types_are_numbered(a: SerializableDType, b: SerializableDType, x: u8, y: u8)
    requires
        call_ensures(SerializableDType::number, (a,), x),
        call_ensures(SerializableDType::number, (b,), y),
    ensures
        x <= 8,
        x == y <==> a == b,
        a is U8 ==> x == 0,
        a is U32 ==> x == 1,
        a is I64 ==> x == 2,
        a is BF16 ==> x == 3,
        a is F16 ==> x == 4,
        a is F32 ==> x == 5,
        a is F64 ==> x == 6,
        a is F8E8M0 ==> x == 7,
{
}

/// A group identity is read back from its text.
pub proof fn law_identities_are_read_back(
    id: NcclId,
    t: String,
    view: &str,
    r: Result<NcclId, NcclIdError>,
)
    requires
        call_ensures(NcclId::to_text, (&id,), t),
        view@ == t@,
        call_ensures(NcclId::from_text, (view,), r),
    ensures
        r matches Ok(back) && back.0@ == id.0@,
{
    assert(runner::base64_text(id.0@) == view@);
    match r {
        Ok(back) => runner::law_base64_is_injective(back.0@, id.0@),
        Err(NcclIdError::NotBase64) => {},
        Err(NcclIdError::Length { got }) => {
            let b = choose|b: Seq<u8>| b.len() == got && #[trigger] runner::base64_text(b) == view@;
            runner::law_base64_is_injective(b, id.0@);
        },
    }
}

/// The value of a character of the text of an identity.
pub open spec fn character_value(c: char) -> int {
    if 'A' <= c <= 'Z' {
        c as int - 'A' as int
    } else if 'a' <= c <= 'z' {
        26 + (c as int - 'a' as int)
    } else if '0' <= c <= '9' {
        52 + (c as int - '0' as int)
    } else if c == '+' {
        62
    } else {
        63
    }
}

proof fn lemma_character(v: int)
    requires
        0 <= v < 64,
    ensures
        character_value(runner::base64_symbol(v)) == v,
{
}

/// Four characters of the text of an identity are three of its bytes, the first highest.
pub proof fn law_identities_are_written_in_characters(id: NcclId, t: String, g: int)
    requires
        call_ensures(NcclId::to_text, (&id,), t),
        0 <= g < 42,
    ensures
        t@.len() == 171,
        ({
            let v = |j: int| character_value(t@[4 * g + j]);
            let b = |j: int| id.0@[3 * g + j] as int;
            ((v(0) * 64 + v(1)) * 64 + v(2)) * 64 + v(3) == (b(0) * 256 + b(1)) * 256 + b(2)
        }),
{
    let s = id.0@;
    assert(s.len() == 128);
    let q = 3 * g;
    let (a, b, c) = (s[q] as int, s[q + 1] as int, s[q + 2] as int);
    lemma_group(g);
    assert(runner::sextet(s, 4 * g) == a / 4);
    assert(runner::sextet(s, 4 * g + 1) == a % 4 * 16 + b / 16);
    assert(runner::sextet(s, 4 * g + 2) == b % 16 * 4 + c / 64);
    assert(runner::sextet(s, 4 * g + 3) == c % 64);
    lemma_character(a / 4);
    lemma_character(a % 4 * 16 + b / 16);
    lemma_character(b % 16 * 4 + c / 64);
    lemma_character(c % 64);
}

proof fn lemma_group(g: int)
    ensures
        (4 * g) / 4 == g && (4 * g) % 4 == 0,
        (4 * g + 1) / 4 == g && (4 * g + 1) % 4 == 1,
        (4 * g + 2) / 4 == g && (4 * g + 2) % 4 == 2,
        (4 * g + 3) / 4 == g && (4 * g + 3) % 4 == 3,
{
}

/// An identity has 128 bytes and no other number.
pub proof fn law_identities_have_their_length(bytes: &[u8], r: Result<NcclId, NcclIdError>)
    requires
        call_ensures(NcclId::from_bytes, (bytes,), r),
    ensures
        r is Ok == (bytes@.len() == 128),
        r matches Ok(id) ==> id.0@ == bytes@,
        r matches Err(e) ==> (e matches NcclIdError::Length { got } && got == bytes@.len()),
{
    if r is Ok {
        assert((r->Ok_0).0@.len() == 128);
    }
    assert(bytes@.len() == bytes.len());
}

/// A frame is the length of its payload in four bytes, the lowest first, and the payload;
/// its header tells the length again.
pub proof fn law_frames_tell_their_length(
    payload: &[u8],
    r: Vec<u8>,
    header: [u8; 4],
    n: usize,
    i: int,
)
    requires
        payload@.len() <= u32::MAX,
        call_ensures(runner::frame, (payload,), r),
        header@ == r@.take(4),
        call_ensures(runner::frame_len, (header,), n),
        0 <= i < payload@.len(),
    ensures
        r@.len() == payload@.len() + 4,
        n == payload@.len(),
        r@[4 + i] == payload@[i],
        r@[0] + 256 * r@[1] + 65536 * r@[2] + 16777216 * r@[3] == payload@.len(),
{
    assert(r@.skip(4)[i] == payload@[i]);
    assert(header@[0] == r@[0] && header@[1] == r@[1] && header@[2] == r@[2] && header@[3]
        == r@[3]);
}

/// One byte acknowledges, any other is unexpected, and none is missing.
pub proof fn law_acknowledgements(read: Option<u8>, r: AckState)
    requires
        call_ensures(runner::ack_state, (read,), r),
    ensures
        r is Missing == read is None,
        r is Acknowledged == (read == Some(1u8)),
        r is Unexpected == (read is Some && read != Some(1u8)),
{
}

/// Only a good reply starts a runner; else its rank has failed.
pub proof fn law_runners_start_with_a_good_reply(
    reply: Option<InitAck>,
    rank: usize,
    r: Result<(), RunnerFailed>,
)
    requires
        call_ensures(runner::expect_ack, (reply, rank), r),
    ensures
        r is Ok == (reply is Some && reply->Some_0.ok),
        r matches Err(e) ==> e.rank == rank,
{
}

/// A value is agreed on exactly where there is one and all are the same.
pub proof fn law_values_are_agreed_on<T, F: Fn(&T, &T) -> bool>(
    values: Vec<T>,
    same: F,
    r: Result<T, BroadcastError>,
    i: int,
)
    requires
        call_ensures(runner::agreed_value::<T, F>, (values, same), r),
        0 <= i < values@.len(),
    ensures
        r matches Ok(v) ==> v == values@[i],
        r is Ok <==> forall|x: int, y: int|
            0 <= x < values@.len() && 0 <= y < values@.len() ==> #[trigger] values@[x]
                == #[trigger] values@[y],
        r matches Err(e) ==> e is Disagree,
{
}

/// No values agree on none.
pub proof fn law_no_values_agree_on_none<T, F: Fn(&T, &T) -> bool>(
    values: Vec<T>,
    same: F,
    r: Result<T, BroadcastError>,
)
    requires
        call_ensures(runner::agreed_value::<T, F>, (values, same), r),
    ensures
        r is Err && r->Err_0 is NoValues <==> values@.len() == 0,
{
}

proof fn lemma_first_failure<T>(replies: Seq<Reply<T>>, n: int)
    requires
        0 <= n <= replies.len(),
    ensures
        runner::first_failure(replies, n) matches Some(i) ==> 0 <= i < n && !(replies[i] is Value)
            && forall|j: int| 0 <= j < i ==> (#[trigger] replies[j]) is Value,
        runner::first_failure(replies, n) is None ==> forall|j: int|
            0 <= j < n ==> (#[trigger] replies[j]) is Value,
    decreases n,
{
    if n > 0 {
        lemma_first_failure(replies, n - 1);
    }
}

/// A master answers with its first local value, or with the first remote one where it has
/// none, but only where all remote replies are values; the first other one is told.
pub proof fn law_masters_answer_where_all_do<T>(
    local: Vec<T>,
    remote: Vec<Reply<T>>,
    r: Result<T, BroadcastError>,
    j: int,
)
    requires
        call_ensures(runner::master_value::<T>, (local, remote), r),
    ensures
        r is Ok ==> (0 <= j < remote@.len() ==> remote@[j] is Value),
        (forall|x: int| 0 <= x < remote@.len() ==> (#[trigger] remote@[x]) is Value) ==> {
            &&& local@.len() > 0 ==> r == Ok::<T, BroadcastError>(local@[0])
            &&& local@.len() == 0 && remote@.len() > 0 ==> (r matches Ok(v) && remote@[0]
                == Reply::Value(v))
            &&& local@.len() == 0 && remote@.len() == 0 ==> r is Err && r->Err_0 is NoValues
        },
        r matches Err(BroadcastError::Remote { at, error }) ==> at < remote@.len()
            && remote@[at as int] == Reply::<T>::Error(error) && (0 <= j < at ==> remote@[j]
            is Value),
        r matches Err(BroadcastError::Unexpected { at }) ==> at < remote@.len()
            && remote@[at as int] is Other && (0 <= j < at ==> remote@[j] is Value),
        r matches Err(e) ==> !(e is Disagree),
{
    assert(remote@.len() == remote.len());
    lemma_first_failure(remote@, remote@.len() as int);
}

/// A decode runner has a plan exactly where it was captured, runs a batch as large as its
/// frontier, and keeps its adapter.
pub proof fn law_decode_runners_need_a_capture<P, A>(
    plan: P,
    captured: bool,
    adapter: Arc<A>,
    d: DecodeGraphRunner<P, A>,
    frontier: &[u32],
    r: Result<(&P, usize), NotCaptured>,
    a: &Arc<A>,
)
    requires
        call_ensures(DecodeGraphRunner::<P, A>::from_capture, (plan, captured, adapter), d),
        call_ensures(DecodeGraphRunner::<P, A>::decode_step, (&d, frontier), r),
        call_ensures(DecodeGraphRunner::<P, A>::adapter, (&d,), a),
    ensures
        r is Ok == captured,
        r matches Ok((p, n)) ==> *p == plan && n == frontier@.len(),
        *a == adapter,
{
}

/// Roles and methods have their numbers.
pub proof fn law_roles_have_numbers(r: PdRole, m: PdMethod, x: u8, y: u8)
    requires
        call_ensures(PdRole::number, (r,), x),
        call_ensures(PdMethod::number, (m,), y),
    ensures
        r is Client ==> x == 1,
        r is Server ==> x == 2,
        m is LocalIpc ==> y == 1,
        m is RemoteTcp ==> y == 2,
{
}

} // verus!
