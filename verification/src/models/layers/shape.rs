//! Tensor shapes.

use vstd::prelude::*;

verus! {

/// A tensor shape, outermost dimension first.
#[derive(Debug)]
pub struct Shape(pub Vec<usize>);

/// A dimension beyond the rank of a shape.
#[derive(Debug, Clone, Copy, PartialEq, Eq, Structural)]
pub struct DimOutOfBounds {
    pub dim: usize,
}

impl View for Shape {
    type V = Seq<usize>;

    open spec fn view(&self) -> Seq<usize> {
        self.0@
    }
}

impl Default for Shape {
    fn default() -> (r: Self)
        ensures
            r@ == Seq::<usize>::empty(),
    {
        Shape(Vec::new())
    }
}

impl From<Vec<usize>> for Shape {
    fn from(s: Vec<usize>) -> (r: Self) {
        Shape(s)
    }
}

impl vstd::std_specs::convert::FromSpecImpl<Vec<usize>> for Shape {
    open spec fn obeys_from_spec() -> bool {
        true
    }

    open spec fn from_spec(s: Vec<usize>) -> Shape {
        Shape(s)
    }
}

impl From<usize> for Shape {
    fn from(s: usize) -> (r: Self)
        ensures
            r@ == seq![s],
    {
        let mut v: Vec<usize> = Vec::new();
        v.push(s);
        Shape(v)
    }
}

impl vstd::std_specs::convert::FromSpecImpl<usize> for Shape {
    open spec fn obeys_from_spec() -> bool {
        false
    }

    open spec fn from_spec(s: usize) -> Shape {
        arbitrary()
    }
}

impl From<(usize, usize)> for Shape {
    fn from(s: (usize, usize)) -> (r: Self)
        ensures
            r@ == seq![s.0, s.1],
    {
        let mut v: Vec<usize> = Vec::new();
        v.push(s.0);
        v.push(s.1);
        Shape(v)
    }
}

impl vstd::std_specs::convert::FromSpecImpl<(usize, usize)> for Shape {
    open spec fn obeys_from_spec() -> bool {
        false
    }

    open spec fn from_spec(s: (usize, usize)) -> Shape {
        arbitrary()
    }
}

impl<const N: usize> From<[usize; N]> for Shape {
    fn from(s: [usize; N]) -> (r: Self)
        ensures
            r@ == s@,
    {
        Shape::of(s.as_slice())
    }
}

impl<const N: usize> vstd::std_specs::convert::FromSpecImpl<[usize; N]> for Shape {
    open spec fn obeys_from_spec() -> bool {
        false
    }

    open spec fn from_spec(s: [usize; N]) -> Shape {
        arbitrary()
    }
}

impl From<&[usize]> for Shape {
    fn from(s: &[usize]) -> (r: Self)
        ensures
            r@ == s@,
    {
        Shape::of(s)
    }
}

impl vstd::std_specs::convert::FromSpecImpl<&[usize]> for Shape {
    open spec fn obeys_from_spec() -> bool {
        false
    }

    open spec fn from_spec(s: &[usize]) -> Shape {
        arbitrary()
    }
}

impl From<(usize,)> for Shape {
    fn from(s: (usize,)) -> (r: Self)
        ensures
            r@ == seq![s.0],
    {
        let mut v: Vec<usize> = Vec::new();
        v.push(s.0);
        Shape(v)
    }
}

impl vstd::std_specs::convert::FromSpecImpl<(usize,)> for Shape {
    open spec fn obeys_from_spec() -> bool {
        false
    }

    open spec fn from_spec(s: (usize,)) -> Shape {
        arbitrary()
    }
}

impl From<(usize, usize, usize)> for Shape {
    fn from(s: (usize, usize, usize)) -> (r: Self)
        ensures
            r@ == seq![s.0, s.1, s.2],
    {
        let mut v: Vec<usize> = Vec::new();
        v.push(s.0);
        v.push(s.1);
        v.push(s.2);
        Shape(v)
    }
}

impl vstd::std_specs::convert::FromSpecImpl<(usize, usize, usize)> for Shape {
    open spec fn obeys_from_spec() -> bool {
        false
    }

    open spec fn from_spec(s: (usize, usize, usize)) -> Shape {
        arbitrary()
    }
}

impl From<(usize, usize, usize, usize)> for Shape {
    fn from(s: (usize, usize, usize, usize)) -> (r: Self)
        ensures
            r@ == seq![s.0, s.1, s.2, s.3],
    {
        let mut v: Vec<usize> = Vec::new();
        v.push(s.0);
        v.push(s.1);
        v.push(s.2);
        v.push(s.3);
        Shape(v)
    }
}

impl vstd::std_specs::convert::FromSpecImpl<(usize, usize, usize, usize)> for Shape {
    open spec fn obeys_from_spec() -> bool {
        false
    }

    open spec fn from_spec(s: (usize, usize, usize, usize)) -> Shape {
        arbitrary()
    }
}

impl From<(usize, usize, usize, usize, usize)> for Shape {
    fn from(s: (usize, usize, usize, usize, usize)) -> (r: Self)
        ensures
            r@ == seq![s.0, s.1, s.2, s.3, s.4],
    {
        let mut v: Vec<usize> = Vec::new();
        v.push(s.0);
        v.push(s.1);
        v.push(s.2);
        v.push(s.3);
        v.push(s.4);
        Shape(v)
    }
}

impl vstd::std_specs::convert::FromSpecImpl<(usize, usize, usize, usize, usize)> for Shape {
    open spec fn obeys_from_spec() -> bool {
        false
    }

    open spec fn from_spec(s: (usize, usize, usize, usize, usize)) -> Shape {
        arbitrary()
    }
}

impl From<&Vec<usize>> for Shape {
    fn from(s: &Vec<usize>) -> (r: Self)
        ensures
            r@ == s@,
    {
        Shape::of(s.as_slice())
    }
}

impl vstd::std_specs::convert::FromSpecImpl<&Vec<usize>> for Shape {
    open spec fn obeys_from_spec() -> bool {
        false
    }

    open spec fn from_spec(s: &Vec<usize>) -> Shape {
        arbitrary()
    }
}

/// A copy of the dimensions `s`.
pub fn copy_dims(s: &[usize]) -> (r: Vec<usize>)
    ensures
        r@ == s@,
{
    let n: usize = s.len();
    let mut v: Vec<usize> = Vec::with_capacity(n);
    let mut i: usize = 0;
    while i < n
        invariant
            i <= n,
            n == s@.len(),
            v@ == s@.take(i as int),
        decreases n - i,
    {
        v.push(s[i]);
        assert(s@.take(i as int + 1) =~= s@.take(i as int).push(s@[i as int]));
        i += 1;
    }
    assert(s@.take(n as int) =~= s@);
    v
}

impl Shape {
    /// The shape with these dimensions.
    pub fn of(s: &[usize]) -> (r: Self)
        ensures
            r@ == s@,
    {
        Shape(copy_dims(s))
    }

    /// The number of dimensions.
    pub fn ndim(&self) -> (r: usize)
        ensures
            r == self@.len(),
    {
        self.0.len()
    }

    /// Dimension `i`, if there is one.
    pub fn dim(&self, i: usize) -> (r: Result<usize, DimOutOfBounds>)
        ensures
            r == if i < self@.len() {
                Ok::<usize, DimOutOfBounds>(self@[i as int])
            } else {
                Err::<usize, DimOutOfBounds>(DimOutOfBounds { dim: i })
            },
    {
        if i < self.0.len() {
            Ok(self.0[i])
        } else {
            Err(DimOutOfBounds { dim: i })
        }
    }

    /// All dimensions.
    pub fn dims(&self) -> (r: &[usize])
        ensures
            r@ == self@,
    {
        self.0.as_slice()
    }
}

/// The product of all dimensions: the number of elements.
pub open spec fn elem_count(dims: Seq<usize>) -> int
    decreases dims.len(),
{
    if dims.len() == 0 {
        1
    } else {
        elem_count(dims.drop_last()) * dims.last()
    }
}

/// The number of elements.
pub fn product(dims: &[usize]) -> (r: usize)
    requires
        forall|i: int| 0 <= i <= dims@.len() ==> elem_count(#[trigger] dims@.take(i)) <= usize::MAX,
    ensures
        r == elem_count(dims@),
{
    let n: usize = dims.len();
    let mut r: usize = 1;
    let mut i: usize = 0;
    assert(dims@.take(0) =~= Seq::empty());
    while i < n
        invariant
            i <= n,
            n == dims@.len(),
            forall|j: int|
                0 <= j <= dims@.len() ==> elem_count(#[trigger] dims@.take(j)) <= usize::MAX,
            r == elem_count(dims@.take(i as int)),
        decreases n - i,
    {
        assert(dims@.take(i as int + 1).drop_last() =~= dims@.take(i as int));
        assert(elem_count(dims@.take(i as int + 1)) == r * dims@[i as int]);
        assert(r * dims@[i as int] >= 0) by (nonlinear_arith)
            requires
                r >= 0,
                dims@[i as int] >= 0,
        ;
        r = r * dims[i];
        i += 1;
    }
    assert(dims@.take(n as int) =~= dims@);
    r
}

/// A copy of the dimensions in the opposite order.
pub fn reversed(s: &[usize]) -> (r: Vec<usize>)
    ensures
        r@ == s@.reverse(),
{
    let n: usize = s.len();
    let mut v: Vec<usize> = Vec::with_capacity(n);
    let mut i: usize = 0;
    while i < n
        invariant
            i <= n,
            n == s@.len(),
            v@.len() == i,
            forall|j: int| 0 <= j < i ==> #[trigger] v@[j] == s@[n - 1 - j],
        decreases n - i,
    {
        v.push(s[n - 1 - i]);
        i += 1;
    }
    assert(v@ =~= s@.reverse());
    v
}

/// Whether two lists of dimensions are equal.
pub fn same_dims(a: &[usize], b: &[usize]) -> (r: bool)
    ensures
        r == (a@ == b@),
{
    let n: usize = a.len();
    if n != b.len() {
        return false;
    }
    let mut i: usize = 0;
    while i < n
        invariant
            i <= n,
            n == a@.len(),
            n == b@.len(),
            forall|j: int| 0 <= j < i ==> #[trigger] a@[j] == b@[j],
        decreases n - i,
    {
        if a[i] != b[i] {
            assert(a@[i as int] != b@[i as int]);
            return false;
        }
        i += 1;
    }
    assert(a@ =~= b@);
    true
}

} // verus!
