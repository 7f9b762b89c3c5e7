//! Layout-level tensor algebra: shapes, gradient flags and the shape rules
//! that every tensor operation obeys.

use vstd::prelude::*;

verus! {

/// The mathematical value of a tensor layout.
pub struct Meta {
    pub shape: Seq<usize>,
    pub requires_grad: bool,
}

/// The mathematical value of a shape mismatch: the two offending shapes.
pub struct Mismatch {
    pub left: Seq<usize>,
    pub right: Seq<usize>,
}

/// Raised when the shapes of two operands do not fit the operation.
#[derive(Debug, Clone)]
pub enum ShapeError {
    ShapeMismatch { left: Vec<usize>, right: Vec<usize> },
}

impl View for ShapeError {
    type V = Mismatch;

    open spec fn view(&self) -> Mismatch {
        match self {
            ShapeError::ShapeMismatch { left, right } => Mismatch { left: left@, right: right@ },
        }
    }
}

/// The layout of a dense tensor: its dimension sizes and whether it takes
/// part in gradient computation.
#[derive(Debug, Clone)]
pub struct TensorMeta {
    pub shape: Vec<usize>,
    pub requires_grad: bool,
}

impl View for TensorMeta {
    type V = Meta;

    open spec fn view(&self) -> Meta {
        Meta { shape: self.shape@, requires_grad: self.requires_grad }
    }
}

/// Number of elements of a tensor of shape `s`: the product of its sizes.
pub open spec fn num_elements(s: Seq<usize>) -> nat
    decreases s.len(),
{
    if s.len() == 0 {
        1
    } else {
        num_elements(s.drop_last()) * (s.last() as nat)
    }
}

/// The mathematical value of an operation's outcome.
pub open spec fn outcome(r: Result<TensorMeta, ShapeError>) -> Result<Meta, Mismatch> {
    match r {
        Ok(t) => Ok(t@),
        Err(e) => Err(e@),
    }
}

/// Two 2-D shapes whose inner dimensions agree.
pub open spec fn matmul_fits(a: Seq<usize>, b: Seq<usize>) -> bool {
    a.len() == 2 && b.len() == 2 && a[1] == b[0]
}

/// Result of the 2-D matrix product of `a` by `b`.
pub open spec fn matmul_spec(a: Meta, b: Meta) -> Result<Meta, Mismatch> {
    if matmul_fits(a.shape, b.shape) {
        Ok(Meta { shape: seq![a.shape[0], b.shape[1]], requires_grad: a.requires_grad || b.requires_grad })
    } else {
        Err(Mismatch { left: a.shape, right: b.shape })
    }
}

/// `b` broadcasts onto `a`: `b`'s shape is a trailing part of `a`'s (equal
/// shapes included), and is replicated over `a`'s leading dimensions.
pub open spec fn broadcasts(a: Seq<usize>, b: Seq<usize>) -> bool {
    b.len() <= a.len() && a.subrange(a.len() - b.len(), a.len() as int) == b
}

/// Result of an element-wise operation of `a` with `b`.
pub open spec fn elementwise_spec(a: Meta, b: Meta) -> Result<Meta, Mismatch> {
    if broadcasts(a.shape, b.shape) {
        Ok(Meta { shape: a.shape, requires_grad: a.requires_grad || b.requires_grad })
    } else {
        Err(Mismatch { left: a.shape, right: b.shape })
    }
}

/// Element-wise maximum with zero keeps the layout.
pub open spec fn relu_spec(a: Meta) -> Meta {
    a
}

fn copy_shape(s: &Vec<usize>) -> (r: Vec<usize>)
    ensures
        r@ == s@,
{
    let mut r: Vec<usize> = Vec::new();
    let mut i: usize = 0;
    while i < s.len()
        invariant
            i <= s.len(),
            r@ == s@.subrange(0, i as int),
        decreases s.len() - i,
    {
        r.push(s[i]);
        i += 1;
        assert(r@ == s@.subrange(0, i as int));
    }
    r
}

fn mismatch(a: &Vec<usize>, b: &Vec<usize>) -> (e: ShapeError)
    ensures
        e@ == (Mismatch { left: a@, right: b@ }),
{
    ShapeError::ShapeMismatch { left: copy_shape(a), right: copy_shape(b) }
}

/// Whether `b`'s shape broadcasts onto `a`'s.
pub fn can_broadcast(a: &Vec<usize>, b: &Vec<usize>) -> (r: bool)
    ensures
        r == broadcasts(a@, b@),
{
    if b.len() > a.len() {
        return false;
    }
    let off: usize = a.len() - b.len();
    let mut i: usize = 0;
    while i < b.len()
        invariant
            off + b.len() == a.len(),
            i <= b.len(),
            forall|k: int| 0 <= k < i ==> a@[off + k] == b@[k],
        decreases b.len() - i,
    {
        if a[off + i] != b[i] {
            assert(a@.subrange(off as int, a.len() as int)[i as int] != b@[i as int]);
            return false;
        }
        i += 1;
    }
    assert(a@.subrange(off as int, a.len() as int) =~= b@);
    true
}

impl TensorMeta {
    /// A layout of the given shape; `requires_grad` is kept as given.
    pub fn new(shape: Vec<usize>, requires_grad: bool) -> (r: TensorMeta)
        ensures
            r@ == (Meta { shape: shape@, requires_grad }),
    {
        TensorMeta { shape, requires_grad }
    }

    /// The ordered dimension sizes.
    pub fn shape(&self) -> (r: &[usize])
        ensures
            r@ == self.shape@,
    {
        self.shape.as_slice()
    }

    /// Whether the tensor takes part in gradient computation.
    pub fn requires_grad(&self) -> (r: bool)
        ensures
            r == self.requires_grad,
    {
        self.requires_grad
    }

    /// The element count, or `None` where it does not fit in `usize`.
    pub fn num_elements(&self) -> (r: Option<usize>)
        ensures
            num_elements(self.shape@) <= usize::MAX ==> r == Some(num_elements(self.shape@) as usize),
            num_elements(self.shape@) > usize::MAX ==> r is None,
    {
        let mut z: usize = 0;
        while z < self.shape.len()
            invariant
                z <= self.shape.len(),
                forall|k: int| 0 <= k < z ==> self.shape@[k] > 0,
            decreases self.shape.len() - z,
        {
            if self.shape[z] == 0 {
                proof {
                    lemma_zero_dimension(self.shape@, z as int);
                }
                return Some(0);
            }
            z += 1;
        }
        let mut n: usize = 1;
        let mut i: usize = 0;
        while i < self.shape.len()
            invariant
                i <= self.shape.len(),
                forall|k: int| 0 <= k < self.shape.len() ==> self.shape@[k] > 0,
                n == num_elements(self.shape@.subrange(0, i as int)),
            decreases self.shape.len() - i,
        {
            let ghost s = self.shape@;
            assert(s.subrange(0, i + 1).drop_last() =~= s.subrange(0, i as int));
            match n.checked_mul(self.shape[i]) {
                Some(m) => {
                    n = m;
                },
                None => {
                    proof {
                        lemma_overflow_persists(s, i + 1);
                    }
                    return None;
                },
            }
            i += 1;
        }
        assert(self.shape@.subrange(0, self.shape.len() as int) =~= self.shape@);
        Some(n)
    }

    /// 2-D matrix product: `[m, k]` by `[k, n]` gives `[m, n]`; any other
    /// pair of shapes is a mismatch.
    pub fn matmul(&self, other: &TensorMeta) -> (r: Result<TensorMeta, ShapeError>)
        ensures
            outcome(r) == matmul_spec(self@, other@),
    {
        if self.shape.len() == 2 && other.shape.len() == 2 && self.shape[1] == other.shape[0] {
            let shape = vec![self.shape[0], other.shape[1]];
            assert(shape@ =~= seq![self.shape@[0], other.shape@[1]]);
            Ok(TensorMeta { shape, requires_grad: self.requires_grad || other.requires_grad })
        } else {
            Err(mismatch(&self.shape, &other.shape))
        }
    }

    /// Element-wise addition, with `other` broadcast over leading dimensions.
    pub fn add(&self, other: &TensorMeta) -> (r: Result<TensorMeta, ShapeError>)
        ensures
            outcome(r) == elementwise_spec(self@, other@),
    {
        self.elementwise(other)
    }

    /// Element-wise multiplication, with `other` broadcast over leading
    /// dimensions.
    pub fn mul(&self, other: &TensorMeta) -> (r: Result<TensorMeta, ShapeError>)
        ensures
            outcome(r) == elementwise_spec(self@, other@),
    {
        self.elementwise(other)
    }

    fn elementwise(&self, other: &TensorMeta) -> (r: Result<TensorMeta, ShapeError>)
        ensures
            outcome(r) == elementwise_spec(self@, other@),
    {
        if can_broadcast(&self.shape, &other.shape) {
            Ok(TensorMeta { shape: copy_shape(&self.shape), requires_grad: self.requires_grad || other.requires_grad })
        } else {
            Err(mismatch(&self.shape, &other.shape))
        }
    }

    /// Adding or multiplying by a constant keeps the layout.
    pub fn scalar(&self) -> (r: TensorMeta)
        ensures
            r@ == self@,
    {
        TensorMeta { shape: copy_shape(&self.shape), requires_grad: self.requires_grad }
    }

    /// Element-wise `max(x, 0)` keeps the layout.
    pub fn relu(&self) -> (r: TensorMeta)
        ensures
            r@ == relu_spec(self@),
    {
        self.scalar()
    }
}

proof fn lemma_product_grows(a: nat, b: nat)
    requires
        a > usize::MAX,
    ensures
        b == 0 || a * b > usize::MAX,
{
    if b > 0 {
        assert(a * b >= a) by (nonlinear_arith)
            requires
                b >= 1,
        ;
    }
}

proof fn lemma_overflow_persists(s: Seq<usize>, j: int)
    requires
        0 <= j <= s.len(),
        forall|k: int| 0 <= k < s.len() ==> s[k] > 0,
        num_elements(s.subrange(0, j)) > usize::MAX,
    ensures
        num_elements(s) > usize::MAX,
    decreases s.len() - j,
{
    if j == s.len() {
        assert(s.subrange(0, j) =~= s);
    } else {
        assert(s.subrange(0, j + 1).drop_last() =~= s.subrange(0, j));
        lemma_product_grows(num_elements(s.subrange(0, j)), s[j] as nat);
        lemma_overflow_persists(s, j + 1);
    }
}

proof fn lemma_zero_dimension(s: Seq<usize>, k: int)
    requires
        0 <= k < s.len(),
        s[k] == 0,
    ensures
        num_elements(s) == 0,
    decreases s.len(),
{
    let a = num_elements(s.drop_last());
    let b = s.last() as nat;
    if k < s.len() - 1 {
        lemma_zero_dimension(s.drop_last(), k);
        assert(a * b == 0) by (nonlinear_arith)
            requires
                a == 0,
        ;
    } else {
        assert(a * b == 0) by (nonlinear_arith)
            requires
                b == 0,
        ;
    }
}

} // verus!
