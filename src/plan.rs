//! Flattening a layer into a straight list of tensor operations, each of
//! which reads the parameters in the order `parameters` lists them.

use crate::nn::{chain_forward, chain_params, layer_forward, layer_params, linear_forward, linear_params, Layer, Linear, Sequential};
use crate::tensor::{elementwise_spec, matmul_spec, outcome, relu_spec, Meta, Mismatch, ShapeError, TensorMeta};
use vstd::prelude::*;

verus! {

broadcast use vstd::std_specs::vec::group_vec_axioms;

/// One step of a flattened forward pass.
#[derive(Debug, Clone, Copy, PartialEq, Eq)]
pub enum Op {
    /// Matrix product with the next parameter.
    MatMul,
    /// Element-wise addition of the next parameter, broadcast over leading
    /// dimensions.
    AddBias,
    /// Element-wise `max(x, 0)`.
    Relu,
}

/// Whether a step reads a parameter.
pub open spec fn reads_param(op: Op) -> bool {
    op is MatMul || op is AddBias
}

/// How many parameters the steps `ops` read.
pub open spec fn consumed(ops: Seq<Op>) -> nat
    decreases ops.len(),
{
    if ops.len() == 0 {
        0
    } else {
        consumed(ops.drop_last()) + if reads_param(ops.last()) { 1nat } else { 0nat }
    }
}

/// One step on the layout `x`, with `p` the parameter it reads.
pub open spec fn step_spec(op: Op, p: Meta, x: Meta) -> Result<Meta, Mismatch> {
    match op {
        Op::MatMul => matmul_spec(x, p),
        Op::AddBias => elementwise_spec(x, p),
        Op::Relu => Ok(relu_spec(x)),
    }
}

/// The steps `ops` run in order on `x`, reading parameters from `params`
/// starting at index `start`; the first failure stops the run.
pub open spec fn run_ops(ops: Seq<Op>, params: Seq<Meta>, start: int, x: Meta) -> Result<Meta, Mismatch>
    decreases ops.len(),
{
    if ops.len() == 0 {
        Ok(x)
    } else {
        match run_ops(ops.drop_last(), params, start, x) {
            Ok(y) => step_spec(ops.last(), params[start + consumed(ops.drop_last())], y),
            Err(e) => Err(e),
        }
    }
}

/// The steps of a linear layer.
pub open spec fn linear_ops(l: Linear) -> Seq<Op> {
    match l.bias {
        Some(_) => seq![Op::MatMul, Op::AddBias],
        None => seq![Op::MatMul],
    }
}

/// The steps of a layer.
pub open spec fn layer_ops(l: Layer) -> Seq<Op>
    decreases l,
{
    match l {
        Layer::Linear(lin) => linear_ops(lin),
        Layer::ReLU(_) => seq![Op::Relu],
        Layer::Sequential(s) => chain_ops(s.modules@),
    }
}

/// The steps of the layers `ms`, concatenated in order.
pub open spec fn chain_ops(ms: Seq<Layer>) -> Seq<Op>
    decreases ms,
{
    if ms.len() == 0 {
        Seq::empty()
    } else {
        chain_ops(ms.drop_last()) + layer_ops(ms.last())
    }
}

/// One step on a tensor layout. `param` is the parameter the step reads;
/// a step that reads none ignores it.
pub fn step(op: Op, param: &TensorMeta, x: &TensorMeta) -> (r: Result<TensorMeta, ShapeError>)
    ensures
        outcome(r) == step_spec(op, param@, x@),
{
    match op {
        Op::MatMul => x.matmul(param),
        Op::AddBias => x.add(param),
        Op::Relu => Ok(x.relu()),
    }
}

fn linear_plan(l: &Linear) -> (r: Vec<Op>)
    ensures
        r@ == linear_ops(*l),
{
    let mut r: Vec<Op> = Vec::new();
    r.push(Op::MatMul);
    if l.bias.is_some() {
        r.push(Op::AddBias);
    }
    assert(r@ =~= linear_ops(*l));
    r
}

impl Layer {
    /// The flattened steps of this layer.
    pub fn plan(&self) -> (r: Vec<Op>)
        ensures
            r@ == layer_ops(*self),
        decreases self,
    {
        match self {
            Layer::Linear(l) => linear_plan(l),
            Layer::ReLU(_) => {
                let r: Vec<Op> = vec![Op::Relu];
                assert(r@ =~= seq![Op::Relu]);
                r
            },
            Layer::Sequential(s) => s.plan(),
        }
    }
}

impl Sequential {
    /// The flattened steps of the pipeline: each child's steps, in order.
    pub fn plan(&self) -> (r: Vec<Op>)
        ensures
            r@ == chain_ops(self.modules@),
        decreases self,
    {
        let mut ops: Vec<Op> = Vec::new();
        let mut i: usize = 0;
        while i < self.modules.len()
            invariant
                i <= self.modules.len(),
                ops@ == chain_ops(self.modules@.subrange(0, i as int)),
            decreases self.modules.len() - i,
        {
            let ghost ms = self.modules@.subrange(0, i + 1);
            assert(ms.drop_last() =~= self.modules@.subrange(0, i as int));
            let mut more = self.modules[i].plan();
            ops.append(&mut more);
            i += 1;
        }
        assert(self.modules@.subrange(0, self.modules.len() as int) =~= self.modules@);
        ops
    }
}

/// Running `a` then `b` is running `a + b`, where `b` reads the parameters
/// that follow those `a` read.
pub proof fn lemma_run_concat(a: Seq<Op>, b: Seq<Op>, params: Seq<Meta>, start: int, x: Meta)
    ensures
        consumed(a + b) == consumed(a) + consumed(b),
        run_ops(a + b, params, start, x) == match run_ops(a, params, start, x) {
            Ok(y) => run_ops(b, params, start + consumed(a), y),
            Err(e) => Err(e),
        },
    decreases b.len(),
{
    if b.len() == 0 {
        assert(a + b =~= a);
    } else {
        assert((a + b).drop_last() =~= a + b.drop_last());
        assert((a + b).last() == b.last());
        lemma_run_concat(a, b.drop_last(), params, start, x);
    }
}

/// The steps of a layer read exactly its parameters, and running them on
/// those parameters is running the layer.
pub proof fn lemma_layer_plan(l: Layer, params: Seq<Meta>, start: int, x: Meta)
    requires
        0 <= start,
        start + layer_params(l).len() <= params.len(),
        params.subrange(start, start + layer_params(l).len()) == layer_params(l),
    ensures
        consumed(layer_ops(l)) == layer_params(l).len(),
        run_ops(layer_ops(l), params, start, x) == layer_forward(l, x),
    decreases l,
{
    match l {
        Layer::Linear(lin) => {
            let ops = linear_ops(lin);
            assert(layer_ops(l) == ops);
            assert(layer_params(l) == linear_params(lin));
            assert(params[start] == layer_params(l)[0]);
            let none = Seq::<Op>::empty();
            assert(consumed(none) == 0);
            assert(run_ops(none, params, start, x) == Ok::<Meta, Mismatch>(x));
            if lin.bias is Some {
                let one = ops.drop_last();
                assert(one =~= seq![Op::MatMul]);
                assert(one.drop_last() =~= none);
                assert(consumed(one) == 1);
                assert(params[start + 1] == layer_params(l)[1]);
                assert(run_ops(one, params, start, x) == matmul_spec(x, params[start]));
                assert(params[start] == lin.weights@);
                assert(layer_forward(l, x) == linear_forward(lin, x));
                assert(run_ops(ops, params, start, x) == linear_forward(lin, x));
            } else {
                assert(ops.drop_last() =~= none);
                assert(params[start] == lin.weights@);
                assert(layer_forward(l, x) == linear_forward(lin, x));
                assert(run_ops(ops, params, start, x) == matmul_spec(x, params[start]));
                assert(linear_forward(lin, x) == matmul_spec(x, lin.weights@));
            }
        },
        Layer::ReLU(_) => {
            let none = Seq::<Op>::empty();
            assert(layer_ops(l) == seq![Op::Relu]);
            assert(seq![Op::Relu].drop_last() =~= none);
            assert(consumed(none) == 0);
            assert(run_ops(none, params, start, x) == Ok::<Meta, Mismatch>(x));
        },
        Layer::Sequential(s) => {
            lemma_chain_plan(s.modules@, params, start, x);
        },
    }
}

/// The steps of a pipeline read exactly its parameters, and running them
/// on those parameters is running the pipeline.
pub proof fn lemma_chain_plan(ms: Seq<Layer>, params: Seq<Meta>, start: int, x: Meta)
    requires
        0 <= start,
        start + chain_params(ms).len() <= params.len(),
        params.subrange(start, start + chain_params(ms).len()) == chain_params(ms),
    ensures
        consumed(chain_ops(ms)) == chain_params(ms).len(),
        run_ops(chain_ops(ms), params, start, x) == chain_forward(ms, x),
    decreases ms,
{
    if ms.len() > 0 {
        let head = ms.drop_last();
        let l = ms.last();
        let n = chain_params(head).len() as int;
        let m = layer_params(l).len() as int;
        let whole = params.subrange(start, start + n + m);
        assert(chain_params(ms) == chain_params(head) + layer_params(l));
        assert(whole == chain_params(head) + layer_params(l));
        assert(whole.subrange(0, n) =~= chain_params(head));
        assert(whole.subrange(n, n + m) =~= layer_params(l));
        assert(params.subrange(start, start + n) =~= whole.subrange(0, n));
        assert(params.subrange(start + n, start + n + m) =~= whole.subrange(n, n + m));
        lemma_chain_plan(head, params, start, x);
        lemma_run_concat(chain_ops(head), layer_ops(l), params, start, x);
        match chain_forward(head, x) {
            Ok(y) => {
                lemma_layer_plan(l, params, start + n, y);
            },
            Err(_) => {
                lemma_layer_plan(l, params, start + n, x);
            },
        }
    }
}

/// Running a pipeline's flattened steps on its own parameter list is
/// running the pipeline.
pub proof fn lemma_plan_matches_forward(s: Sequential, x: Meta)
    ensures
        consumed(chain_ops(s.modules@)) == chain_params(s.modules@).len(),
        run_ops(layer_ops(Layer::Sequential(s)), layer_params(Layer::Sequential(s)), 0, x)
            == layer_forward(Layer::Sequential(s), x),
{
    let p = chain_params(s.modules@);
    assert(p.subrange(0, p.len() as int) =~= p);
    lemma_chain_plan(s.modules@, p, 0, x);
}

} // verus!
