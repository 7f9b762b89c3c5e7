//! Properties of layouts and layers that hold for every input.

use crate::nn::{chain_forward, chain_params, layer_forward, layer_params, linear_forward, linear_params, linear_wf, Layer, Linear, Sequential};
use crate::tensor::{broadcasts, elementwise_spec, relu_spec, Meta};
use vstd::prelude::*;

verus! {

/// Adding two tensors whose shapes fit keeps the left operand's shape, and
/// the sum requires gradients when either operand does.
pub proof fn lemma_add_layout(a: Meta, b: Meta)
    requires
        broadcasts(a.shape, b.shape),
    ensures
        elementwise_spec(a, b) matches Ok(c) && c.shape == a.shape && c.requires_grad == (a.requires_grad || b.requires_grad),
{
}

/// Two tensors of one shape always fit an element-wise operation.
pub proof fn lemma_same_shape_broadcasts(s: Seq<usize>)
    ensures
        broadcasts(s, s),
{
    assert(s.subrange(0, s.len() as int) =~= s);
}

/// The rectifier applied twice is the rectifier applied once, and it keeps
/// the shape and the gradient flag.
pub proof fn lemma_relu_idempotent(x: Meta)
    ensures
        relu_spec(relu_spec(x)) == relu_spec(x),
        relu_spec(x).shape == x.shape,
        relu_spec(x).requires_grad == x.requires_grad,
        layer_forward(Layer::ReLU(crate::nn::ReLU), x) == Ok::<Meta, crate::tensor::Mismatch>(relu_spec(x)),
{
}

/// A linear layer from `d_in` to `d_out` features maps a batch of shape
/// `[n, d_in]` to shape `[n, d_out]`, marked for gradients; it has two
/// parameters with a bias and one without.
pub proof fn lemma_linear_layer(l: Linear, d_in: usize, d_out: usize, n: usize, rg: bool)
    requires
        linear_wf(l, d_in, d_out),
    ensures
        linear_forward(l, Meta { shape: seq![n, d_in], requires_grad: rg })
            == Ok::<Meta, crate::tensor::Mismatch>(Meta { shape: seq![n, d_out], requires_grad: true }),
        linear_params(l).len() == (if l.bias is Some { 2int } else { 1int }),
{
    let y = Meta { shape: seq![n, d_out], requires_grad: true };
    if let Some(b) = l.bias {
        assert(y.shape.subrange(1, 2) =~= b@.shape);
    }
}

/// `ms` is a stack of linear layers, each with a bias, whose feature counts
/// run through `dims`: layer `i` maps `dims[i]` features to `dims[i + 1]`.
pub open spec fn linear_stack(ms: Seq<Layer>, dims: Seq<usize>) -> bool {
    &&& dims.len() == ms.len() + 1
    &&& forall|i: int|
        0 <= i < ms.len() ==> (#[trigger] ms[i] matches Layer::Linear(l) && l.bias is Some
            && linear_wf(l, dims[i], dims[i + 1]))
}

proof fn lemma_linear_stack_prefix(ms: Seq<Layer>, dims: Seq<usize>, n: usize, rg: bool)
    requires
        linear_stack(ms, dims),
    ensures
        chain_params(ms).len() == 2 * ms.len(),
        chain_forward(ms, Meta { shape: seq![n, dims[0]], requires_grad: rg })
            == Ok::<Meta, crate::tensor::Mismatch>(Meta { shape: seq![n, dims.last()], requires_grad: rg || ms.len() > 0 }),
    decreases ms.len(),
{
    if ms.len() > 0 {
        let k = ms.len() - 1;
        assert(linear_stack(ms.drop_last(), dims.drop_last())) by {
            assert forall|i: int| 0 <= i < ms.drop_last().len() implies (#[trigger] ms.drop_last()[i] matches Layer::Linear(l)
                && l.bias is Some && linear_wf(l, dims.drop_last()[i], dims.drop_last()[i + 1])) by {
                assert(ms[i] == ms.drop_last()[i]);
            }
        }
        lemma_linear_stack_prefix(ms.drop_last(), dims.drop_last(), n, rg);
        assert(ms[k] == ms.last());
        assert(dims.drop_last()[0] == dims[0]);
        assert(dims.drop_last().last() == dims[k]);
        assert(dims.last() == dims[k + 1]);
        assert(ms[k] matches Layer::Linear(_));
        if let Layer::Linear(l) = ms.last() {
            lemma_linear_layer(l, dims[k], dims[k + 1], n, rg || k > 0);
            assert(layer_params(ms.last()) == linear_params(l));
            assert(chain_params(ms) == chain_params(ms.drop_last()) + layer_params(ms.last()));
            let x = Meta { shape: seq![n, dims[0]], requires_grad: rg };
            let y = Meta { shape: seq![n, dims[k]], requires_grad: rg || k > 0 };
            assert(chain_forward(ms.drop_last(), x) == Ok::<Meta, crate::tensor::Mismatch>(y));
            assert(layer_forward(ms.last(), y) == linear_forward(l, y));
        }
    } else {
        assert(chain_params(ms).len() == 0);
    }
}

/// A pipeline of `k` linear layers, each with a bias, has `2k` parameters,
/// and maps a batch of shape `[n, d_0]` to shape `[n, d_k]`, where `d_k` is
/// the last layer's output feature count.
pub proof fn lemma_linear_pipeline(s: Sequential, dims: Seq<usize>, n: usize, rg: bool)
    requires
        linear_stack(s.modules@, dims),
    ensures
        layer_params(Layer::Sequential(s)).len() == 2 * s.modules@.len(),
        layer_forward(Layer::Sequential(s), Meta { shape: seq![n, dims[0]], requires_grad: rg })
            == Ok::<Meta, crate::tensor::Mismatch>(Meta { shape: seq![n, dims.last()], requires_grad: rg || s.modules@.len() > 0 }),
{
    lemma_linear_stack_prefix(s.modules@, dims, n, rg);
}

/// An empty pipeline hands its input back unchanged and has no parameters.
pub proof fn lemma_empty_pipeline(s: Sequential, x: Meta)
    requires
        s.modules@.len() == 0,
    ensures
        layer_forward(Layer::Sequential(s), x) == Ok::<Meta, crate::tensor::Mismatch>(x),
        layer_params(Layer::Sequential(s)) == Seq::<Meta>::empty(),
{
}

/// Appending a layer runs it on what the pipeline produced before, and
/// appends its parameters to the pipeline's.
pub proof fn lemma_append(ms: Seq<Layer>, l: Layer, x: Meta)
    ensures
        chain_forward(ms.push(l), x) == match chain_forward(ms, x) {
            Ok(y) => layer_forward(l, y),
            Err(e) => Err(e),
        },
        chain_params(ms.push(l)) == chain_params(ms) + layer_params(l),
{
    assert(ms.push(l).drop_last() =~= ms);
}

} // verus!
