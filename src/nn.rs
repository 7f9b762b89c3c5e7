//! Layers over tensor layouts: an affine layer, a rectifier, and ordered
//! composition of layers.

use crate::tensor::{elementwise_spec, matmul_spec, outcome, relu_spec, Meta, Mismatch, ShapeError, TensorMeta};
use vstd::prelude::*;

verus! {

broadcast use vstd::std_specs::vec::group_vec_axioms;

/// An affine layer `y = x · W (+ b)`, holding the layouts of its parameters.
#[derive(Debug)]
pub struct Linear {
    pub weights: TensorMeta,
    pub bias: Option<TensorMeta>,
}

/// The rectifier `max(x, 0)`; it has no parameters.
#[derive(Debug, Default)]
pub struct ReLU;

/// An ordered, append-only pipeline of layers.
pub struct Sequential {
    pub modules: Vec<Layer>,
}

/// Every kind of layer a pipeline can hold.
pub enum Layer {
    Linear(Linear),
    ReLU(ReLU),
    Sequential(Sequential),
}

/// The layouts of a sequence of tensors.
pub open spec fn metas(v: Seq<TensorMeta>) -> Seq<Meta> {
    v.map_values(|t: TensorMeta| t@)
}

/// A linear layer from `input_dim` to `output_dim` features: weights of
/// shape `[input_dim, output_dim]`, a bias of shape `[output_dim]` where
/// present, all marked for gradients.
pub open spec fn linear_wf(l: Linear, input_dim: usize, output_dim: usize) -> bool {
    &&& l.weights@ == (Meta { shape: seq![input_dim, output_dim], requires_grad: true })
    &&& (l.bias matches Some(b) ==> b@ == (Meta { shape: seq![output_dim], requires_grad: true }))
}

/// Matrix product with the weights, then the bias added where present.
pub open spec fn linear_forward(l: Linear, x: Meta) -> Result<Meta, Mismatch> {
    match matmul_spec(x, l.weights@) {
        Ok(y) => match l.bias {
            Some(b) => elementwise_spec(y, b@),
            None => Ok(y),
        },
        Err(e) => Err(e),
    }
}

/// The weights, then the bias where present.
pub open spec fn linear_params(l: Linear) -> Seq<Meta> {
    match l.bias {
        Some(b) => seq![l.weights@, b@],
        None => seq![l.weights@],
    }
}

/// What a layer maps the input layout `x` to.
pub open spec fn layer_forward(l: Layer, x: Meta) -> Result<Meta, Mismatch>
    decreases l,
{
    match l {
        Layer::Linear(lin) => linear_forward(lin, x),
        Layer::ReLU(_) => Ok(relu_spec(x)),
        Layer::Sequential(s) => chain_forward(s.modules@, x),
    }
}

/// `x` threaded through the layers `ms` in order; the first failure stops it.
pub open spec fn chain_forward(ms: Seq<Layer>, x: Meta) -> Result<Meta, Mismatch>
    decreases ms,
{
    if ms.len() == 0 {
        Ok(x)
    } else {
        match chain_forward(ms.drop_last(), x) {
            Ok(y) => layer_forward(ms.last(), y),
            Err(e) => Err(e),
        }
    }
}

/// The layouts of a layer's trainable tensors, in declaration order.
pub open spec fn layer_params(l: Layer) -> Seq<Meta>
    decreases l,
{
    match l {
        Layer::Linear(lin) => linear_params(lin),
        Layer::ReLU(_) => Seq::empty(),
        Layer::Sequential(s) => chain_params(s.modules@),
    }
}

/// The parameters of the layers `ms`, concatenated in order.
pub open spec fn chain_params(ms: Seq<Layer>) -> Seq<Meta>
    decreases ms,
{
    if ms.len() == 0 {
        Seq::empty()
    } else {
        chain_params(ms.drop_last()) + layer_params(ms.last())
    }
}

/// Something that can be run forward on a tensor layout and can list the
/// layouts of its trainable tensors. Each module stands for a `Layer`.
pub trait Module: Sized {
    /// The layer this module stands for.
    spec fn as_layer(&self) -> Layer;

    /// Runs the module on `input`.
    fn forward(&self, input: &TensorMeta) -> (r: Result<TensorMeta, ShapeError>)
        ensures
            outcome(r) == layer_forward(self.as_layer(), input@),
    ;

    /// Copies of the layouts of every trainable tensor, in a stable order.
    fn parameters(&self) -> (r: Vec<TensorMeta>)
        ensures
            metas(r@) == layer_params(self.as_layer()),
    ;

    /// Hands the module over as a `Layer`.
    fn into_layer(self) -> (r: Layer)
        ensures
            r == self.as_layer(),
    ;
}

impl Linear {
    /// A layer from `input_dim` to `output_dim` features, with a bias where
    /// `use_bias` holds.
    pub fn new(input_dim: usize, output_dim: usize, use_bias: bool) -> (r: Linear)
        ensures
            linear_wf(r, input_dim, output_dim),
            r.bias is Some <==> use_bias,
    {
        let weights = TensorMeta::new(vec![input_dim, output_dim], true);
        assert(weights.shape@ =~= seq![input_dim, output_dim]);
        let bias = if use_bias {
            let b = TensorMeta::new(vec![output_dim], true);
            assert(b.shape@ =~= seq![output_dim]);
            Some(b)
        } else {
            None
        };
        Linear { weights, bias }
    }

    fn run(&self, input: &TensorMeta) -> (r: Result<TensorMeta, ShapeError>)
        ensures
            outcome(r) == linear_forward(*self, input@),
    {
        let output = input.matmul(&self.weights);
        match output {
            Ok(y) => match &self.bias {
                Some(b) => y.add(b),
                None => Ok(y),
            },
            Err(e) => Err(e),
        }
    }

    fn params(&self) -> (r: Vec<TensorMeta>)
        ensures
            metas(r@) == linear_params(*self),
    {
        let mut params: Vec<TensorMeta> = Vec::new();
        params.push(self.weights.scalar());
        if let Some(b) = &self.bias {
            params.push(b.scalar());
        }
        assert(metas(params@) =~= linear_params(*self));
        params
    }
}

impl Module for Linear {
    open spec fn as_layer(&self) -> Layer {
        Layer::Linear(*self)
    }

    fn forward(&self, input: &TensorMeta) -> (r: Result<TensorMeta, ShapeError>) {
        self.run(input)
    }

    fn parameters(&self) -> (r: Vec<TensorMeta>) {
        self.params()
    }

    fn into_layer(self) -> (r: Layer) {
        Layer::Linear(self)
    }
}

impl Module for ReLU {
    open spec fn as_layer(&self) -> Layer {
        Layer::ReLU(*self)
    }

    fn forward(&self, input: &TensorMeta) -> (r: Result<TensorMeta, ShapeError>) {
        Ok(input.relu())
    }

    fn parameters(&self) -> (r: Vec<TensorMeta>) {
        let r: Vec<TensorMeta> = Vec::new();
        assert(metas(r@) =~= Seq::empty());
        r
    }

    fn into_layer(self) -> (r: Layer) {
        Layer::ReLU(self)
    }
}

impl Layer {
    fn run(&self, input: &TensorMeta) -> (r: Result<TensorMeta, ShapeError>)
        ensures
            outcome(r) == layer_forward(*self, input@),
        decreases self,
    {
        match self {
            Layer::Linear(l) => l.run(input),
            Layer::ReLU(_) => Ok(input.relu()),
            Layer::Sequential(s) => s.run(input),
        }
    }

    fn params(&self) -> (r: Vec<TensorMeta>)
        ensures
            metas(r@) == layer_params(*self),
        decreases self,
    {
        match self {
            Layer::Linear(l) => l.params(),
            Layer::ReLU(_) => {
                let r: Vec<TensorMeta> = Vec::new();
                assert(metas(r@) =~= Seq::empty());
                r
            },
            Layer::Sequential(s) => s.params(),
        }
    }
}

impl Module for Layer {
    open spec fn as_layer(&self) -> Layer {
        *self
    }

    fn forward(&self, input: &TensorMeta) -> (r: Result<TensorMeta, ShapeError>) {
        self.run(input)
    }

    fn parameters(&self) -> (r: Vec<TensorMeta>) {
        self.params()
    }

    fn into_layer(self) -> (r: Layer) {
        self
    }
}

impl Sequential {
    /// An empty pipeline.
    pub fn new() -> (r: Sequential)
        ensures
            r.modules@.len() == 0,
    {
        Sequential { modules: Vec::new() }
    }

    /// Appends `module` at the end of the pipeline and hands the pipeline back.
    pub fn add<M: Module>(self, module: M) -> (r: Sequential)
        ensures
            r.modules@ == self.modules@.push(module.as_layer()),
    {
        let mut s = self;
        s.modules.push(module.into_layer());
        s
    }

    fn run(&self, input: &TensorMeta) -> (r: Result<TensorMeta, ShapeError>)
        ensures
            outcome(r) == chain_forward(self.modules@, input@),
        decreases self,
    {
        let mut output = input.scalar();
        let mut i: usize = 0;
        while i < self.modules.len()
            invariant
                i <= self.modules.len(),
                chain_forward(self.modules@.subrange(0, i as int), input@) == Ok::<Meta, Mismatch>(output@),
            decreases self.modules.len() - i,
        {
            let ghost ms = self.modules@.subrange(0, i + 1);
            assert(ms.drop_last() =~= self.modules@.subrange(0, i as int));
            assert(ms.last() == self.modules@[i as int]);
            match self.modules[i].run(&output) {
                Ok(y) => {
                    output = y;
                },
                Err(e) => {
                    proof {
                        lemma_chain_stops(self.modules@, i as int + 1, input@);
                    }
                    return Err(e);
                },
            }
            i += 1;
        }
        assert(self.modules@.subrange(0, self.modules.len() as int) =~= self.modules@);
        Ok(output)
    }

    fn params(&self) -> (r: Vec<TensorMeta>)
        ensures
            metas(r@) == chain_params(self.modules@),
        decreases self,
    {
        let mut params: Vec<TensorMeta> = Vec::new();
        let mut i: usize = 0;
        while i < self.modules.len()
            invariant
                i <= self.modules.len(),
                metas(params@) == chain_params(self.modules@.subrange(0, i as int)),
            decreases self.modules.len() - i,
        {
            let ghost ms = self.modules@.subrange(0, i + 1);
            assert(ms.drop_last() =~= self.modules@.subrange(0, i as int));
            let mut more = self.modules[i].params();
            let ghost before = params@;
            let ghost added = more@;
            params.append(&mut more);
            assert(metas(params@) =~= metas(before) + metas(added));
            i += 1;
        }
        assert(self.modules@.subrange(0, self.modules.len() as int) =~= self.modules@);
        params
    }
}

impl Default for Sequential {
    /// An empty pipeline.
    fn default() -> (r: Sequential)
        ensures
            r.modules@.len() == 0,
    {
        Sequential::new()
    }
}

impl Module for Sequential {
    open spec fn as_layer(&self) -> Layer {
        Layer::Sequential(*self)
    }

    fn forward(&self, input: &TensorMeta) -> (r: Result<TensorMeta, ShapeError>) {
        self.run(input)
    }

    fn parameters(&self) -> (r: Vec<TensorMeta>) {
        self.params()
    }

    fn into_layer(self) -> (r: Layer) {
        Layer::Sequential(self)
    }
}

/// Once a prefix of the pipeline fails, the whole pipeline fails the same way.
proof fn lemma_chain_stops(ms: Seq<Layer>, j: int, x: Meta)
    requires
        0 <= j <= ms.len(),
        chain_forward(ms.subrange(0, j), x) is Err,
    ensures
        chain_forward(ms, x) == chain_forward(ms.subrange(0, j), x),
    decreases ms.len() - j,
{
    if j == ms.len() {
        assert(ms.subrange(0, j) =~= ms);
    } else {
        assert(ms.subrange(0, j + 1).drop_last() =~= ms.subrange(0, j));
        lemma_chain_stops(ms, j + 1, x);
    }
}

} // verus!
