use llm_from_scratch::{Layer, Linear, Module, Op, ReLU, Sequential, ShapeError, TensorMeta};

fn meta(shape: &[usize], requires_grad: bool) -> TensorMeta {
    TensorMeta::new(shape.to_vec(), requires_grad)
}

#[test]
fn test_linear_forward() {
    let linear = Linear::new(3, 2, true);
    let input = meta(&[1, 3], false);
    let output = linear.forward(&input).unwrap();
    assert_eq!(output.shape(), &[1, 2]);
}

#[test]
fn test_sequential() {
    let model = Sequential::new()
        .add(Linear::new(10, 20, true))
        .add(ReLU)
        .add(Linear::new(20, 2, true));
    let input = meta(&[1, 10], false);
    let output = model.forward(&input).unwrap();
    assert_eq!(output.shape(), &[1, 2]);
    let params = model.parameters();
    assert_eq!(params.len(), 4);
}

#[test]
fn linear_parameters_with_and_without_bias() {
    let with_bias = Linear::new(4, 3, true).parameters();
    assert_eq!(with_bias.len(), 2);
    assert_eq!(with_bias[0].shape(), &[4, 3]);
    assert_eq!(with_bias[1].shape(), &[3]);
    assert!(with_bias[0].requires_grad() && with_bias[1].requires_grad());
    let without = Linear::new(4, 3, false).parameters();
    assert_eq!(without.len(), 1);
    assert_eq!(without[0].shape(), &[4, 3]);
}

#[test]
fn linear_output_is_marked_for_gradients() {
    let out = Linear::new(5, 7, false).forward(&meta(&[2, 5], false)).unwrap();
    assert_eq!(out.shape(), &[2, 7]);
    assert!(out.requires_grad());
}

#[test]
fn linear_rejects_wrong_input_width() {
    let err = Linear::new(3, 2, true).forward(&meta(&[1, 4], false)).unwrap_err();
    match err {
        ShapeError::ShapeMismatch { left, right } => {
            assert_eq!(left, vec![1, 4]);
            assert_eq!(right, vec![3, 2]);
        }
    }
}

#[test]
fn stack_of_three_linear_layers() {
    let model = Sequential::new()
        .add(Linear::new(6, 5, true))
        .add(Linear::new(5, 4, true))
        .add(Linear::new(4, 9, true));
    assert_eq!(model.parameters().len(), 6);
    let out = model.forward(&meta(&[3, 6], false)).unwrap();
    assert_eq!(out.shape(), &[3, 9]);
}

#[test]
fn empty_sequential_is_identity() {
    let model = Sequential::new();
    let input = meta(&[2, 3, 4], true);
    let out = model.forward(&input).unwrap();
    assert_eq!(out.shape(), &[2, 3, 4]);
    assert!(out.requires_grad());
    assert_eq!(model.parameters().len(), 0);
}

#[test]
fn relu_module_keeps_layout_and_has_no_parameters() {
    let out = ReLU.forward(&meta(&[1, 3], false)).unwrap();
    assert_eq!(out.shape(), &[1, 3]);
    assert!(!out.requires_grad());
    assert!(ReLU.parameters().is_empty());
}

#[test]
fn nested_sequential_runs_and_lists_in_order() {
    let inner = Sequential::new().add(Linear::new(8, 4, true)).add(ReLU);
    let model = Sequential::new()
        .add(inner)
        .add(Linear::new(4, 2, false));
    let params = model.parameters();
    assert_eq!(params.len(), 3);
    assert_eq!(params[0].shape(), &[8, 4]);
    assert_eq!(params[1].shape(), &[4]);
    assert_eq!(params[2].shape(), &[4, 2]);
    let out = model.forward(&meta(&[5, 8], false)).unwrap();
    assert_eq!(out.shape(), &[5, 2]);
}

#[test]
fn failure_in_the_middle_stops_the_pipeline() {
    let model = Sequential::new()
        .add(Linear::new(3, 4, true))
        .add(Linear::new(5, 2, true));
    match model.forward(&meta(&[1, 3], false)) {
        Err(ShapeError::ShapeMismatch { left, right }) => {
            assert_eq!(left, vec![1, 4]);
            assert_eq!(right, vec![5, 2]);
        }
        Ok(_) => panic!("expected a shape mismatch"),
    }
}

#[test]
fn plan_flattens_in_order() {
    let model = Sequential::new()
        .add(Linear::new(10, 20, true))
        .add(ReLU)
        .add(Sequential::new().add(Linear::new(20, 2, false)));
    assert_eq!(model.plan(), vec![Op::MatMul, Op::AddBias, Op::Relu, Op::MatMul]);
    let layer = Layer::ReLU(ReLU);
    assert_eq!(layer.plan(), vec![Op::Relu]);
}

#[test]
fn plan_replayed_over_parameters_matches_forward() {
    let model = Sequential::new()
        .add(Linear::new(10, 20, true))
        .add(ReLU)
        .add(Linear::new(20, 2, true));
    let params = model.parameters();
    let mut next = 0usize;
    let mut x = meta(&[1, 10], false);
    let none = meta(&[], false);
    for op in model.plan() {
        let p = match op {
            Op::Relu => &none,
            _ => {
                next += 1;
                &params[next - 1]
            }
        };
        x = llm_from_scratch::plan::step(op, p, &x).unwrap();
    }
    assert_eq!(next, params.len());
    let direct = model.forward(&meta(&[1, 10], false)).unwrap();
    assert_eq!(x.shape(), direct.shape());
    assert_eq!(x.requires_grad(), direct.requires_grad());
}

#[test]
fn default_sequential_is_empty() {
    let model = Sequential::default();
    assert!(model.parameters().is_empty());
    assert!(model.plan().is_empty());
}
