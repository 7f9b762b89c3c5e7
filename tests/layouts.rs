use llm_from_scratch::tensor::can_broadcast;
use llm_from_scratch::{ShapeError, TensorMeta};

fn meta(shape: &[usize], requires_grad: bool) -> TensorMeta {
    TensorMeta::new(shape.to_vec(), requires_grad)
}

#[test]
fn new_keeps_shape_and_flag() {
    let t = meta(&[2, 3], false);
    assert_eq!(t.shape(), &[2, 3]);
    assert!(!t.requires_grad());
    assert!(meta(&[4], true).requires_grad());
}

#[test]
fn add_keeps_shape_and_ors_flags() {
    for (fa, fb) in [(false, false), (false, true), (true, false), (true, true)] {
        let c = meta(&[2, 2], fa).add(&meta(&[2, 2], fb)).unwrap();
        assert_eq!(c.shape(), &[2, 2]);
        assert_eq!(c.requires_grad(), fa || fb);
    }
}

#[test]
fn mul_keeps_shape_and_ors_flags() {
    let c = meta(&[3, 1], true).mul(&meta(&[3, 1], false)).unwrap();
    assert_eq!(c.shape(), &[3, 1]);
    assert!(c.requires_grad());
}

#[test]
fn add_broadcasts_trailing_shape() {
    let c = meta(&[5, 3], false).add(&meta(&[3], true)).unwrap();
    assert_eq!(c.shape(), &[5, 3]);
    assert!(c.requires_grad());
}

#[test]
fn add_rejects_mismatched_shapes() {
    match meta(&[2, 3], false).add(&meta(&[3, 2], false)) {
        Err(ShapeError::ShapeMismatch { left, right }) => {
            assert_eq!(left, vec![2, 3]);
            assert_eq!(right, vec![3, 2]);
        }
        Ok(_) => panic!("expected a shape mismatch"),
    }
    assert!(meta(&[3], false).mul(&meta(&[2, 3], false)).is_err());
}

#[test]
fn broadcast_rule() {
    assert!(can_broadcast(&vec![4, 2, 3], &vec![2, 3]));
    assert!(can_broadcast(&vec![4, 2, 3], &vec![]));
    assert!(can_broadcast(&vec![2, 3], &vec![2, 3]));
    assert!(!can_broadcast(&vec![2, 3], &vec![2]));
    assert!(!can_broadcast(&vec![3], &vec![1, 3]));
}

#[test]
fn matmul_shapes() {
    let c = meta(&[2, 3], false).matmul(&meta(&[3, 4], false)).unwrap();
    assert_eq!(c.shape(), &[2, 4]);
    assert!(!c.requires_grad());
    let d = meta(&[1, 3], false).matmul(&meta(&[3, 2], true)).unwrap();
    assert!(d.requires_grad());
}

#[test]
fn matmul_rejects_bad_shapes() {
    match meta(&[2, 3], false).matmul(&meta(&[4, 2], false)) {
        Err(ShapeError::ShapeMismatch { left, right }) => {
            assert_eq!(left, vec![2, 3]);
            assert_eq!(right, vec![4, 2]);
        }
        Ok(_) => panic!("expected a shape mismatch"),
    }
    assert!(meta(&[3], false).matmul(&meta(&[3, 2], false)).is_err());
}

#[test]
fn relu_is_idempotent_on_layouts() {
    let x = meta(&[2, 5], true);
    let once = x.relu();
    let twice = once.relu();
    assert_eq!(once.shape(), x.shape());
    assert_eq!(twice.shape(), once.shape());
    assert_eq!(twice.requires_grad(), once.requires_grad());
    assert!(once.requires_grad());
}

#[test]
fn scalar_ops_keep_layout() {
    let x = meta(&[2, 2], false);
    let y = x.scalar();
    assert_eq!(y.shape(), &[2, 2]);
    assert!(!y.requires_grad());
}

#[test]
fn element_counts() {
    assert_eq!(meta(&[2, 3], false).num_elements(), Some(6));
    assert_eq!(meta(&[], false).num_elements(), Some(1));
    assert_eq!(meta(&[4, 0, 7], false).num_elements(), Some(0));
    assert_eq!(meta(&[usize::MAX, 2], false).num_elements(), None);
    assert_eq!(meta(&[usize::MAX, 2, 0], false).num_elements(), Some(0));
    assert_eq!(meta(&[usize::MAX, 1], false).num_elements(), Some(usize::MAX));
}
