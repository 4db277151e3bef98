use ir_core::dtype::DType;
use ir_core::error::TensorError;
use ir_core::shape::Shape;

#[test]
fn test_size_in_bytes() {
    assert_eq!(DType::F32.size_in_bytes(), 4);
    assert_eq!(DType::F16.size_in_bytes(), 2);
    assert_eq!(DType::Q4_0.size_in_bytes(), 18);
    assert_eq!(DType::Q8_0.size_in_bytes(), 34);
}

#[test]
fn test_gguf_roundtrip() {
    for dtype in &[DType::F32, DType::F16, DType::Q4_0, DType::Q8_0] {
        let id = dtype.to_gguf_type();
        let back = DType::from_gguf_type(id).unwrap();
        assert_eq!(*dtype, back);
    }
}

#[test]
fn test_gguf_unknown() {
    assert!(DType::from_gguf_type(999).is_none());
}

#[test]
fn test_block_size() {
    assert_eq!(DType::F32.block_size(), 1);
    assert_eq!(DType::F16.block_size(), 1);
    assert_eq!(DType::Q4_0.block_size(), 32);
    assert_eq!(DType::Q8_0.block_size(), 32);
    assert!(DType::Q4_0.is_quantized());
    assert!(DType::Q8_0.is_quantized());
    assert!(!DType::F32.is_quantized());
    assert!(!DType::F16.is_quantized());
}

#[test]
fn test_basic_shape() {
    let s = Shape::new(vec![2, 3, 4]);
    assert_eq!(s.ndim(), 3);
    assert_eq!(s.numel(), 24);
    assert_eq!(s.dim(0), 2);
    assert_eq!(s.dim(1), 3);
    assert_eq!(s.dim(2), 4);
}

#[test]
fn test_strides() {
    let s = Shape::new(vec![2, 3, 4]);
    assert_eq!(s.strides(), vec![12, 4, 1]);
}

#[test]
fn test_is_contiguous() {
    let s = Shape::new(vec![2, 3, 4]);
    assert!(s.is_contiguous(&[12, 4, 1]));
    assert!(!s.is_contiguous(&[12, 1, 4]));
}

#[test]
fn test_scalar_shape() {
    let s = Shape::new(vec![]);
    assert_eq!(s.ndim(), 0);
    assert_eq!(s.numel(), 1); // product of empty = 1
    assert_eq!(s.strides(), vec![]);
}

#[test]
fn test_broadcast_same() {
    let a = Shape::new(vec![2, 3]);
    let b = Shape::new(vec![2, 3]);
    let c = Shape::broadcast_shape(&a, &b).unwrap();
    assert_eq!(c.dims(), &[2, 3]);
}

#[test]
fn test_broadcast_expand() {
    let a = Shape::new(vec![2, 1]);
    let b = Shape::new(vec![1, 3]);
    let c = Shape::broadcast_shape(&a, &b).unwrap();
    assert_eq!(c.dims(), &[2, 3]);
}

#[test]
fn test_broadcast_different_ndim() {
    let a = Shape::new(vec![3]);
    let b = Shape::new(vec![2, 3]);
    let c = Shape::broadcast_shape(&a, &b).unwrap();
    assert_eq!(c.dims(), &[2, 3]);
}

#[test]
fn test_broadcast_error() {
    let a = Shape::new(vec![2, 3]);
    let b = Shape::new(vec![2, 4]);
    assert!(Shape::broadcast_shape(&a, &b).is_err());
}

#[test]
fn test_broadcast_error_payload() {
    let a = Shape::new(vec![2, 3]);
    let b = Shape::new(vec![2, 4]);
    match Shape::broadcast_shape(&a, &b) {
        Err(TensorError::BroadcastError { a: ea, b: eb }) => {
            assert_eq!(ea, vec![2, 3]);
            assert_eq!(eb, vec![2, 4]);
        }
        other => panic!("expected a broadcast error, got {:?}", other),
    }
}

#[test]
fn test_broadcast_commutes() {
    let a = Shape::new(vec![4, 1, 3]);
    let b = Shape::new(vec![7, 1]);
    let ab = Shape::broadcast_shape(&a, &b).unwrap();
    let ba = Shape::broadcast_shape(&b, &a).unwrap();
    assert_eq!(ab.dims(), ba.dims());
    assert_eq!(ab.dims(), &[4, 7, 3]);
}

#[test]
fn test_broadcast_zero_dim() {
    let a = Shape::new(vec![1]);
    let b = Shape::new(vec![0]);
    let c = Shape::broadcast_shape(&a, &b).unwrap();
    assert_eq!(c.dims(), &[0]);
}

#[test]
fn test_shape_from_slice() {
    let s = Shape::from_slice(&[5, 6]);
    assert_eq!(s.dims(), &[5, 6]);
    assert_eq!(s.numel(), 30);
}

#[test]
fn test_checked_numel() {
    assert_eq!(Shape::new(vec![2, 3, 4]).checked_numel(), Some(24));
    assert_eq!(Shape::new(vec![]).checked_numel(), Some(1));
    // A zero dimension keeps every suffix product small.
    assert_eq!(Shape::new(vec![usize::MAX, 0]).checked_numel(), Some(0));
    // An overflowing product is rejected instead of wrapping.
    assert_eq!(Shape::new(vec![usize::MAX, 2]).checked_numel(), None);
}
