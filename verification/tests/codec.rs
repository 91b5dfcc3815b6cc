use local_memory::engine::bq::encode_bq;
use local_memory::engine::matryoshka::needs_scaling;
use local_memory::engine::matryoshka::slice_prefix;
use local_memory::engine::matryoshka::SliceError;
use local_memory::error::ErrorKind;

fn patterns(vector: &[f32]) -> Vec<u32> {
    vector.iter().map(|x| x.to_bits()).collect()
}

fn numbers(patterns: &[u32]) -> Vec<f32> {
    patterns.iter().map(|b| f32::from_bits(*b)).collect()
}

/// Cuts a vector to its prefix and divides the prefix by its norm, the way
/// a caller of the library does.
fn slice_vector(vec: &[f32], target_dim: usize) -> Result<Vec<f32>, SliceError> {
    let prefix = numbers(&slice_prefix(&patterns(vec), target_dim)?);
    let norm: f32 = prefix.iter().map(|&x| x * x).sum::<f32>().sqrt();
    if needs_scaling(norm.to_bits()) {
        Ok(prefix.iter().map(|&x| x / norm).collect())
    } else {
        Ok(prefix)
    }
}

fn bit(bytes: &[u8], i: usize) -> bool {
    (bytes[i / 8] >> (7 - (i % 8))) & 1 == 1
}

#[test]
fn test_encode_bq_basic() {
    let vec = vec![1.0, -1.0, 0.5, 0.0, -0.5, 2.0, -2.0, 0.1];
    let encoded = encode_bq(&patterns(&vec));
    assert_eq!(encoded, vec![0xA5]);
}

#[test]
fn test_encode_bq_padding() {
    let vec = vec![1.0, -1.0, 1.0];
    let encoded = encode_bq(&patterns(&vec));
    assert_eq!(encoded, vec![0xA0]);
}

#[test]
fn test_encode_bq_multiple_bytes() {
    let mut vec = vec![-1.0; 12];
    vec[0] = 1.0;
    vec[7] = 1.0;
    vec[8] = 1.0;
    let encoded = encode_bq(&patterns(&vec));
    assert_eq!(encoded, vec![0x81, 0x80]);
}

#[test]
fn encode_bq_of_nothing_is_empty() {
    let encoded = encode_bq(&[]);
    assert_eq!(encoded, Vec::<u8>::new());
}

#[test]
fn encode_bq_is_strict_about_zero() {
    let vec = vec![0.0, -0.0, f32::MIN_POSITIVE, -f32::MIN_POSITIVE, 1.0e-45, -1.0e-45, 0.0, 0.0];
    let encoded = encode_bq(&patterns(&vec));
    assert_eq!(encoded, vec![0b0010_1000]);
}

#[test]
fn encode_bq_of_infinities_and_nan() {
    let vec = vec![f32::INFINITY, f32::NEG_INFINITY, f32::NAN, -f32::NAN, f32::MAX, f32::MIN];
    let encoded = encode_bq(&patterns(&vec));
    assert_eq!(encoded, vec![0b1000_1000]);
}

#[test]
fn encode_bq_bit_is_set_where_component_is_positive() {
    let mut state: u32 = 0x2545_F491;
    for len in [1usize, 7, 8, 9, 15, 16, 17, 63, 64, 65, 768] {
        let mut vec = Vec::with_capacity(len);
        for _ in 0..len {
            state = state.wrapping_mul(1_664_525).wrapping_add(1_013_904_223);
            vec.push(((state >> 8) as f32 / 8_388_608.0) - 1.0);
        }
        let encoded = encode_bq(&patterns(&vec));
        assert_eq!(encoded.len(), (len + 7) / 8);
        for i in 0..len {
            assert_eq!(bit(&encoded, i), vec[i] > 0.0);
        }
        for i in len..8 * encoded.len() {
            assert!(!bit(&encoded, i));
        }
    }
}

#[test]
fn encode_bq_of_the_canonical_dimension() {
    let mut vec = vec![0.0f32; 768];
    vec[0] = 1.0;
    vec[767] = 1.0;
    let encoded = encode_bq(&patterns(&vec));
    assert_eq!(encoded.len(), 96);
    assert_eq!(encoded[0], 0x80);
    assert_eq!(encoded[95], 0x01);
    assert!(encoded[1..95].iter().all(|b| *b == 0));
}

#[test]
fn test_slice_vector_dimension() {
    let vec = vec![1.0, 2.0, 3.0, 4.0, 5.0];
    let sliced = slice_vector(&vec, 3).unwrap();
    assert_eq!(sliced.len(), 3);
}

#[test]
fn test_slice_vector_normalization() {
    let vec = vec![1.0, 1.0, 1.0, 1.0];
    let sliced = slice_vector(&vec, 2).unwrap();

    let expected_val = 1.0 / (2.0f32).sqrt();
    assert!((sliced[0] - expected_val).abs() < 1e-6);
    assert!((sliced[1] - expected_val).abs() < 1e-6);

    let norm: f32 = sliced.iter().map(|&x| x * x).sum::<f32>().sqrt();
    assert!((norm - 1.0).abs() < 1e-6);
}

#[test]
fn test_slice_vector_too_large() {
    let vec = vec![1.0, 2.0];
    let result = slice_vector(&vec, 3);
    assert!(result.is_err());
}

#[test]
fn test_slice_vector_zero_dim() {
    let vec = vec![1.0, 2.0];
    let result = slice_vector(&vec, 0);
    assert!(result.is_err());
}

#[test]
fn test_slice_vector_all_zeros() {
    let vec = vec![0.0, 0.0, 0.0];
    let sliced = slice_vector(&vec, 2).unwrap();
    assert_eq!(sliced, vec![0.0, 0.0]);
}

#[test]
fn slice_prefix_keeps_the_first_components() {
    let vec = patterns(&[1.0, 2.0, 3.0, 4.0, 5.0]);
    assert_eq!(slice_prefix(&vec, 3), Ok(patterns(&[1.0, 2.0, 3.0])));
    assert_eq!(slice_prefix(&vec, 5), Ok(vec.clone()));
    assert_eq!(slice_prefix(&vec, 1), Ok(patterns(&[1.0])));
}

#[test]
fn slice_prefix_names_its_objection() {
    let vec = patterns(&[1.0, 2.0]);
    assert_eq!(slice_prefix(&vec, 0), Err(SliceError::ZeroDimension));
    assert_eq!(slice_prefix(&vec, 3), Err(SliceError::TooLarge { target: 3, len: 2 }));
    assert_eq!(slice_prefix(&[], 0), Err(SliceError::ZeroDimension));
    assert_eq!(slice_prefix(&[], 1), Err(SliceError::TooLarge { target: 1, len: 0 }));
    assert_eq!(SliceError::ZeroDimension.kind(), ErrorKind::InvalidArgument);
    assert_eq!(SliceError::TooLarge { target: 3, len: 2 }.kind(), ErrorKind::InvalidArgument);
}

#[test]
fn needs_scaling_unless_the_norm_is_zero() {
    assert!(!needs_scaling(0.0f32.to_bits()));
    assert!(!needs_scaling((-0.0f32).to_bits()));
    assert!(needs_scaling(1.0f32.to_bits()));
    assert!(needs_scaling(f32::MIN_POSITIVE.to_bits()));
    assert!(needs_scaling(f32::NAN.to_bits()));
    assert!(needs_scaling(f32::INFINITY.to_bits()));
}

#[test]
fn sliced_prefix_has_unit_norm() {
    let mut state: u32 = 0x1234_5678;
    for m in [1usize, 2, 3, 16, 256] {
        let mut vec = Vec::with_capacity(768);
        for _ in 0..768 {
            state = state.wrapping_mul(1_664_525).wrapping_add(1_013_904_223);
            vec.push(((state >> 8) as f32 / 8_388_608.0) - 1.0);
        }
        let sliced = slice_vector(&vec, m).unwrap();
        assert_eq!(sliced.len(), m);
        let norm: f64 = sliced.iter().map(|&x| (x as f64) * (x as f64)).sum::<f64>().sqrt();
        assert!((norm - 1.0).abs() <= 1e-6);
    }
}
