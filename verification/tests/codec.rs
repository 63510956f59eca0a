use docstore::error::{Entity, Failure, FailureKind};
use docstore::vector_codec::{decode, encode};

fn bits(values: &[f32]) -> Vec<u32> {
    values.iter().map(|v| v.to_bits()).collect()
}

fn floats(bits: &[u32]) -> Vec<f32> {
    bits.iter().map(|b| f32::from_bits(*b)).collect()
}

#[test]
fn encode_writes_four_bytes_per_value_most_significant_first() {
    assert_eq!(encode(&vec![0x0102_0304]), vec![1, 2, 3, 4]);
    assert_eq!(
        encode(&vec![0, 1, 0xffff_ffff, 0x8000_0000]),
        vec![0, 0, 0, 0, 0, 0, 0, 1, 255, 255, 255, 255, 128, 0, 0, 0]
    );
}

#[test]
fn encode_of_nothing_is_nothing() {
    assert_eq!(encode(&vec![]), Vec::<u8>::new());
    assert_eq!(decode(&[]), Ok(vec![]));
}

#[test]
fn encode_agrees_with_the_bytes_of_a_float() {
    let values = [0.1f32, 0.2, 0.3, -1.5, 1.0e-40, f32::MAX];
    let mut expected: Vec<u8> = Vec::new();
    for v in values.iter() {
        expected.extend_from_slice(&v.to_be_bytes());
    }
    assert_eq!(encode(&bits(&values)), expected);
}

#[test]
fn encode_of_one_is_the_known_bytes() {
    assert_eq!(encode(&bits(&[1.0f32])), vec![0x3f, 0x80, 0x00, 0x00]);
}

#[test]
fn decode_reads_values_back() {
    assert_eq!(decode(&[1, 2, 3, 4, 0, 0, 0, 9]), Ok(vec![0x0102_0304, 9]));
    assert_eq!(floats(&decode(&[0x3f, 0x80, 0, 0]).unwrap()), vec![1.0f32]);
}

#[test]
fn decode_after_encode_gives_the_values_back() {
    let values = [0.1f32, 0.2, 0.3, 0.0, -0.0, f32::MIN_POSITIVE, f32::MAX, f32::MIN];
    let back = floats(&decode(&encode(&bits(&values))).unwrap());
    assert_eq!(back.len(), values.len());
    for (a, b) in back.iter().zip(values.iter()) {
        assert_eq!(a.to_bits(), b.to_bits());
    }
}

#[test]
fn decode_after_encode_keeps_the_bits_of_what_is_no_number() {
    let odd = vec![
        f32::NAN.to_bits(),
        0x7fc0_0001,
        0xffc1_2345,
        f32::INFINITY.to_bits(),
        f32::NEG_INFINITY.to_bits(),
    ];
    assert_eq!(decode(&encode(&odd)), Ok(odd));
}

#[test]
fn decode_refuses_a_length_that_is_no_multiple_of_four() {
    let malformed = Failure { kind: FailureKind::FormatError, entity: Entity::EmbeddingVector };
    assert_eq!(decode(&[1]), Err(malformed));
    assert_eq!(decode(&[1, 2]), Err(malformed));
    assert_eq!(decode(&[1, 2, 3]), Err(malformed));
    assert_eq!(decode(&[1, 2, 3, 4, 5]), Err(malformed));
    assert_eq!(decode(&[1, 2, 3, 4, 5, 6, 7]), Err(malformed));
}

#[test]
fn encode_after_decode_gives_the_bytes_back() {
    let bytes: Vec<u8> = (0..64u8).collect();
    assert_eq!(encode(&decode(&bytes).unwrap()), bytes);
}
