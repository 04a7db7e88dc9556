use pyutils::bytearray::{ByteArray, ByteArrayError, ByteSource};

fn from_bytes(bytes: &[u8]) -> ByteArray {
    ByteArray::new(ByteSource::Bytes(bytes.to_vec()))
}

#[test]
fn test_from_bytes() {
    let ba = ByteArray::new(ByteSource::Bytes(b"hello".to_vec()));
    assert_eq!(ba.to_bytes(), b"hello".to_vec());
}

#[test]
fn test_from_str() {
    let ba = ByteArray::new(ByteSource::Text(String::from("hello")));
    assert_eq!(ba.to_bytes(), b"hello".to_vec());
}

#[test]
fn test_to_bytes() {
    let ba = from_bytes(b"hello");
    let py_bytes = ba.to_bytes();
    assert_eq!(py_bytes, b"hello".to_vec());
}

#[test]
fn test_len() {
    let ba = from_bytes(b"hello");
    assert_eq!(ba.__len__(), 5);
}

#[test]
fn test_getitem() {
    let ba = from_bytes(b"hello");
    assert_eq!(ba.__getitem__(0).unwrap(), b'h');
    assert_eq!(ba.__getitem__(-1).unwrap(), b'o');
}

#[test]
fn test_add() {
    let ba1 = from_bytes(b"hel");
    let ba2 = from_bytes(b"lo");
    let result = ba1.__add__(&ba2);
    assert_eq!(result.to_bytes(), b"hello".to_vec());
}

#[test]
fn test_slice() {
    let ba = from_bytes(b"hello");
    let sliced = ba.slice(Some(1), Some(4), None).unwrap();
    assert_eq!(sliced.to_bytes(), b"ell".to_vec());
}

#[test]
fn test_from_bytearray_copies() {
    let original = from_bytes(b"hello");
    let copy = ByteArray::new(ByteSource::Array(original));
    assert_eq!(copy.to_bytes(), b"hello".to_vec());
}

#[test]
fn test_to_bytearray() {
    let ba = from_bytes(b"hello");
    let copy = ba.to_bytearray();
    assert_eq!(copy.to_bytes(), b"hello".to_vec());
    assert_eq!(ba.to_bytes(), b"hello".to_vec());
}

#[test]
fn test_repr_round_trip() {
    let ba = ByteArray::new(ByteSource::Text(String::from("hello")));
    let repr = ba.__repr__();
    assert!(repr.contains("hello"));
    assert_eq!(repr, "ByteArray('hello')");
}

#[test]
fn test_str_matches_repr() {
    let ba = from_bytes(b"hello");
    assert_eq!(ba.__str__(), ba.__repr__());
}

#[test]
fn test_repr_invalid_utf8() {
    let ba = from_bytes(&[255, 0, 104]);
    assert_eq!(ba.__repr__(), "ByteArray([255, 0, 104])");
}

#[test]
fn test_repr_empty() {
    let ba = from_bytes(b"");
    assert_eq!(ba.__repr__(), "ByteArray('')");
    assert_eq!(ba.__len__(), 0);
}

#[test]
fn test_add_mutates_neither_operand() {
    let ba1 = from_bytes(b"hel");
    let ba2 = from_bytes(b"lo");
    let result = ba1.__add__(&ba2);
    assert_eq!(result.to_bytes(), b"hello".to_vec());
    assert_eq!(ba1.to_bytes(), b"hel".to_vec());
    assert_eq!(ba2.to_bytes(), b"lo".to_vec());
}

#[test]
fn test_append_extends_in_place() {
    let mut ba1 = from_bytes(b"hel");
    let ba2 = from_bytes(b"lo");
    ba1.append(&ba2);
    assert_eq!(ba1.to_bytes(), b"hello".to_vec());
    assert_eq!(ba2.to_bytes(), b"lo".to_vec());
}

#[test]
fn test_getitem_out_of_range() {
    let ba = from_bytes(b"hello");
    assert_eq!(ba.__getitem__(5), Err(ByteArrayError::IndexError));
    assert_eq!(ba.__getitem__(-6), Err(ByteArrayError::IndexError));
    assert_eq!(ba.__getitem__(4), Ok(b'o'));
    assert_eq!(ba.__getitem__(-5), Ok(b'h'));
}

#[test]
fn test_getitem_empty() {
    let ba = from_bytes(b"");
    assert_eq!(ba.__getitem__(0), Err(ByteArrayError::IndexError));
    assert_eq!(ba.__getitem__(-1), Err(ByteArrayError::IndexError));
}

#[test]
fn test_slice_reverse() {
    let ba = from_bytes(b"hello");
    let sliced = ba.slice(None, None, Some(-1)).unwrap();
    assert_eq!(sliced.to_bytes(), b"olleh".to_vec());
}

#[test]
fn test_slice_zero_step_fails() {
    let ba = from_bytes(b"hello");
    assert!(matches!(
        ba.slice(Some(2), Some(3), Some(0)),
        Err(ByteArrayError::ValueError)
    ));
    assert!(matches!(
        ba.slice(None, None, Some(0)),
        Err(ByteArrayError::ValueError)
    ));
}

#[test]
fn test_slice_step_two() {
    let ba = from_bytes(b"hello");
    let sliced = ba.slice(None, None, Some(2)).unwrap();
    assert_eq!(sliced.to_bytes(), b"hlo".to_vec());
}

#[test]
fn test_slice_negative_start() {
    let ba = from_bytes(b"hello");
    let sliced = ba.slice(Some(-3), None, None).unwrap();
    assert_eq!(sliced.to_bytes(), b"llo".to_vec());
}

#[test]
fn test_slice_bounds_clamped() {
    let ba = from_bytes(b"hello");
    let sliced = ba.slice(Some(-100), Some(100), None).unwrap();
    assert_eq!(sliced.to_bytes(), b"hello".to_vec());
}

#[test]
fn test_slice_empty_range() {
    let ba = from_bytes(b"hello");
    let sliced = ba.slice(Some(3), Some(1), None).unwrap();
    assert_eq!(sliced.to_bytes(), Vec::<u8>::new());
}

#[test]
fn test_slice_negative_step_bounds() {
    let ba = from_bytes(b"hello");
    let sliced = ba.slice(Some(3), Some(0), Some(-1)).unwrap();
    assert_eq!(sliced.to_bytes(), b"lle".to_vec());
}

#[test]
fn test_slice_negative_step_two() {
    let ba = from_bytes(b"hello");
    let sliced = ba.slice(None, None, Some(-2)).unwrap();
    assert_eq!(sliced.to_bytes(), b"olh".to_vec());
}

#[test]
fn test_slice_of_empty() {
    let ba = from_bytes(b"");
    let sliced = ba.slice(None, None, None).unwrap();
    assert_eq!(sliced.to_bytes(), Vec::<u8>::new());
    let reversed = ba.slice(None, None, Some(-1)).unwrap();
    assert_eq!(reversed.to_bytes(), Vec::<u8>::new());
}

#[test]
fn test_error_messages() {
    assert_eq!(
        ByteArrayError::TypeError.message(),
        "Unsupported input type. Must be bytes, bytearray or str"
    );
    assert_eq!(ByteArrayError::IndexError.message(), "Index out of range");
    assert_eq!(
        ByteArrayError::ValueError.message(),
        "Slice step cannot be zero"
    );
}
