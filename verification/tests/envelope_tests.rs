use cake_core::envelope::{pack, unpack, Envelope};
use cake_core::error::ProtocolError;
use cake_core::tensor::{Dtype, TensorData};

fn sample_tensor() -> TensorData {
    TensorData {
        dtype: Dtype::F32,
        shape: vec![2, 3],
        data: vec![
            1, 2, 3, 4, 5, 6, 7, 8, 9, 10, 11, 12, 13, 14, 15, 16, 17, 18, 19, 20, 21, 22, 23, 24,
        ],
    }
}

#[test]
fn round_trip_preserves_everything() {
    let env = Envelope {
        control: vec![7, 0, u64::MAX],
        payload: sample_tensor(),
    };
    let bytes = pack(&env);
    let back = unpack(&bytes).unwrap();
    assert_eq!(back.control, vec![7, 0, u64::MAX]);
    assert_eq!(back.payload.dtype, Dtype::F32);
    assert_eq!(back.payload.shape, vec![2, 3]);
    assert_eq!(back.payload.data, env.payload.data);
}

#[test]
fn round_trip_empty_control_and_scalar() {
    let env = Envelope {
        control: vec![],
        payload: TensorData { dtype: Dtype::U8, shape: vec![], data: vec![42] },
    };
    let bytes = pack(&env);
    let back = unpack(&bytes).unwrap();
    assert_eq!(back.control, Vec::<u64>::new());
    assert_eq!(back.payload.shape, Vec::<u64>::new());
    assert_eq!(back.payload.data, vec![42]);
    assert_eq!(back.payload.dtype, Dtype::U8);
}

#[test]
fn round_trip_empty_data() {
    let env = Envelope {
        control: vec![1],
        payload: TensorData { dtype: Dtype::I64, shape: vec![0], data: vec![] },
    };
    let bytes = pack(&env);
    let back = unpack(&bytes).unwrap();
    assert_eq!(back.payload.shape, vec![0]);
    assert!(back.payload.data.is_empty());
}

#[test]
fn unpack_rejects_short_buffer() {
    assert_eq!(unpack(&vec![]), Err(ProtocolError::Truncated));
    assert_eq!(unpack(&vec![0u8; 24]), Err(ProtocolError::Truncated));
}

#[test]
fn unpack_rejects_trailing_bytes() {
    let env = Envelope { control: vec![3], payload: sample_tensor() };
    let mut bytes = pack(&env);
    bytes.push(0);
    assert_eq!(unpack(&bytes), Err(ProtocolError::TrailingBytes));
}

#[test]
fn unpack_rejects_truncated_data() {
    let env = Envelope { control: vec![3], payload: sample_tensor() };
    let mut bytes = pack(&env);
    bytes.pop();
    assert_eq!(unpack(&bytes), Err(ProtocolError::Truncated));
}

#[test]
fn unpack_rejects_bad_dtype_tag() {
    let env = Envelope { control: vec![], payload: sample_tensor() };
    let mut bytes = pack(&env);
    // With no control values the tag byte sits right after the count.
    bytes[8] = 9;
    assert_eq!(unpack(&bytes), Err(ProtocolError::BadDtype));
}

#[test]
fn unpack_rejects_oversize_count() {
    let env = Envelope { control: vec![], payload: sample_tensor() };
    let mut bytes = pack(&env);
    for b in bytes.iter_mut().take(8) {
        *b = 0xff;
    }
    assert_eq!(unpack(&bytes), Err(ProtocolError::Oversize));
}

#[test]
fn pack_is_not_identity_on_payload() {
    // The frame must carry metadata besides the raw bytes.
    let env = Envelope {
        control: vec![],
        payload: TensorData { dtype: Dtype::U8, shape: vec![2], data: vec![5, 6] },
    };
    let bytes = pack(&env);
    assert!(bytes.len() > 2);
    assert_eq!(&bytes[bytes.len() - 2..], &[5, 6]);
}

#[test]
fn tensor_new_checks_length() {
    assert!(TensorData::new(Dtype::F32, vec![2, 2], vec![0; 16]).is_some());
    assert!(TensorData::new(Dtype::F32, vec![2, 2], vec![0; 15]).is_none());
    assert!(TensorData::new(Dtype::F16, vec![3], vec![0; 6]).is_some());
    assert!(TensorData::new(Dtype::U8, vec![], vec![0]).is_some());
    assert!(TensorData::new(Dtype::I64, vec![4, 0], vec![]).is_some());
    assert!(TensorData::new(Dtype::I64, vec![4, 0], vec![1]).is_none());
    assert!(TensorData::new(Dtype::U8, vec![u64::MAX, u64::MAX], vec![]).is_none());
}
