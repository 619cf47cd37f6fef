use sb_on_demand_client::bytes::{
    push_all, push_i128, push_le, read_array_32, read_array_64, read_i128, read_i64, read_le,
    read_u16, read_u32, read_u64,
};

#[test]
fn numbers_are_read_least_significant_byte_first() {
    let data: Vec<u8> = (1..=40).collect();
    assert_eq!(read_u16(&data, 0), 0x0201);
    assert_eq!(read_u32(&data, 1), 0x0504_0302);
    assert_eq!(read_u64(&data, 2), 0x0a09_0807_0605_0403);
    assert_eq!(read_le(&data, 0, 0), 0);
    assert_eq!(read_le(&data, 5, 1), 6);
    assert_eq!(read_le(&data, 0, 16), u128::from_le_bytes(data[..16].try_into().unwrap()));
    assert_eq!(read_le(&data, 24, 16), u128::from_le_bytes(data[24..40].try_into().unwrap()));
    assert_eq!(read_array_32(&data, 8).to_vec(), data[8..40].to_vec());
    let wide: Vec<u8> = (0..70).collect();
    assert_eq!(read_array_64(&wide, 6).to_vec(), wide[6..70].to_vec());
}

#[test]
fn signed_numbers_are_read_in_twos_complement() {
    for value in [0i64, 1, -1, 255, -256, i64::MAX, i64::MIN, 1_700_000_000] {
        let mut data = vec![9u8; 3];
        data.extend_from_slice(&value.to_le_bytes());
        assert_eq!(read_i64(&data, 3), value);
    }
    for value in [0i128, 1, -1, i128::MAX, i128::MIN, -1_000_000_000_000_000_000, 1 << 100] {
        let mut data = vec![9u8; 5];
        data.extend_from_slice(&value.to_le_bytes());
        assert_eq!(read_i128(&data, 5), value);
    }
}

#[test]
fn numbers_are_written_least_significant_byte_first() {
    let mut out = vec![0xaa];
    push_le(&mut out, 0x0102_0304, 4);
    assert_eq!(out, vec![0xaa, 4, 3, 2, 1]);
    push_le(&mut out, 0x1_0000_00ff, 2);
    assert_eq!(out, vec![0xaa, 4, 3, 2, 1, 0xff, 0]);
    push_le(&mut out, 7, 0);
    assert_eq!(out.len(), 7);
    let mut out = vec![];
    push_le(&mut out, u128::MAX, 16);
    assert_eq!(out, vec![0xff; 16]);
    let mut out = vec![];
    push_le(&mut out, 1, 20);
    assert_eq!(out.len(), 20);
    assert_eq!(out[0], 1);
    assert_eq!(out[16..], [0, 0, 0, 0]);
    for value in [0i128, 1, -1, i128::MAX, i128::MIN, -987_654_321, 1 << 90] {
        let mut out = vec![1, 2];
        push_i128(&mut out, value);
        assert_eq!(&out[..2], &[1, 2]);
        assert_eq!(&out[2..], &value.to_le_bytes());
    }
    let mut out = vec![1];
    push_all(&mut out, &[2, 3]);
    push_all(&mut out, &[]);
    assert_eq!(out, vec![1, 2, 3]);
}
