use xiangqi_core::codec::{decode, encode, CodecError, Move};

#[test]
fn encode_corner_to_corner() {
    let m = encode("a0i9").unwrap();
    assert_eq!(m, Move { src_row: 0, src_col: 0, dst_row: 9, dst_col: 8 });
}

#[test]
fn encode_rejects_malformed_text() {
    assert_eq!(encode("a0i"), Err(CodecError::InvalidNotation));
    assert_eq!(encode("a0i99"), Err(CodecError::InvalidNotation));
    assert_eq!(encode("j0a1"), Err(CodecError::InvalidNotation));
    assert_eq!(encode("a0aa"), Err(CodecError::InvalidNotation));
    assert_eq!(encode(""), Err(CodecError::InvalidNotation));
}

#[test]
fn decode_writes_column_then_row() {
    let m = Move { src_row: 2, src_col: 3, dst_row: 4, dst_col: 4 };
    assert_eq!(decode(&m), "d2e4");
}

#[test]
fn decode_encode_round_trip_everywhere() {
    let cols = ['a', 'b', 'c', 'd', 'e', 'f', 'g', 'h', 'i'];
    for sr in 0..10u32 {
        for sc in 0..9usize {
            let s = format!("{}{}e5", cols[sc], sr);
            let m = encode(&s).unwrap();
            assert_eq!(decode(&m), s);
        }
    }
}

#[test]
fn new_refuses_cells_off_the_board() {
    assert_eq!(Move::new(0, 0, 9, 8), Ok(Move { src_row: 0, src_col: 0, dst_row: 9, dst_col: 8 }));
    assert_eq!(Move::new(10, 0, 9, 8), Err(CodecError::OutOfBounds));
    assert_eq!(Move::new(0, 9, 9, 8), Err(CodecError::OutOfBounds));
    assert_eq!(Move::new(0, 0, 9, 9), Err(CodecError::OutOfBounds));
}
