use md3::{Float32, Md3Error, Reader, Vec3};

fn name_field(text: &[u8], len: usize) -> Vec<u8> {
    let mut field = text.to_vec();
    field.resize(len, 0);
    field
}

#[test]
fn read_s32_is_little_endian() {
    let bytes = [0x49u8, 0x44, 0x50, 0x33, 0xff, 0xff, 0xff, 0xff];
    let mut reader = Reader::new(&bytes);
    assert_eq!(reader.read_s32(), Ok(0x33504449));
    assert_eq!(reader.position(), 4);
    assert_eq!(reader.read_s32(), Ok(-1));
    assert_eq!(reader.position(), 8);
    assert_eq!(reader.read_s32(), Err(Md3Error::UnexpectedEof));
    assert_eq!(reader.position(), 8);
}

#[test]
fn read_s32_reaches_both_ends_of_the_range() {
    let bytes = [0xffu8, 0xff, 0xff, 0x7f, 0x00, 0x00, 0x00, 0x80, 0x78, 0x56, 0x34, 0x12];
    let mut reader = Reader::new(&bytes);
    assert_eq!(reader.read_s32(), Ok(i32::MAX));
    assert_eq!(reader.read_s32(), Ok(i32::MIN));
    assert_eq!(reader.read_s32(), Ok(0x12345678));
}

#[test]
fn read_s32_needs_all_four_bytes() {
    let bytes = [1u8, 2, 3];
    let mut reader = Reader::new(&bytes);
    assert_eq!(reader.read_s32(), Err(Md3Error::UnexpectedEof));
    assert_eq!(reader.position(), 0);
    let empty: [u8; 0] = [];
    assert_eq!(Reader::new(&empty).read_s32(), Err(Md3Error::UnexpectedEof));
}

#[test]
fn read_s16_is_little_endian_and_signed() {
    let bytes = [0x34u8, 0x12, 0xff, 0xff, 0x00, 0x80, 0xff, 0x7f, 0x01];
    let mut reader = Reader::new(&bytes);
    assert_eq!(reader.read_s16(), Ok(0x1234));
    assert_eq!(reader.read_s16(), Ok(-1));
    assert_eq!(reader.read_s16(), Ok(i16::MIN));
    assert_eq!(reader.read_s16(), Ok(i16::MAX));
    assert_eq!(reader.position(), 8);
    assert_eq!(reader.read_s16(), Err(Md3Error::UnexpectedEof));
    assert_eq!(reader.position(), 8);
}

#[test]
fn read_f32_keeps_the_bits() {
    let mut bytes = Vec::new();
    bytes.extend_from_slice(&1.0f32.to_le_bytes());
    bytes.extend_from_slice(&(-2.5f32).to_le_bytes());
    bytes.extend_from_slice(&0x7fc0_0001u32.to_le_bytes());
    let mut reader = Reader::new(&bytes);
    let one = reader.read_f32().unwrap();
    assert_eq!(one, Float32 { bits: 0x3f80_0000 });
    assert_eq!(f32::from_bits(one.bits), 1.0);
    let other = reader.read_f32().unwrap();
    assert_eq!(f32::from_bits(other.bits), -2.5);
    let nan = reader.read_f32().unwrap();
    assert_eq!(nan.bits, 0x7fc0_0001);
    assert!(f32::from_bits(nan.bits).is_nan());
    assert_eq!(reader.position(), 12);
    assert_eq!(reader.read_f32(), Err(Md3Error::UnexpectedEof));
}

#[test]
fn read_vec3_reads_x_then_y_then_z() {
    let mut bytes = Vec::new();
    for v in [1.0f32, 2.0, 3.0] {
        bytes.extend_from_slice(&v.to_le_bytes());
    }
    let mut reader = Reader::new(&bytes);
    let v = reader.read_vec3().unwrap();
    assert_eq!(
        v,
        Vec3 {
            x: Float32 { bits: 1.0f32.to_bits() },
            y: Float32 { bits: 2.0f32.to_bits() },
            z: Float32 { bits: 3.0f32.to_bits() },
        }
    );
    assert_eq!(reader.position(), 12);
}

#[test]
fn read_vec3_that_fails_leaves_the_cursor() {
    let bytes = [0u8; 11];
    let mut reader = Reader::new(&bytes);
    assert_eq!(reader.read_vec3(), Err(Md3Error::UnexpectedEof));
    assert_eq!(reader.position(), 0);
    assert!(reader.read_f32().is_ok());
    assert_eq!(reader.position(), 4);
}

#[test]
fn read_string_stops_at_the_first_nul() {
    let mut field = name_field(b"models/rocket", 64);
    field.push(7);
    let mut reader = Reader::new(&field);
    assert_eq!(reader.read_string(64), Ok(String::from("models/rocket")));
    assert_eq!(reader.position(), 64);
}

#[test]
fn read_string_ignores_what_follows_the_nul() {
    let mut field = name_field(b"abc", 16);
    field[4] = b'x';
    field[5] = 0xff;
    field[6] = 0;
    field[15] = 0xc0;
    let mut reader = Reader::new(&field);
    let name = reader.read_string(16).unwrap();
    assert_eq!(name, "abc");
    assert_eq!(name.len(), 3);
    assert_eq!(reader.position(), 16);
}

#[test]
fn read_string_has_as_many_bytes_as_stand_before_the_nul() {
    for k in 0..16usize {
        let mut field = vec![b'a'; 16];
        field[k] = 0;
        let mut reader = Reader::new(&field);
        let name = reader.read_string(16).unwrap();
        assert_eq!(name.len(), k);
        assert_eq!(name.as_bytes(), &field[..k]);
    }
}

#[test]
fn read_string_without_a_nul_takes_the_whole_field() {
    let field = [b'q'; 16];
    let mut reader = Reader::new(&field);
    assert_eq!(reader.read_string(16), Ok(String::from("qqqqqqqqqqqqqqqq")));
}

#[test]
fn read_string_of_an_empty_name() {
    let field = [0u8, b'z', b'z', b'z'];
    let mut reader = Reader::new(&field);
    assert_eq!(reader.read_string(4), Ok(String::new()));
    assert_eq!(reader.position(), 4);
}

#[test]
fn read_string_of_no_bytes() {
    let field = [b'a', b'b'];
    let mut reader = Reader::new(&field);
    assert_eq!(reader.read_string(0), Ok(String::new()));
    assert_eq!(reader.position(), 0);
    reader.seek(2);
    assert_eq!(reader.read_string(0), Ok(String::new()));
    reader.seek(3);
    assert_eq!(reader.read_string(0), Err(Md3Error::UnexpectedEof));
}

#[test]
fn read_string_decodes_utf8() {
    let field = name_field("h\u{e9}llo \u{4e16}\u{754c} \u{1f600}".as_bytes(), 64);
    let mut reader = Reader::new(&field);
    let name = reader.read_string(64).unwrap();
    assert_eq!(name, "h\u{e9}llo \u{4e16}\u{754c} \u{1f600}");
    assert_eq!(name.len(), 18);
}

#[test]
fn read_string_refuses_bytes_that_are_not_text() {
    let field = name_field(&[b'a', 0xff, b'b'], 16);
    let mut reader = Reader::new(&field);
    assert_eq!(reader.read_string(16), Err(Md3Error::InvalidEncoding));
    assert_eq!(reader.position(), 0);
    let cut = name_field(&[b'a', 0xe4, 0xb8], 16);
    assert_eq!(Reader::new(&cut).read_string(16), Err(Md3Error::InvalidEncoding));
    let surrogate = name_field(&[0xed, 0xa0, 0x80], 16);
    assert_eq!(Reader::new(&surrogate).read_string(16), Err(Md3Error::InvalidEncoding));
    let overlong = name_field(&[0xc0, 0xaf], 16);
    assert_eq!(Reader::new(&overlong).read_string(16), Err(Md3Error::InvalidEncoding));
}

#[test]
fn read_string_needs_the_whole_field() {
    let field = name_field(b"abc", 63);
    let mut reader = Reader::new(&field);
    assert_eq!(reader.read_string(64), Err(Md3Error::UnexpectedEof));
    assert_eq!(reader.position(), 0);
    assert_eq!(reader.read_string(63), Ok(String::from("abc")));
}

#[test]
fn read_string_of_a_missing_field_is_eof_whatever_it_holds() {
    let field = [0xffu8; 15];
    let mut reader = Reader::new(&field);
    assert_eq!(reader.read_string(16), Err(Md3Error::UnexpectedEof));
}

#[test]
fn seek_moves_the_cursor_anywhere() {
    let bytes = [1u8, 0, 0, 0, 2, 0, 0, 0];
    let mut reader = Reader::new(&bytes);
    reader.seek(4);
    assert_eq!(reader.position(), 4);
    assert_eq!(reader.read_s32(), Ok(2));
    reader.seek(0);
    assert_eq!(reader.read_s32(), Ok(1));
    reader.seek(8);
    assert_eq!(reader.position(), 8);
    assert_eq!(reader.read_s32(), Err(Md3Error::UnexpectedEof));
    reader.seek(5);
    assert_eq!(reader.read_s32(), Err(Md3Error::UnexpectedEof));
    assert_eq!(reader.position(), 5);
}

#[test]
fn seek_out_of_range_fails_only_at_the_next_read() {
    let bytes = [1u8, 0, 0, 0];
    let mut reader = Reader::new(&bytes);
    reader.seek(-1);
    assert_eq!(reader.position(), -1);
    assert_eq!(reader.read_s32(), Err(Md3Error::UnexpectedEof));
    assert_eq!(reader.read_s16(), Err(Md3Error::UnexpectedEof));
    assert_eq!(reader.read_string(0), Err(Md3Error::UnexpectedEof));
    reader.seek(i64::MAX);
    assert_eq!(reader.position(), i64::MAX as i128);
    assert_eq!(reader.read_s32(), Err(Md3Error::UnexpectedEof));
    reader.seek(i64::MIN);
    assert_eq!(reader.read_s32(), Err(Md3Error::UnexpectedEof));
    reader.seek(0);
    assert_eq!(reader.read_s32(), Ok(1));
}

#[test]
fn seek_relative_counts_from_the_base() {
    let bytes = [0u8, 0, 0, 0, 5, 0, 6, 0, 7, 0];
    let mut reader = Reader::new(&bytes);
    reader.seek_relative(4, 2);
    assert_eq!(reader.position(), 6);
    assert_eq!(reader.read_s16(), Ok(6));
    reader.seek_relative(8, -4);
    assert_eq!(reader.position(), 4);
    assert_eq!(reader.read_s16(), Ok(5));
    reader.seek_relative(0, 8);
    assert_eq!(reader.read_s16(), Ok(7));
    reader.seek_relative(2, -3);
    assert_eq!(reader.position(), -1);
    assert_eq!(reader.read_s16(), Err(Md3Error::UnexpectedEof));
    reader.seek_relative(u64::MAX, i32::MAX);
    assert_eq!(reader.position(), u64::MAX as i128 + i32::MAX as i128);
    assert_eq!(reader.read_s16(), Err(Md3Error::UnexpectedEof));
    reader.seek_relative(0, i32::MIN);
    assert_eq!(reader.position(), i32::MIN as i128);
}

#[test]
fn a_reader_never_changes_its_buffer() {
    let bytes = vec![9u8, 8, 7, 6, 5, 4, 3, 2, 1, 0];
    let copy = bytes.clone();
    let mut reader = Reader::new(&bytes);
    let _ = reader.read_s32();
    let _ = reader.read_string(4);
    let _ = reader.read_s16();
    let _ = reader.read_s16();
    assert_eq!(bytes, copy);
}

#[test]
fn read_string_of_the_longest_field_is_eof() {
    let bytes = [b'a'; 8];
    let mut reader = Reader::new(&bytes);
    assert_eq!(reader.read_string(usize::MAX), Err(Md3Error::UnexpectedEof));
    assert_eq!(reader.read_string(9), Err(Md3Error::UnexpectedEof));
    assert_eq!(reader.position(), 0);
    assert_eq!(reader.read_string(8), Ok(String::from("aaaaaaaa")));
    assert_eq!(reader.position(), 8);
}
