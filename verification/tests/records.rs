use md3::{
    Float32, Frame, Md3Error, Md3Header, Reader, Record, Shader, SurfaceHeader, Tag, TexCoord,
    Triangle, Vec3, Vertex,
};

fn put_i16(buf: &mut Vec<u8>, v: i16) {
    buf.extend_from_slice(&v.to_le_bytes());
}

fn put_i32(buf: &mut Vec<u8>, v: i32) {
    buf.extend_from_slice(&v.to_le_bytes());
}

fn put_f32(buf: &mut Vec<u8>, v: f32) {
    buf.extend_from_slice(&v.to_le_bytes());
}

fn put_vec3(buf: &mut Vec<u8>, v: [f32; 3]) {
    for c in v {
        put_f32(buf, c);
    }
}

fn put_name(buf: &mut Vec<u8>, text: &[u8], len: usize) {
    assert!(text.len() <= len);
    buf.extend_from_slice(text);
    for _ in text.len()..len {
        buf.push(0);
    }
}

fn float(v: f32) -> Float32 {
    Float32 { bits: v.to_bits() }
}

fn vec3(v: [f32; 3]) -> Vec3 {
    Vec3 { x: float(v[0]), y: float(v[1]), z: float(v[2]) }
}

fn md3_header_bytes(name: &[u8]) -> Vec<u8> {
    let mut buf = Vec::new();
    put_i32(&mut buf, 0x33504449);
    put_i32(&mut buf, 15);
    put_name(&mut buf, name, 64);
    for v in [1, 2, 3, 4, 5, 108, 220, 556, 1000] {
        put_i32(&mut buf, v);
    }
    buf
}

fn surface_header_bytes(name: &[u8]) -> Vec<u8> {
    let mut buf = Vec::new();
    put_i32(&mut buf, 0x33504449);
    put_name(&mut buf, name, 64);
    for v in [-7, 1, 2, 3, 4, 108, 120, 256, 280, 304] {
        put_i32(&mut buf, v);
    }
    buf
}

fn frame_bytes(name: &[u8]) -> Vec<u8> {
    let mut buf = Vec::new();
    put_vec3(&mut buf, [-1.0, -2.0, -3.0]);
    put_vec3(&mut buf, [1.0, 2.0, 3.0]);
    put_vec3(&mut buf, [0.5, 0.25, 0.125]);
    put_f32(&mut buf, 3.75);
    put_name(&mut buf, name, 16);
    buf
}

fn tag_bytes(name: &[u8]) -> Vec<u8> {
    let mut buf = Vec::new();
    put_name(&mut buf, name, 64);
    put_vec3(&mut buf, [10.0, 20.0, 30.0]);
    put_vec3(&mut buf, [1.0, 0.0, 0.0]);
    put_vec3(&mut buf, [0.0, 1.0, 0.0]);
    put_vec3(&mut buf, [0.0, 0.0, 1.0]);
    buf
}

#[test]
fn the_file_header_is_108_bytes_in_field_order() {
    let mut bytes = md3_header_bytes(b"models/weapons2/rocketl");
    assert_eq!(bytes.len(), 108);
    bytes.push(0xaa);
    let mut reader = Reader::new(&bytes);
    let header = reader.read_md3_header().unwrap();
    assert_eq!(
        header,
        Md3Header {
            ident: 0x33504449,
            version: 15,
            name: String::from("models/weapons2/rocketl"),
            flags: 1,
            num_frames: 2,
            num_tags: 3,
            num_surfaces: 4,
            num_skins: 5,
            ofs_frames: 108,
            ofs_tags: 220,
            ofs_surfaces: 556,
            ofs_eof: 1000,
        }
    );
    assert_eq!(reader.position(), 108);
}

#[test]
fn the_file_header_is_read_wherever_the_cursor_stands() {
    let mut bytes = vec![0xeeu8; 5];
    bytes.extend_from_slice(&md3_header_bytes(b"x"));
    let mut reader = Reader::new(&bytes);
    reader.seek(5);
    let header = reader.read_md3_header().unwrap();
    assert_eq!(header.name, "x");
    assert_eq!(header.ofs_eof, 1000);
    assert_eq!(reader.position(), 113);
}

#[test]
fn the_file_header_takes_any_signature_and_value() {
    let mut bytes = Vec::new();
    put_i32(&mut bytes, 0);
    put_i32(&mut bytes, -1);
    put_name(&mut bytes, b"", 64);
    for v in [i32::MIN, -1, -2, -3, -4, -5, -6, -7, i32::MAX] {
        put_i32(&mut bytes, v);
    }
    let header = Reader::new(&bytes).read_md3_header().unwrap();
    assert_eq!(header.ident, 0);
    assert_eq!(header.version, -1);
    assert_eq!(header.name, "");
    assert_eq!(header.flags, i32::MIN);
    assert_eq!(header.num_frames, -1);
    assert_eq!(header.ofs_surfaces, -7);
    assert_eq!(header.ofs_eof, i32::MAX);
}

#[test]
fn a_file_header_cut_short_is_eof_at_every_length() {
    let bytes = md3_header_bytes(b"m");
    for len in 0..108usize {
        let mut reader = Reader::new(&bytes[..len]);
        assert_eq!(reader.read_md3_header(), Err(Md3Error::UnexpectedEof));
        assert_eq!(reader.position(), 0);
    }
    assert!(Reader::new(&bytes).read_md3_header().is_ok());
}

#[test]
fn a_bad_name_counts_once_the_name_is_all_there() {
    let bytes = md3_header_bytes(&[0xff, 0xfe]);
    for len in 0..72usize {
        assert_eq!(Reader::new(&bytes[..len]).read_md3_header(), Err(Md3Error::UnexpectedEof));
    }
    for len in 72..=108usize {
        let mut reader = Reader::new(&bytes[..len]);
        assert_eq!(reader.read_md3_header(), Err(Md3Error::InvalidEncoding));
        assert_eq!(reader.position(), 0);
    }
}

#[test]
fn a_frame_is_56_bytes_in_field_order() {
    let bytes = frame_bytes(b"idle01");
    assert_eq!(bytes.len(), 56);
    let mut reader = Reader::new(&bytes);
    let frame = reader.read_frame().unwrap();
    assert_eq!(
        frame,
        Frame {
            min_bounds: vec3([-1.0, -2.0, -3.0]),
            max_bounds: vec3([1.0, 2.0, 3.0]),
            local_origin: vec3([0.5, 0.25, 0.125]),
            radius: float(3.75),
            name: String::from("idle01"),
        }
    );
    assert_eq!(f32::from_bits(frame.radius.bits), 3.75);
    assert_eq!(f32::from_bits(frame.min_bounds.y.bits), -2.0);
    assert_eq!(reader.position(), 56);
}

#[test]
fn a_frame_name_has_sixteen_bytes() {
    let bytes = frame_bytes(b"0123456789abcdef");
    let frame = Reader::new(&bytes).read_frame().unwrap();
    assert_eq!(frame.name, "0123456789abcdef");
}

#[test]
fn a_frame_cut_short_is_eof_even_with_a_bad_name() {
    let bytes = frame_bytes(&[0x80]);
    for len in 0..56usize {
        let mut reader = Reader::new(&bytes[..len]);
        assert_eq!(reader.read_frame(), Err(Md3Error::UnexpectedEof));
        assert_eq!(reader.position(), 0);
    }
    assert_eq!(Reader::new(&bytes).read_frame(), Err(Md3Error::InvalidEncoding));
}

#[test]
fn a_tag_is_112_bytes_in_field_order() {
    let bytes = tag_bytes(b"tag_weapon");
    assert_eq!(bytes.len(), 112);
    let mut reader = Reader::new(&bytes);
    let tag = reader.read_tag().unwrap();
    assert_eq!(
        tag,
        Tag {
            name: String::from("tag_weapon"),
            origin: vec3([10.0, 20.0, 30.0]),
            axis: [vec3([1.0, 0.0, 0.0]), vec3([0.0, 1.0, 0.0]), vec3([0.0, 0.0, 1.0])],
        }
    );
    assert_eq!(reader.position(), 112);
}

#[test]
fn a_tag_with_a_bad_name_fails_once_the_name_is_all_there() {
    let bytes = tag_bytes(&[b't', 0xc3]);
    for len in 0..64usize {
        assert_eq!(Reader::new(&bytes[..len]).read_tag(), Err(Md3Error::UnexpectedEof));
    }
    for len in 64..=112usize {
        assert_eq!(Reader::new(&bytes[..len]).read_tag(), Err(Md3Error::InvalidEncoding));
    }
    let good = tag_bytes(b"t");
    for len in 64..112usize {
        assert_eq!(Reader::new(&good[..len]).read_tag(), Err(Md3Error::UnexpectedEof));
    }
}

#[test]
fn a_surface_header_is_108_bytes_in_field_order() {
    let bytes = surface_header_bytes(b"w_rocket");
    assert_eq!(bytes.len(), 108);
    let mut reader = Reader::new(&bytes);
    let header = reader.read_surface_header().unwrap();
    assert_eq!(
        header,
        SurfaceHeader {
            ident: 0x33504449,
            name: String::from("w_rocket"),
            flags: -7,
            num_frames: 1,
            num_shaders: 2,
            num_verts: 3,
            num_triangles: 4,
            ofs_triangles: 108,
            ofs_shaders: 120,
            ofs_st: 256,
            ofs_xyznormal: 280,
            ofs_end: 304,
        }
    );
    assert_eq!(reader.position(), 108);
}

#[test]
fn a_surface_header_cut_short_is_eof() {
    let bytes = surface_header_bytes(b"s");
    for len in 0..108usize {
        let mut reader = Reader::new(&bytes[..len]);
        assert_eq!(reader.read_surface_header(), Err(Md3Error::UnexpectedEof));
        assert_eq!(reader.position(), 0);
    }
    let bad = surface_header_bytes(&[0xf8]);
    for len in 0..68usize {
        assert_eq!(
            Reader::new(&bad[..len]).read_surface_header(),
            Err(Md3Error::UnexpectedEof)
        );
    }
    for len in 68..=108usize {
        assert_eq!(
            Reader::new(&bad[..len]).read_surface_header(),
            Err(Md3Error::InvalidEncoding)
        );
    }
}

#[test]
fn a_shader_is_68_bytes() {
    let mut bytes = Vec::new();
    put_name(&mut bytes, b"models/weapons2/rocketl/rocketl.tga", 64);
    put_i32(&mut bytes, 42);
    assert_eq!(bytes.len(), 68);
    let mut reader = Reader::new(&bytes);
    assert_eq!(
        reader.read_shader(),
        Ok(Shader { name: String::from("models/weapons2/rocketl/rocketl.tga"), shader_index: 42 })
    );
    assert_eq!(reader.position(), 68);
    assert_eq!(Reader::new(&bytes[..67]).read_shader(), Err(Md3Error::UnexpectedEof));
    assert_eq!(Reader::new(&bytes[..63]).read_shader(), Err(Md3Error::UnexpectedEof));
}

#[test]
fn a_triangle_is_three_integers() {
    let mut bytes = Vec::new();
    for v in [7, -8, 9] {
        put_i32(&mut bytes, v);
    }
    let mut reader = Reader::new(&bytes);
    assert_eq!(reader.read_triangle(), Ok(Triangle { indexes: [7, -8, 9] }));
    assert_eq!(reader.position(), 12);
    let mut short = Reader::new(&bytes[..11]);
    assert_eq!(short.read_triangle(), Err(Md3Error::UnexpectedEof));
    assert_eq!(short.position(), 0);
}

#[test]
fn a_texture_coordinate_is_s_then_t() {
    let mut bytes = Vec::new();
    put_f32(&mut bytes, 0.25);
    put_f32(&mut bytes, 0.75);
    let mut reader = Reader::new(&bytes);
    let tc = reader.read_tex_coord().unwrap();
    assert_eq!(tc, TexCoord { st: [float(0.25), float(0.75)] });
    assert_eq!(f32::from_bits(tc.st[0].bits), 0.25);
    assert_eq!(f32::from_bits(tc.st[1].bits), 0.75);
    assert_eq!(reader.position(), 8);
    assert_eq!(Reader::new(&bytes[..7]).read_tex_coord(), Err(Md3Error::UnexpectedEof));
}

#[test]
fn a_vertex_is_four_short_integers() {
    let mut bytes = Vec::new();
    for v in [100i16, -200, 300, -32768] {
        put_i16(&mut bytes, v);
    }
    let mut reader = Reader::new(&bytes);
    assert_eq!(reader.read_vertex(), Ok(Vertex { x: 100, y: -200, z: 300, normal: -32768 }));
    assert_eq!(reader.position(), 8);
    let mut short = Reader::new(&bytes[..7]);
    assert_eq!(short.read_vertex(), Err(Md3Error::UnexpectedEof));
    assert_eq!(short.position(), 0);
}

#[test]
fn each_record_kind_reads_as_its_decoder_does() {
    let frame = frame_bytes(b"f");
    assert_eq!(Frame::read(&mut Reader::new(&frame)), Reader::new(&frame).read_frame());
    let tag = tag_bytes(b"t");
    assert_eq!(Tag::read(&mut Reader::new(&tag)), Reader::new(&tag).read_tag());
    let mut shader = Vec::new();
    put_name(&mut shader, b"s", 64);
    put_i32(&mut shader, 1);
    assert_eq!(Shader::read(&mut Reader::new(&shader)), Reader::new(&shader).read_shader());
    let mut twelve = Vec::new();
    for v in [1, 2, 3] {
        put_i32(&mut twelve, v);
    }
    assert_eq!(Triangle::read(&mut Reader::new(&twelve)), Ok(Triangle { indexes: [1, 2, 3] }));
    let mut reader = Reader::new(&twelve);
    assert_eq!(
        TexCoord::read(&mut reader),
        Ok(TexCoord { st: [Float32 { bits: 1 }, Float32 { bits: 2 }] })
    );
    assert_eq!(reader.position(), 8);
    reader.seek(2);
    assert_eq!(Vertex::read(&mut reader), Ok(Vertex { x: 0, y: 2, z: 0, normal: 3 }));
    assert_eq!(reader.position(), 10);
    assert_eq!(Vertex::read(&mut reader), Err(Md3Error::UnexpectedEof));
    assert_eq!(reader.position(), 10);
}
