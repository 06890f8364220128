use md3::{
    Float32, Md3Error, Reader, Shader, Surface, SurfaceHeader, TexCoord, Triangle, Vertex,
};

fn put_i32(buf: &mut Vec<u8>, v: i32) {
    buf.extend_from_slice(&v.to_le_bytes());
}

fn put_name(buf: &mut Vec<u8>, text: &[u8], len: usize) {
    buf.extend_from_slice(text);
    for _ in text.len()..len {
        buf.push(0);
    }
}

fn write_at(buf: &mut Vec<u8>, at: usize, data: &[u8]) {
    if buf.len() < at + data.len() {
        buf.resize(at + data.len(), 0xcd);
    }
    buf[at..at + data.len()].copy_from_slice(data);
}

fn header_bytes(h: &SurfaceHeader) -> Vec<u8> {
    let mut buf = Vec::new();
    put_i32(&mut buf, h.ident);
    put_name(&mut buf, h.name.as_bytes(), 64);
    for v in [
        h.flags,
        h.num_frames,
        h.num_shaders,
        h.num_verts,
        h.num_triangles,
        h.ofs_triangles,
        h.ofs_shaders,
        h.ofs_st,
        h.ofs_xyznormal,
        h.ofs_end,
    ] {
        put_i32(&mut buf, v);
    }
    buf
}

fn write_surface(buf: &mut Vec<u8>, start: usize, s: &Surface) {
    let h = &s.header;
    write_at(buf, start, &header_bytes(h));
    let at = |ofs: i32| (start as i64 + ofs as i64) as usize;
    for (i, shader) in s.shaders.iter().enumerate() {
        let mut data = Vec::new();
        put_name(&mut data, shader.name.as_bytes(), 64);
        put_i32(&mut data, shader.shader_index);
        write_at(buf, at(h.ofs_shaders) + 68 * i, &data);
    }
    for (i, triangle) in s.triangles.iter().enumerate() {
        let mut data = Vec::new();
        for v in triangle.indexes {
            put_i32(&mut data, v);
        }
        write_at(buf, at(h.ofs_triangles) + 12 * i, &data);
    }
    for (i, tc) in s.tex_coords.iter().enumerate() {
        let mut data = Vec::new();
        data.extend_from_slice(&tc.st[0].bits.to_le_bytes());
        data.extend_from_slice(&tc.st[1].bits.to_le_bytes());
        write_at(buf, at(h.ofs_st) + 8 * i, &data);
    }
    let mut i = 0;
    for frame in &s.vertices {
        for v in frame {
            let mut data = Vec::new();
            for c in [v.x, v.y, v.z, v.normal] {
                data.extend_from_slice(&c.to_le_bytes());
            }
            write_at(buf, at(h.ofs_xyznormal) + 8 * i, &data);
            i += 1;
        }
    }
}

/// A surface of one shader, two triangles, three vertices and two frames,
/// packed behind its header: 108 + 24 + 68 + 24 + 48 = 272 bytes.
fn surface(name: &str, seed: i16) -> Surface {
    let row = |f: i16| {
        vec![
            Vertex { x: seed, y: f, z: 0, normal: 1 },
            Vertex { x: seed, y: f, z: 1, normal: 2 },
            Vertex { x: seed, y: f, z: 2, normal: 3 },
        ]
    };
    Surface {
        header: SurfaceHeader {
            ident: 0x33504449,
            name: String::from(name),
            flags: 0,
            num_frames: 2,
            num_shaders: 1,
            num_verts: 3,
            num_triangles: 2,
            ofs_triangles: 108,
            ofs_shaders: 132,
            ofs_st: 200,
            ofs_xyznormal: 224,
            ofs_end: 272,
        },
        shaders: vec![Shader { name: format!("{}.tga", name), shader_index: seed as i32 }],
        triangles: vec![Triangle { indexes: [0, 1, 2] }, Triangle { indexes: [2, 1, 0] }],
        tex_coords: vec![
            TexCoord { st: [Float32 { bits: 1 }, Float32 { bits: 2 }] },
            TexCoord { st: [Float32 { bits: 3 }, Float32 { bits: 4 }] },
            TexCoord { st: [Float32 { bits: 5 }, Float32 { bits: seed as u32 }] },
        ],
        vertices: vec![row(0), row(1)],
    }
}

#[test]
fn a_surface_is_read_from_where_the_cursor_stands() {
    let s = surface("torso", 9);
    let mut bytes = Vec::new();
    write_surface(&mut bytes, 40, &s);
    assert_eq!(bytes.len(), 40 + 272);
    let mut reader = Reader::new(&bytes);
    reader.seek(40);
    assert_eq!(reader.read_surface(), Ok(s));
    assert_eq!(reader.position(), 40 + 272);
}

#[test]
fn a_surface_ends_where_its_header_says() {
    for end in [0, 108, 272, 5000, -40, i32::MAX, i32::MIN] {
        let mut s = surface("legs", 1);
        s.header.ofs_end = end;
        let mut bytes = Vec::new();
        write_surface(&mut bytes, 40, &s);
        let mut reader = Reader::new(&bytes);
        reader.seek(40);
        assert_eq!(reader.read_surface(), Ok(s));
        assert_eq!(reader.position(), 40 + end as i128);
    }
}

#[test]
fn a_surface_that_fails_leaves_the_cursor() {
    let s = surface("head", 2);
    let mut bytes = Vec::new();
    write_surface(&mut bytes, 16, &s);
    for len in 0..bytes.len() {
        let mut reader = Reader::new(&bytes[..len]);
        reader.seek(16);
        assert_eq!(reader.read_surface(), Err(Md3Error::UnexpectedEof));
        assert_eq!(reader.position(), 16);
    }
}

#[test]
fn the_parts_of_a_surface_are_read_in_a_fixed_order() {
    let s = surface("arm", 3);
    let mut good = Vec::new();
    write_surface(&mut good, 0, &s);

    let mut bad_shader = good.clone();
    bad_shader[132] = 0xff;
    assert_eq!(Reader::new(&bad_shader).read_surface(), Err(Md3Error::InvalidEncoding));
    for field in [88usize, 96, 100] {
        let mut bytes = bad_shader.clone();
        bytes[field..field + 4].copy_from_slice(&i32::MAX.to_le_bytes());
        assert_eq!(Reader::new(&bytes).read_surface(), Err(Md3Error::InvalidEncoding));
    }

    let mut bad_name = bad_shader.clone();
    bad_name[4] = 0x80;
    bad_name[92..96].copy_from_slice(&(-1i32).to_le_bytes());
    assert_eq!(Reader::new(&bad_name).read_surface(), Err(Md3Error::InvalidEncoding));

    let mut no_shaders = bad_shader.clone();
    no_shaders[92..96].copy_from_slice(&i32::MAX.to_le_bytes());
    assert_eq!(Reader::new(&no_shaders).read_surface(), Err(Md3Error::UnexpectedEof));
}

#[test]
fn no_surfaces_are_read_without_a_read() {
    let bytes = [0u8; 4];
    let mut reader = Reader::new(&bytes);
    for at in [0i64, 4, 5, -1, 1 << 40] {
        reader.seek(at);
        assert_eq!(reader.read_surfaces(0), Ok(vec![]));
        assert_eq!(reader.position(), at as i128);
    }
}

#[test]
fn surfaces_are_read_one_behind_another() {
    let a = surface("a", 1);
    let mut b = surface("b", 2);
    b.header.ofs_end = 300;
    let c = surface("c", 3);
    let mut bytes = Vec::new();
    write_surface(&mut bytes, 8, &a);
    write_surface(&mut bytes, 8 + 272, &b);
    write_surface(&mut bytes, 8 + 272 + 300, &c);
    let mut reader = Reader::new(&bytes);
    reader.seek(8);
    let got = reader.read_surfaces(3).unwrap();
    assert_eq!(got, vec![surface("a", 1), b, surface("c", 3)]);
    assert_eq!(reader.position(), 8 + 272 + 300 + 272);
    reader.seek(8);
    assert_eq!(reader.read_surfaces(1).unwrap().len(), 1);
    assert_eq!(reader.position(), 8 + 272);
    assert_eq!(reader.read_surfaces(2).unwrap()[1], c);
}

#[test]
fn the_next_surface_may_stand_before_the_one_before() {
    let mut a = surface("late", 1);
    a.header.ofs_end = -272;
    let b = surface("early", 2);
    let mut bytes = Vec::new();
    write_surface(&mut bytes, 0, &b);
    write_surface(&mut bytes, 272, &a);
    let mut reader = Reader::new(&bytes);
    reader.seek(272);
    let got = reader.read_surfaces(2).unwrap();
    assert_eq!(got[0].header.name, "late");
    assert_eq!(got[1], b);
    assert_eq!(reader.position(), 272);
}

#[test]
fn surfaces_fail_with_the_first_that_fails() {
    let a = surface("a", 1);
    let b = surface("b", 2);
    let mut bytes = Vec::new();
    write_surface(&mut bytes, 0, &a);
    write_surface(&mut bytes, 272, &b);
    let mut reader = Reader::new(&bytes);
    assert_eq!(reader.read_surfaces(3), Err(Md3Error::UnexpectedEof));
    assert_eq!(reader.position(), 0);
    bytes[272 + 4] = 0xff;
    let mut reader = Reader::new(&bytes);
    assert_eq!(reader.read_surfaces(2), Err(Md3Error::InvalidEncoding));
    assert_eq!(reader.read_surfaces(1).unwrap().len(), 1);
    bytes[4] = 0xff;
    assert_eq!(Reader::new(&bytes[..300]).read_surfaces(2), Err(Md3Error::InvalidEncoding));
    assert_eq!(Reader::new(&bytes[..67]).read_surfaces(2), Err(Md3Error::UnexpectedEof));
}
