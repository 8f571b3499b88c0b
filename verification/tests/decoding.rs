use mesh::{BinaryDecoder, DecodeError, Facet, Mesh, StlFacet, Vector3D};

fn header(text: &str) -> Vec<u8> {
    let mut h = text.as_bytes().to_vec();
    h.resize(80, b'.');
    h
}

fn push_vector(out: &mut Vec<u8>, x: f32, y: f32, z: f32) {
    out.extend_from_slice(&x.to_le_bytes());
    out.extend_from_slice(&y.to_le_bytes());
    out.extend_from_slice(&z.to_le_bytes());
}

fn push_facet(out: &mut Vec<u8>, n: [f32; 3], v: [[f32; 3]; 3], abc: u16) {
    push_vector(out, n[0], n[1], n[2]);
    for p in v.iter() {
        push_vector(out, p[0], p[1], p[2]);
    }
    out.extend_from_slice(&abc.to_le_bytes());
}

fn vertex(x: f32, y: f32, z: f32) -> Vector3D {
    Vector3D::new(x.to_bits(), y.to_bits(), z.to_bits())
}

fn one_facet_file() -> Vec<u8> {
    let mut bytes = header("notsolid_header");
    bytes.extend_from_slice(&1u32.to_le_bytes());
    push_facet(
        &mut bytes,
        [0.0, 0.0, 1.0],
        [[0.0, 0.0, 0.0], [1.0, 0.0, 0.0], [0.0, 1.0, 0.0]],
        0,
    );
    bytes
}

fn two_facet_file() -> Vec<u8> {
    let mut bytes = header("notsolid_header");
    bytes.extend_from_slice(&2u32.to_le_bytes());
    push_facet(
        &mut bytes,
        [0.0, 0.0, 1.0],
        [[0.0, 0.0, 0.0], [1.0, 0.0, 0.0], [0.0, 1.0, 0.0]],
        0,
    );
    push_facet(
        &mut bytes,
        [0.0, 0.0, 1.0],
        [[0.0, 0.0, 0.0], [0.0, 1.0, 0.0], [0.0, 0.0, 1.0]],
        0,
    );
    bytes
}

fn decode(bytes: Vec<u8>) -> Mesh {
    assert!(Mesh::is_readable(&bytes));
    let mut r = BinaryDecoder::new(bytes);
    Mesh::read(&mut r)
}

#[test]
fn single_facet_decodes_to_three_vertices_in_order() {
    let mesh = decode(one_facet_file());
    assert_eq!(
        mesh.vertices(),
        &vec![vertex(0.0, 0.0, 0.0), vertex(1.0, 0.0, 0.0), vertex(0.0, 1.0, 0.0)]
    );
    assert_eq!(mesh.facets(), &vec![Facet { v1: 0, v2: 1, v3: 2 }]);
}

#[test]
fn repeated_vertex_is_shared_between_facets() {
    let mesh = decode(two_facet_file());
    assert_eq!(mesh.vertices().len(), 4);
    assert_eq!(
        mesh.vertices(),
        &vec![
            vertex(0.0, 0.0, 0.0),
            vertex(1.0, 0.0, 0.0),
            vertex(0.0, 1.0, 0.0),
            vertex(0.0, 0.0, 1.0)
        ]
    );
    assert_eq!(
        mesh.facets(),
        &vec![Facet { v1: 0, v2: 1, v3: 2 }, Facet { v1: 0, v2: 2, v3: 3 }]
    );
    assert_eq!(mesh.facets()[0].v1, mesh.facets()[1].v1);
}

#[test]
fn short_header_gives_empty_mesh() {
    let mesh = decode(vec![b'x'; 79]);
    assert_eq!(mesh.vertices().len(), 0);
    assert_eq!(mesh.facets().len(), 0);
}

#[test]
fn empty_input_gives_empty_mesh() {
    let mesh = decode(Vec::new());
    assert!(mesh.vertices().is_empty());
    assert!(mesh.facets().is_empty());
}

#[test]
fn ascii_header_gives_empty_mesh() {
    let mut bytes = header("solid cube");
    bytes.extend_from_slice(b"\n  facet normal 0 0 1\n");
    assert!(Mesh::is_readable(&bytes));
    let mut r = BinaryDecoder::new(bytes);
    let mesh = Mesh::read(&mut r);
    assert!(mesh.vertices().is_empty());
    assert!(mesh.facets().is_empty());
    assert_eq!(r.remaining(), 0);
}

#[test]
fn header_that_only_resembles_the_ascii_mark_is_binary() {
    let mut bytes = header("solid_not_ascii");
    bytes.extend_from_slice(&1u32.to_le_bytes());
    push_facet(
        &mut bytes,
        [0.0, 0.0, 1.0],
        [[0.0, 0.0, 0.0], [1.0, 0.0, 0.0], [0.0, 1.0, 0.0]],
        7,
    );
    let mesh = decode(bytes);
    assert_eq!(mesh.vertices().len(), 3);
    assert_eq!(mesh.facets().len(), 1);
}

#[test]
fn cut_facet_count_counts_as_zero() {
    let mut bytes = header("binary");
    bytes.extend_from_slice(&[1, 0]);
    assert!(Mesh::is_readable(&bytes));
    let mut r = BinaryDecoder::new(bytes);
    let mesh = Mesh::read(&mut r);
    assert!(mesh.vertices().is_empty());
    assert!(mesh.facets().is_empty());
    assert_eq!(r.remaining(), 0);
}

#[test]
fn declared_count_is_the_number_of_facets() {
    let mut bytes = header("binary");
    bytes.extend_from_slice(&5u32.to_le_bytes());
    for i in 0..5 {
        let d = i as f32;
        push_facet(
            &mut bytes,
            [0.0, 0.0, 1.0],
            [[d, 0.0, 0.0], [d + 1.0, 0.0, 0.0], [d, 1.0, 0.0]],
            i as u16,
        );
    }
    let mesh = decode(bytes);
    assert_eq!(mesh.facets().len(), 5);
}

#[test]
fn every_index_is_a_position_of_the_table() {
    let mut bytes = header("binary");
    bytes.extend_from_slice(&4u32.to_le_bytes());
    for i in 0..4 {
        let d = (i % 2) as f32;
        push_facet(
            &mut bytes,
            [0.0, 0.0, 1.0],
            [[d, 0.0, 0.0], [d, 2.0, 0.0], [0.0, d, 5.0]],
            0,
        );
    }
    let mesh = decode(bytes);
    let n = mesh.vertices().len();
    assert_eq!(n, 6);
    for f in mesh.facets().iter() {
        assert!(f.v1 < n && f.v2 < n && f.v3 < n);
    }
    assert_eq!(mesh.facets()[0], mesh.facets()[2]);
    assert_eq!(mesh.facets()[1], mesh.facets()[3]);
}

#[test]
fn bytes_behind_the_last_record_stay_unread() {
    let mut bytes = one_facet_file();
    bytes.extend_from_slice(&[9, 9, 9]);
    assert!(Mesh::is_readable(&bytes));
    let mut r = BinaryDecoder::new(bytes);
    let mesh = Mesh::read(&mut r);
    assert_eq!(mesh.facets().len(), 1);
    assert_eq!(r.remaining(), 3);
    assert_eq!(r.read_bytes(3), Ok(vec![9, 9, 9]));
}

#[test]
fn missing_record_is_not_readable() {
    let mut bytes = one_facet_file();
    bytes.pop();
    assert!(!Mesh::is_readable(&bytes));
    let mut short = header("binary");
    short.extend_from_slice(&2u32.to_le_bytes());
    push_facet(
        &mut short,
        [0.0, 0.0, 1.0],
        [[0.0, 0.0, 0.0], [1.0, 0.0, 0.0], [0.0, 1.0, 0.0]],
        0,
    );
    assert!(!Mesh::is_readable(&short));
    assert!(Mesh::is_readable(&one_facet_file()));
    assert!(Mesh::is_readable(&two_facet_file()));
}

#[test]
fn zero_facets_is_readable_and_empty() {
    let mut bytes = header("binary");
    bytes.extend_from_slice(&0u32.to_le_bytes());
    let mesh = decode(bytes);
    assert!(mesh.vertices().is_empty());
    assert!(mesh.facets().is_empty());
}

#[test]
fn negative_zero_and_zero_are_different_vertices() {
    let mut bytes = header("binary");
    bytes.extend_from_slice(&1u32.to_le_bytes());
    push_facet(
        &mut bytes,
        [0.0, 0.0, 1.0],
        [[0.0, 0.0, 0.0], [-0.0, 0.0, 0.0], [0.0, 0.0, 0.0]],
        0,
    );
    let mesh = decode(bytes);
    assert_eq!(mesh.vertices().len(), 2);
    assert_eq!(mesh.facets(), &vec![Facet { v1: 0, v2: 1, v3: 0 }]);
}

#[test]
fn nan_vertex_is_the_same_vertex_when_its_bits_agree() {
    let mut bytes = header("binary");
    bytes.extend_from_slice(&1u32.to_le_bytes());
    push_facet(
        &mut bytes,
        [0.0, 0.0, 1.0],
        [[f32::NAN, 0.0, 0.0], [f32::NAN, 0.0, 0.0], [1.0, 0.0, 0.0]],
        0,
    );
    let mesh = decode(bytes);
    assert_eq!(mesh.vertices().len(), 2);
    assert_eq!(mesh.facets(), &vec![Facet { v1: 0, v2: 0, v3: 1 }]);
}

#[test]
fn facet_record_is_read_field_by_field() {
    let mut bytes = Vec::new();
    push_facet(
        &mut bytes,
        [0.5, -1.0, 2.0],
        [[1.0, 2.0, 3.0], [4.0, 5.0, 6.0], [7.0, 8.0, 9.0]],
        0xBEEF,
    );
    bytes.push(0xAA);
    let mut r = BinaryDecoder::new(bytes);
    let f = StlFacet::read(&mut r);
    assert_eq!(
        f,
        StlFacet {
            n: vertex(0.5, -1.0, 2.0),
            v1: vertex(1.0, 2.0, 3.0),
            v2: vertex(4.0, 5.0, 6.0),
            v3: vertex(7.0, 8.0, 9.0),
            abc: 0xBEEF,
        }
    );
    assert_eq!(r.remaining(), 1);
}

#[test]
fn vector_is_three_little_endian_floats() {
    let mut bytes = Vec::new();
    push_vector(&mut bytes, 1.5, -2.25, 1.0e10);
    bytes.extend_from_slice(&[1, 2]);
    let mut r = BinaryDecoder::new(bytes);
    let v = Vector3D::read(&mut r);
    assert_eq!(f32::from_bits(v.x), 1.5);
    assert_eq!(f32::from_bits(v.y), -2.25);
    assert_eq!(f32::from_bits(v.z), 1.0e10);
    assert_eq!(r.remaining(), 2);
}

#[test]
fn vector_cut_short_is_the_nan_sentinel() {
    for len in 0..12 {
        let mut bytes = Vec::new();
        push_vector(&mut bytes, 1.0, 2.0, 3.0);
        bytes.truncate(len);
        let mut r = BinaryDecoder::new(bytes);
        let v = Vector3D::read(&mut r);
        assert_eq!(v, Vector3D::new(0x7fc0_0000, 0x7fc0_0000, 0x7fc0_0000));
        assert!(f32::from_bits(v.x).is_nan());
        assert!(f32::from_bits(v.y).is_nan());
        assert!(f32::from_bits(v.z).is_nan());
        assert_eq!(r.remaining(), 0);
        assert_eq!(r.read_u16(), Err(DecodeError::Truncated));
    }
}
