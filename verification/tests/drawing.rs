use vertex_batch::batch::{build, BatchSection};
use vertex_batch::colored::{CKey, CVertex};
use vertex_batch::descriptor::ColorWrites;
use vertex_batch::draw::Drawer;
use vertex_batch::vertex::Request;

fn vertex(x: f32, y: f32, color: [f32; 4]) -> CVertex {
    CVertex {
        position: [x.to_bits(), y.to_bits()],
        color: [color[0].to_bits(), color[1].to_bits(), color[2].to_bits(), color[3].to_bits()],
    }
}

const RED: [f32; 4] = [1.0, 0.0, 0.0, 1.0];
const BLUE: [f32; 4] = [0.0, 0.0, 1.0, 0.5];

#[test]
fn quad_is_two_triangles() {
    let corners = [
        vertex(-1.0, -1.0, RED),
        vertex(1.0, -1.0, RED),
        vertex(1.0, 1.0, BLUE),
        vertex(-1.0, 1.0, BLUE),
    ];
    let mut requests: Vec<Request<CVertex>> = Vec::new();
    let mut drawer = Drawer::new(&mut requests);
    drawer.quad(CKey::default(), 7, corners);
    assert_eq!(requests.len(), 1);
    assert_eq!(requests[0].layer, 7);
    assert_eq!(requests[0].key, CKey::default());
    assert_eq!(requests[0].vertices, corners.to_vec());
    assert_eq!(requests[0].indices, vec![0, 1, 2, 2, 3, 0]);
    assert!(requests[0].is_well_formed());
}

#[test]
fn tri_is_one_triangle() {
    let corners = [vertex(0.0, 0.0, RED), vertex(2.0, 0.0, RED), vertex(1.0, 3.0, BLUE)];
    let key = CKey { mask: ColorWrites { bits: 7 }, blend: None };
    let mut requests: Vec<Request<CVertex>> = Vec::new();
    let mut drawer = Drawer::new(&mut requests);
    drawer.tri(key, -2, corners);
    assert_eq!(requests.len(), 1);
    assert_eq!(requests[0].layer, -2);
    assert_eq!(requests[0].key, key);
    assert_eq!(requests[0].vertices, corners.to_vec());
    assert_eq!(requests[0].indices, vec![0, 1, 2]);
    assert!(requests[0].is_well_formed());
}

#[test]
fn drawn_shapes_are_batched() {
    let quad = [
        vertex(-1.0, -1.0, RED),
        vertex(1.0, -1.0, RED),
        vertex(1.0, 1.0, BLUE),
        vertex(-1.0, 1.0, BLUE),
    ];
    let tri = [vertex(0.0, 0.0, RED), vertex(2.0, 0.0, RED), vertex(1.0, 3.0, BLUE)];
    let other = CKey { mask: ColorWrites { bits: 7 }, blend: None };
    let mut requests: Vec<Request<CVertex>> = Vec::new();
    let mut drawer = Drawer::new(&mut requests);
    drawer.quad(CKey::default(), 1, quad);
    drawer.tri(CKey::default(), 0, tri);
    drawer.tri(other, 1, tri);
    assert_eq!(requests.len(), 3);
    let (batch, sections) = build(requests);
    assert_eq!(
        sections,
        vec![
            (BatchSection { start: 0, end: 9 }, CKey::default()),
            (BatchSection { start: 9, end: 12 }, other),
        ]
    );
    assert_eq!(batch.indices, vec![0, 1, 2, 3, 4, 5, 5, 6, 3, 7, 8, 9]);
    assert_eq!(batch.vertices[0], tri[0]);
    assert_eq!(batch.vertices[3], quad[0]);
    assert_eq!(batch.vertices[9], tri[2]);
}
