use glam::Vec2;
use polygon_outline::{Outline, Polygon, VerticesOrder};

fn default_verts() -> Vec<Vec2> {
    let a = Vec2::new(0f32, 1f32);
    let b = Vec2::new(2f32, 3f32);
    let c = Vec2::new(4f32, 5f32);
    let d = Vec2::new(6f32, 7f32);
    vec![a, b, c, d]
}

fn triangle_verts() -> Vec<Vec2> {
    let a = Vec2::new(0f32, 0f32);
    let b = Vec2::new(1f32, 0f32);
    let c = Vec2::new(1f32, 1f32);
    vec![a, b, c]
}

#[test]
fn it_works() {
    assert_eq!(2 + 2, 4);
}

#[test]
fn indexing() {
    let verts = default_verts();
    let outline = Outline::new(verts.clone(), VerticesOrder::CounterClockwise);
    assert_eq!(outline.at(0), verts[0]);
    assert_eq!(outline.at(1), verts[1]);
    assert_eq!(outline.at(2), verts[2]);
    assert_eq!(outline.at(3), verts[3]);
    assert_eq!(outline.at(-1), verts[3]);
    assert_eq!(outline.at(-3), verts[1]);
    assert_eq!(outline.at(-19), verts[1]);
}

#[test]
fn prev_that_next() {
    let verts = default_verts();
    let outline = Outline::new(verts.clone(), VerticesOrder::CounterClockwise);
    let (p, t, n) = outline.prev_that_next(0);
    assert_eq!(p, verts[3]);
    assert_eq!(t, verts[0]);
    assert_eq!(n, verts[1]);

    let (p, t, n) = outline.prev_that_next(-1);
    assert_eq!(p, verts[2]);
    assert_eq!(t, verts[3]);
    assert_eq!(n, verts[0]);
}

#[test]
fn triangle_at() {
    let verts = triangle_verts();
    let outline = Outline::new(verts.clone(), VerticesOrder::CounterClockwise);
    assert_eq!(outline.at(0), verts[0]);
    assert_eq!(outline.at(1), verts[1]);
    assert_eq!(outline.at(2), verts[2]);
    assert_eq!(outline.at(-1), verts[2]);
    assert_eq!(outline.at(3), verts[0]);
}

#[test]
fn triangle_prev_that_next() {
    let verts = triangle_verts();
    let outline = Outline::new(verts.clone(), VerticesOrder::CounterClockwise);
    let (p, t, n) = outline.prev_that_next(0);
    assert_eq!(p, verts[2]);
    assert_eq!(t, verts[0]);
    assert_eq!(n, verts[1]);
}

#[test]
fn to_neighbors_values() {
    let outline = Outline::new(triangle_verts(), VerticesOrder::CounterClockwise);
    let (to_prev, to_next) = outline.to_neighbors(1);
    assert_eq!(to_prev, Vec2::new(-1f32, 0f32));
    assert_eq!(to_next, Vec2::new(0f32, 1f32));
}

#[test]
fn clockwise_reverses() {
    let verts = triangle_verts();
    let outline = Outline::new(verts.clone(), VerticesOrder::Clockwise);
    assert_eq!(outline.at(0), verts[2]);
    assert_eq!(outline.at(1), verts[1]);
    assert_eq!(outline.at(2), verts[0]);
}

#[test]
fn winding_normalization() {
    let verts = triangle_verts();
    let mut reversed = verts.clone();
    reversed.reverse();
    let ccw = Outline::new(verts, VerticesOrder::CounterClockwise);
    let cw = Outline::new(reversed, VerticesOrder::Clockwise);
    for i in -4..8 {
        assert_eq!(ccw.at(i), cw.at(i));
    }
}

#[test]
fn two_vertex_outline() {
    let p = Vec2::new(0f32, 0f32);
    let q = Vec2::new(3f32, 4f32);
    let outline = Outline::new(vec![p, q], VerticesOrder::CounterClockwise);
    assert_eq!(outline.at(0), p);
    assert_eq!(outline.at(1), q);
    assert_eq!(outline.at(2), p);
    assert_eq!(outline.at(-1), q);
    assert_eq!(outline.at(7), q);
    let (to_prev, to_next) = outline.to_neighbors(0);
    assert_eq!(to_prev, to_next);
    assert_eq!(to_prev, q - p);
}

#[test]
fn outline_len() {
    let outline = Outline::new(triangle_verts(), VerticesOrder::CounterClockwise);
    assert_eq!(outline.len(), 3);
    let empty = Outline::new(Vec::new(), VerticesOrder::Clockwise);
    assert_eq!(empty.len(), 0);
}

#[test]
fn polygon_new() {
    let outer = Outline::new(triangle_verts(), VerticesOrder::CounterClockwise);
    let hole = Outline::new(default_verts(), VerticesOrder::Clockwise);
    let polygon = Polygon::new(outer, vec![hole]);
    assert_eq!(polygon.outline.at(0), Vec2::new(0f32, 0f32));
    assert_eq!(polygon.holes.len(), 1);
    assert_eq!(polygon.holes[0].at(0), Vec2::new(6f32, 7f32));
}
