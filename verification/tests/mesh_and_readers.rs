use draw_graph::color::Color;
use draw_graph::graph::GeometryGraph;
use draw_graph::spatial::Properties;
use draw_graph::draw::{Draw, DrawingState, IntoDrawn};
use draw_graph::geom::{Point2, Point3};
use draw_graph::mesh::{IndexRange, IntermediaryMesh};
use draw_graph::primitive::{Polygon, Quad};
use draw_graph::theme::Theme;
use draw_graph::vertices::{
    Indices, IndicesChain, IndicesFromRange, IterIndices, IterVertices, Vertices,
    VerticesChain, VerticesFromRanges,
};

#[test]
fn push_vertex_range_reports_the_occupied_ranges() {
    let mut mesh = IntermediaryMesh::new();
    let r = mesh.push_vertex_range(
        vec![
            Point3 { x: 1, y: 2, z: 3 },
            Point3 { x: 4, y: 5, z: 6 },
        ],
        vec![Color::rgb(9, 9, 9)],
        vec![],
    );
    assert_eq!(r.points.start, 0);
    assert_eq!(r.points.end, 2);
    assert_eq!(r.colors.start, 0);
    assert_eq!(r.colors.end, 1);
    assert_eq!(r.tex_coords.start, 0);
    assert_eq!(r.tex_coords.end, 0);
    let r2 = mesh.push_vertex_range(vec![Point3 { x: 7, y: 8, z: 9 }], vec![], vec![]);
    assert_eq!(r2.points.start, 2);
    assert_eq!(r2.points.end, 3);
}

#[test]
fn ranges_stay_valid_and_unchanged_after_later_pushes() {
    let mut mesh = IntermediaryMesh::new();
    let first = mesh.push_vertex_range(
        vec![Point3 { x: 10, y: 20, z: 30 }, Point3 { x: 40, y: 50, z: 60 }],
        vec![],
        vec![],
    );
    let idx = mesh.push_indices(vec![0, 1]);
    // many unrelated pushes afterwards
    for i in 0..50 {
        mesh.push_vertex_range(vec![Point3 { x: i, y: i, z: i }], vec![], vec![]);
        mesh.push_indices(vec![0]);
    }
    assert_eq!(mesh.points[first.points.start], Point3 { x: 10, y: 20, z: 30 });
    assert_eq!(mesh.points[first.points.start + 1], Point3 { x: 40, y: 50, z: 60 });
    assert_eq!(mesh.indices[idx.start], 0);
    assert_eq!(mesh.indices[idx.start + 1], 1);
}

#[test]
fn clear_resets_every_store() {
    let mut mesh = IntermediaryMesh::new();
    mesh.push_vertex_range(
        vec![Point3 { x: 1, y: 1, z: 1 }],
        vec![Color::rgb(1, 1, 1)],
        vec![Point2 { x: 1, y: 1 }],
    );
    mesh.push_indices(vec![0]);
    mesh.clear();
    assert_eq!(mesh.points.len(), 0);
    assert_eq!(mesh.colors.len(), 0);
    assert_eq!(mesh.tex_coords.len(), 0);
    assert_eq!(mesh.indices.len(), 0);
    let r = mesh.push_vertex_range(vec![Point3 { x: 2, y: 2, z: 2 }], vec![], vec![]);
    assert_eq!(r.points.start, 0);
}

#[test]
fn vertices_from_ranges_reads_back_with_fill_fallback() {
    let mut draw = Draw::new(Theme::default());
    let red = Color::rgb(200, 0, 0);
    let q = draw.quad();
    let node = q.node;
    let q = q.color(&mut draw, red);
    q.finish(&mut draw).unwrap();
    let res = match &draw.drawings[node] {
        DrawingState::Resolved(res) => *res,
        _ => panic!("not resolved"),
    };
    let mut vfr = VerticesFromRanges::new(res.vertex_ranges, Some(res.fill_color));
    let mut seen = Vec::new();
    while let Some(v) = vfr.next(&draw.mesh) {
        seen.push((v.point.x, v.point.y, v.color, v.tex_coords));
    }
    let zero = Point2 { x: 0, y: 0 };
    assert_eq!(
        seen,
        vec![
            (-50, -50, red, zero),
            (-50, 50, red, zero),
            (50, 50, red, zero),
            (50, -50, red, zero),
        ]
    );
}

#[test]
fn indices_from_range_reads_values_and_min_index() {
    let data: Vec<usize> = vec![3, 4, 5, 3, 5, 6];
    let ifr = IndicesFromRange::new(IndexRange { start: 1, end: 4 }, 3);
    assert_eq!(ifr.min_index(), 3);
    let mut ifr = ifr;
    let mut seen = Vec::new();
    while let Some(v) = ifr.next(&data) {
        seen.push(v);
    }
    assert_eq!(seen, vec![4, 5, 3]);
}

#[test]
fn chained_producers_yield_first_then_second() {
    let mut mesh = IntermediaryMesh::new();
    let ra = mesh.push_vertex_range(vec![Point3 { x: 1, y: 0, z: 0 }], vec![], vec![]);
    let rb = mesh.push_vertex_range(vec![Point3 { x: 2, y: 0, z: 0 }], vec![], vec![]);
    let fill = Color::rgb(7, 7, 7);
    let a = VerticesFromRanges::new(ra, Some(fill));
    let b = VerticesFromRanges::new(rb, Some(fill));
    let mut chain = VerticesChain::new(a, b);
    let mut xs = Vec::new();
    while let Some(v) = chain.next(&mesh) {
        xs.push(v.point.x);
    }
    assert_eq!(xs, vec![1, 2]);

    let data: Vec<usize> = vec![0, 1, 2, 3];
    let ia = IndicesFromRange::new(IndexRange { start: 0, end: 2 }, 5);
    let ib = IndicesFromRange::new(IndexRange { start: 2, end: 4 }, 2);
    let chain = IndicesChain::new(ia, ib);
    assert_eq!(chain.min_index(), 2);
    let mut chain = chain;
    let mut seen = Vec::new();
    while let Some(v) = chain.next(&data) {
        seen.push(v);
    }
    assert_eq!(seen, vec![0, 1, 2, 3]);
}

#[test]
fn iterator_adaptors_walk_the_producers() {
    let mut draw = Draw::new(Theme::default());
    let q = draw.quad();
    let node = q.node;
    q.finish(&mut draw).unwrap();
    let res = match &draw.drawings[node] {
        DrawingState::Resolved(res) => *res,
        _ => panic!("not resolved"),
    };
    let vfr = VerticesFromRanges::new(res.vertex_ranges, Some(res.fill_color));
    let mut iter = IterVertices::new(vfr, &draw.mesh);
    let mut count = 0;
    while let Some(_) = iter.next() {
        count += 1;
    }
    assert_eq!(count, 4);

    let ifr = IndicesFromRange::new(res.index_range, res.min_index);
    let mut iter = IterIndices::new(ifr, draw.mesh.indices.as_slice());
    let mut seen = Vec::new();
    while let Some(v) = iter.next() {
        seen.push(v);
    }
    assert_eq!(seen, vec![0, 1, 2, 0, 2, 3]);
}

#[test]
fn into_drawn_commits_and_hands_back_producers() {
    let mut draw = Draw::new(Theme::default());
    let record = Quad::default().w(50);
    let (sp, vfr, ifr) = record.into_drawn(&mut draw).unwrap();
    assert_eq!(sp.position, Point3 { x: 0, y: 0, z: 0 });
    let mut vfr = vfr;
    let mut xs = Vec::new();
    while let Some(v) = vfr.next(&draw.mesh) {
        xs.push((v.point.x, v.point.y));
    }
    assert_eq!(xs, vec![(-25, -50), (-25, 50), (25, 50), (25, -50)]);
    assert_eq!(ifr.min_index(), 0);
    let mut ifr = ifr;
    let mut seen = Vec::new();
    while let Some(v) = ifr.next(draw.mesh.indices.as_slice()) {
        seen.push(v);
    }
    assert_eq!(seen, vec![0, 1, 2, 0, 2, 3]);
}

#[test]
fn into_drawn_polygon_uses_its_own_points() {
    let mut draw = Draw::new(Theme::default());
    let record = Polygon::new().points(vec![
        Point2 { x: 0, y: 0 },
        Point2 { x: 3, y: 0 },
        Point2 { x: 3, y: 3 },
    ]);
    let (_sp, vfr, ifr) = record.into_drawn(&mut draw).unwrap();
    let mut vfr = vfr;
    let mut xs = Vec::new();
    while let Some(v) = vfr.next(&draw.mesh) {
        xs.push((v.point.x, v.point.y));
    }
    assert_eq!(xs, vec![(0, 0), (3, 0), (3, 3)]);
    let mut ifr = ifr;
    let mut seen = Vec::new();
    while let Some(v) = ifr.next(draw.mesh.indices.as_slice()) {
        seen.push(v);
    }
    assert_eq!(seen, vec![0, 1, 2]);
}

#[test]
fn flatten_translates_and_rebases_per_node() {
    let mut draw = Draw::new(Theme::default());
    let a = draw.quad();
    let a = a.points(
        &mut draw,
        Point2 { x: 0, y: 0 },
        Point2 { x: 0, y: 2 },
        Point2 { x: 2, y: 2 },
        Point2 { x: 2, y: 0 },
    );
    let a = a.x_y_z(&mut draw, 10, 20, 0);
    a.finish(&mut draw).unwrap();
    let b = draw.quad();
    let b = b.points(
        &mut draw,
        Point2 { x: 0, y: 0 },
        Point2 { x: 0, y: 2 },
        Point2 { x: 2, y: 2 },
        Point2 { x: 2, y: 0 },
    );
    // b is left unfinished: flatten must finish it
    let _ = b;
    let committed = draw.flatten().unwrap();
    assert_eq!(committed.points.len(), 8);
    assert_eq!(committed.colors.len(), 8);
    assert_eq!(committed.indices.len(), 12);
    assert_eq!(committed.commands.len(), 2);
    // first quad carries its node's translation
    assert_eq!(committed.points[0], Point3 { x: 10, y: 20, z: 0 });
    assert_eq!(committed.points[2], Point3 { x: 12, y: 22, z: 0 });
    // second quad is untranslated and its indices are rebased after the first
    assert_eq!(committed.points[4], Point3 { x: 0, y: 0, z: 0 });
    assert_eq!(&committed.indices[0..6], &[0, 1, 2, 0, 2, 3]);
    assert_eq!(&committed.indices[6..12], &[4, 5, 6, 4, 6, 7]);
    let c0 = committed.commands[0];
    assert_eq!(c0.vertex_range.start, 0);
    assert_eq!(c0.vertex_range.end, 4);
    let c1 = committed.commands[1];
    assert_eq!(c1.vertex_range.start, 4);
    assert_eq!(c1.vertex_range.end, 8);
}

#[test]
fn node_transform_composes_the_parent_chain() {
    let mut g: GeometryGraph = GeometryGraph::new();
    let mut group = Properties::identity();
    group.position.x = 10;
    group.orientation = 4;
    group.scale.y = 2;
    let group_node = g.add_node(0, group);
    let mut leaf = Properties::identity();
    leaf.position.x = 5;
    leaf.position.z = -3;
    leaf.orientation = 7;
    leaf.scale.y = 3;
    let leaf_node = g.add_node(group_node, leaf);

    let t = g.node_transform(leaf_node).unwrap();
    assert_eq!(t.position, Point3 { x: 15, y: 0, z: -3 });
    assert_eq!(t.orientation, 11);
    assert_eq!(t.scale, Point3 { x: 1, y: 6, z: 1 });
}

#[test]
fn node_transform_overflow_is_reported_as_none() {
    let mut g: GeometryGraph = GeometryGraph::new();
    let mut huge = Properties::identity();
    huge.scale.x = i64::MAX / 2;
    let a = g.add_node(0, huge);
    let mut double = Properties::identity();
    double.scale.x = 4;
    let b = g.add_node(a, double);
    assert!(g.node_transform(b).is_none());
}
