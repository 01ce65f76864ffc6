use draw_graph::color::Color;
use draw_graph::dimension;
use draw_graph::dimension::Dimension;
use draw_graph::draw::{Draw, DrawError, DrawingState, ResolvedDrawing};
use draw_graph::geom::Point2;
use draw_graph::theme::Theme;

fn resolved(draw: &Draw, node: usize) -> ResolvedDrawing {
    match &draw.drawings[node] {
        DrawingState::Resolved(res) => *res,
        _ => panic!("node {} is not resolved", node),
    }
}

fn resolved_points(draw: &Draw, node: usize) -> Vec<(i64, i64, i64)> {
    let res = resolved(draw, node);
    let mut out = Vec::new();
    let mut k = res.vertex_ranges.points.start;
    while k < res.vertex_ranges.points.end {
        let p = draw.mesh.points[k];
        out.push((p.x, p.y, p.z));
        k += 1;
    }
    out
}

#[test]
fn default_quad_resolves_to_square_of_side_100() {
    let mut draw = Draw::new(Theme::default());
    let q = draw.quad();
    let node = q.node;
    q.finish(&mut draw).unwrap();
    assert_eq!(
        resolved_points(&draw, node),
        vec![(-50, -50, 0), (-50, 50, 0), (50, 50, 0), (50, -50, 0)]
    );
    let res = resolved(&draw, node);
    assert_eq!(res.x_dim, 100);
    assert_eq!(res.y_dim, 100);
    assert_eq!(res.z_dim, 0);
}

#[test]
fn quad_with_width_50_scales_about_centroid() {
    // A quad with no explicit points defaults to a square of side 100
    // centered at the origin; setting width = 50 must put the resolved
    // corners at (plus or minus 25, plus or minus 50).
    let mut draw = Draw::new(Theme::default());
    let q = draw.quad();
    let node = q.node;
    let q = q.w(&mut draw, 50);
    q.finish(&mut draw).unwrap();
    assert_eq!(
        resolved_points(&draw, node),
        vec![(-25, -50, 0), (-25, 50, 0), (25, 50, 0), (25, -50, 0)]
    );
    let res = resolved(&draw, node);
    assert_eq!(res.x_dim, 50);
    assert_eq!(res.y_dim, 100);
}

#[test]
fn width_and_height_scale_each_axis_independently() {
    let mut draw = Draw::new(Theme::default());
    let q = draw.quad();
    let node = q.node;
    let q = q.points(
        &mut draw,
        Point2 { x: 0, y: 0 },
        Point2 { x: 0, y: 10 },
        Point2 { x: 10, y: 10 },
        Point2 { x: 10, y: 0 },
    );
    let q = q.w(&mut draw, 20);
    let q = q.h(&mut draw, 40);
    q.finish(&mut draw).unwrap();
    assert_eq!(
        resolved_points(&draw, node),
        vec![(-5, -15, 0), (-5, 25, 0), (15, 25, 0), (15, -15, 0)]
    );
    let res = resolved(&draw, node);
    assert_eq!(res.x_dim, 20);
    assert_eq!(res.y_dim, 40);
}

#[test]
fn setter_order_does_not_matter_only_last_value_counts() {
    let corners = (
        Point2 { x: 0, y: 0 },
        Point2 { x: 0, y: 8 },
        Point2 { x: 8, y: 8 },
        Point2 { x: 8, y: 0 },
    );
    let mut draw1 = Draw::new(Theme::default());
    let q1 = draw1.quad();
    let n1 = q1.node;
    let q1 = q1.w(&mut draw1, 7);
    let q1 = q1.points(&mut draw1, corners.0, corners.1, corners.2, corners.3);
    let q1 = q1.w(&mut draw1, 16);
    q1.finish(&mut draw1).unwrap();

    let mut draw2 = Draw::new(Theme::default());
    let q2 = draw2.quad();
    let n2 = q2.node;
    let q2 = q2.points(&mut draw2, corners.0, corners.1, corners.2, corners.3);
    let q2 = q2.w(&mut draw2, 16);
    q2.finish(&mut draw2).unwrap();

    assert_eq!(resolved_points(&draw1, n1), resolved_points(&draw2, n2));
    assert_eq!(resolved(&draw1, n1).x_dim, 16);
    assert_eq!(resolved(&draw2, n2).x_dim, 16);
}

#[test]
fn dimension_query_resolves_once_and_answers_identically() {
    let mut draw = Draw::new(Theme::default());
    let q = draw.quad();
    let node = q.node;
    let first = draw.untransformed_x_dimension_of(node).unwrap();
    let points_after_first = draw.mesh.points.len();
    let indices_after_first = draw.mesh.indices.len();
    let second = draw.untransformed_x_dimension_of(node).unwrap();
    assert_eq!(first, Some(100));
    assert_eq!(second, Some(100));
    // the second query must not duplicate the mesh contribution
    assert_eq!(draw.mesh.points.len(), points_after_first);
    assert_eq!(draw.mesh.indices.len(), indices_after_first);
}

#[test]
fn sizing_against_an_unfinished_drawing_uses_its_final_state() {
    let mut draw = Draw::new(Theme::default());
    let a = draw.quad();
    let a_node = a.node;
    let a = a.w(&mut draw, 60);
    let b = draw.quad();
    let b_node = b.node;
    let _b = b.w_of(&mut draw, a_node);
    // querying b's width forces b to resolve, which forces the still-open a
    // to resolve first, with its full record (width 60) applied
    let got = draw.untransformed_x_dimension_of(b_node).unwrap();
    assert_eq!(got, Some(60));
    assert_eq!(resolved(&draw, a_node).x_dim, 60);
    // a was committed exactly once
    assert_eq!(draw.mesh.points.len(), 8);
    let _ = a;
}

#[test]
fn sibling_without_explicit_color_gets_theme_default_not_siblings() {
    let red = Color::rgb(255, 0, 0);
    let theme = Theme::default();
    let mut draw = Draw::new(theme);
    let first = draw.quad();
    let first_node = first.node;
    let first = first.color(&mut draw, red);
    let second = draw.quad();
    let second_node = second.node;
    first.finish(&mut draw).unwrap();
    second.finish(&mut draw).unwrap();
    assert_eq!(resolved(&draw, first_node).fill_color, red);
    assert_eq!(resolved(&draw, second_node).fill_color, theme.quad_fill);
}

#[test]
fn cleared_mesh_gives_ranges_starting_at_zero() {
    let mut draw = Draw::new(Theme::default());
    // dirty the scratch space, then reset it as a frame start does
    let q = draw.quad();
    q.finish(&mut draw).unwrap();
    draw.drawing_context().clear();
    let p = draw.polygon();
    let node = p.node;
    let p = p.points(
        &mut draw,
        vec![
            Point2 { x: 0, y: 0 },
            Point2 { x: 4, y: 0 },
            Point2 { x: 4, y: 4 },
            Point2 { x: 0, y: 4 },
        ],
    );
    p.finish(&mut draw).unwrap();
    let res = resolved(&draw, node);
    assert_eq!(res.vertex_ranges.points.start, 0);
    assert_eq!(res.vertex_ranges.points.end, 4);
    assert_eq!(res.index_range.start, 0);
}

#[test]
fn polygon_fan_indices_reference_its_own_vertices() {
    let mut draw = Draw::new(Theme::default());
    // an earlier quad occupies the first slots of the mesh
    let q = draw.quad();
    q.finish(&mut draw).unwrap();
    let p = draw.polygon();
    let node = p.node;
    let p = p.points(
        &mut draw,
        vec![
            Point2 { x: 0, y: 0 },
            Point2 { x: 10, y: 0 },
            Point2 { x: 10, y: 10 },
            Point2 { x: 0, y: 10 },
        ],
    );
    p.finish(&mut draw).unwrap();
    let res = resolved(&draw, node);
    let base = res.vertex_ranges.points.start;
    assert_eq!(base, 4);
    let fan: Vec<usize> =
        draw.mesh.indices[res.index_range.start..res.index_range.end].to_vec();
    assert_eq!(fan, vec![base, base + 1, base + 2, base, base + 2, base + 3]);
    assert_eq!(res.min_index, base);
}

#[test]
fn empty_polygon_resolves_to_empty_contribution() {
    let mut draw = Draw::new(Theme::default());
    let p = draw.polygon();
    let node = p.node;
    p.finish(&mut draw).unwrap();
    let res = resolved(&draw, node);
    assert_eq!(res.vertex_ranges.points.start, res.vertex_ranges.points.end);
    assert_eq!(res.index_range.start, res.index_range.end);
    assert_eq!(res.x_dim, 0);
    assert_eq!(res.y_dim, 0);
}

#[test]
fn querying_a_node_never_created_is_a_lookup_failure() {
    let mut draw = Draw::new(Theme::default());
    assert_eq!(
        draw.untransformed_x_dimension_of(99),
        Err(DrawError::NodeNotFound)
    );
}

#[test]
fn sizing_against_a_node_without_geometry_fails() {
    let mut draw = Draw::new(Theme::default());
    let q = draw.quad();
    // node 0 is the root, which never carries a drawing
    let q = q.w_of(&mut draw, 0);
    assert_eq!(q.finish(&mut draw), Err(DrawError::DimensionUnavailable));
}

#[test]
fn sizing_a_drawing_against_itself_is_a_reentrant_borrow() {
    let mut draw = Draw::new(Theme::default());
    let q = draw.quad();
    let own = q.node;
    let q = q.w_of(&mut draw, own);
    assert_eq!(q.finish(&mut draw), Err(DrawError::NestedResolve));
}

#[test]
fn failed_resolution_leaves_the_drawing_open() {
    let mut draw = Draw::new(Theme::default());
    let q = draw.quad();
    let node = q.node;
    let q = q.w_of(&mut draw, 0);
    assert_eq!(q.finish(&mut draw), Err(DrawError::DimensionUnavailable));
    assert!(matches!(
        &draw.drawings[node],
        DrawingState::Pending(_)
    ));
}

#[test]
fn oversized_dependency_dimension_is_rejected() {
    let mut draw = Draw::new(Theme::default());
    let limit = draw_graph::geom::COORD_LIMIT;
    let a = draw.quad();
    let a_node = a.node;
    // a's extent is twice the input bound: too large to use as a target
    let a = a.points(
        &mut draw,
        Point2 { x: -limit, y: 0 },
        Point2 { x: -limit, y: 1 },
        Point2 { x: limit, y: 1 },
        Point2 { x: limit, y: 0 },
    );
    a.finish(&mut draw).unwrap();
    let b = draw.quad();
    let b = b.w_of(&mut draw, a_node);
    assert_eq!(b.finish(&mut draw), Err(DrawError::DimensionTooLarge));
}

#[test]
fn to_scalars_resolves_each_axis_request() {
    let mut draw = Draw::new(Theme::default());
    let a = draw.quad();
    let a_node = a.node;
    let a = a.w(&mut draw, 80);
    a.finish(&mut draw).unwrap();
    let props = dimension::Properties {
        x: Some(Dimension::Absolute(30)),
        y: Some(Dimension::Of(a_node)),
        z: None,
    };
    let (mx, my, mz) = props.to_scalars(&mut draw).unwrap();
    assert_eq!(mx, Some(30));
    assert_eq!(my, Some(100));
    assert_eq!(mz, None);
}

#[test]
fn transformed_dimension_composes_parent_scale() {
    let mut draw = Draw::new(Theme::default());
    let q = draw.quad();
    let node = q.node;
    q.finish(&mut draw).unwrap();
    assert_eq!(draw.x_dimension_of(node).unwrap(), Some(100));
    // scale the node by 3 along x: the transformed width triples
    let mut sp = draw.graph.node_spatial(node);
    sp.scale.x = 3;
    draw.graph.set_node_properties(node, sp);
    assert_eq!(draw.x_dimension_of(node).unwrap(), Some(300));
    assert_eq!(draw.untransformed_x_dimension_of(node).unwrap(), Some(100));
}

#[test]
fn transformed_dimension_overflow_is_a_loud_failure() {
    let mut draw = Draw::new(Theme::default());
    let q = draw.quad();
    let node = q.node;
    q.finish(&mut draw).unwrap();
    let mut sp = draw.graph.node_spatial(node);
    sp.scale.x = i64::MAX / 2;
    draw.graph.set_node_properties(node, sp);
    assert_eq!(
        draw.x_dimension_of(node),
        Err(DrawError::ArithmeticOverflow)
    );
}

#[test]
fn zero_extent_axis_is_left_unscaled() {
    // a degenerate quad with zero width cannot be scaled along x; the axis
    // stays as drawn rather than failing the frame
    let mut draw = Draw::new(Theme::default());
    let q = draw.quad();
    let node = q.node;
    let q = q.points(
        &mut draw,
        Point2 { x: 5, y: 0 },
        Point2 { x: 5, y: 10 },
        Point2 { x: 5, y: 20 },
        Point2 { x: 5, y: 30 },
    );
    let q = q.w(&mut draw, 40);
    q.finish(&mut draw).unwrap();
    let res = resolved(&draw, node);
    assert_eq!(res.x_dim, 0);
    assert_eq!(
        resolved_points(&draw, node),
        vec![(5, 0, 0), (5, 10, 0), (5, 20, 0), (5, 30, 0)]
    );
}

#[test]
fn theme_lookup_returns_per_kind_fill() {
    let mut theme = Theme::default();
    theme.quad_fill = Color::rgb(1, 2, 3);
    theme.polygon_fill = Color::rgb(4, 5, 6);
    assert_eq!(
        theme.fill_color(draw_graph::theme::Primitive::Quad),
        Color::rgb(1, 2, 3)
    );
    assert_eq!(
        theme.fill_color(draw_graph::theme::Primitive::Polygon),
        Color::rgb(4, 5, 6)
    );
    let draw = Draw::new(theme);
    assert_eq!(draw.theme().quad_fill, Color::rgb(1, 2, 3));
}

#[test]
fn mutually_dependent_drawings_are_rejected_not_looped() {
    let mut draw = Draw::new(Theme::default());
    let a = draw.quad();
    let a_node = a.node;
    let b = draw.quad();
    let b_node = b.node;
    let _a = a.w_of(&mut draw, b_node);
    let _b = b.w_of(&mut draw, a_node);
    // resolving a needs b, which needs a again on the same call stack
    assert_eq!(
        draw.untransformed_x_dimension_of(a_node),
        Err(DrawError::NestedResolve)
    );
    // both drawings survive the failure, still open
    assert!(matches!(&draw.drawings[a_node], DrawingState::Pending(_)));
    assert!(matches!(&draw.drawings[b_node], DrawingState::Pending(_)));
}

#[test]
fn width_target_is_exact_even_when_division_rounds() {
    // extent 3 scaled to width 2: no corner offset divides cleanly, yet
    // floor rounding shifts all corners uniformly and the width is exact
    let mut draw = Draw::new(Theme::default());
    let q = draw.quad();
    let node = q.node;
    let q = q.points(
        &mut draw,
        Point2 { x: 0, y: 0 },
        Point2 { x: 0, y: 3 },
        Point2 { x: 3, y: 3 },
        Point2 { x: 3, y: 0 },
    );
    let q = q.w(&mut draw, 2);
    q.finish(&mut draw).unwrap();
    assert_eq!(
        resolved_points(&draw, node),
        vec![(0, 0, 0), (0, 3, 0), (2, 3, 0), (2, 0, 0)]
    );
    assert_eq!(resolved(&draw, node).x_dim, 2);
    assert_eq!(resolved(&draw, node).y_dim, 3);
}
