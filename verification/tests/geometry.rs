use nested_polygon::geometry::{base_ring, next_ring, sequence, white_color, Vertex};
use nested_polygon::trig::FP_ONE;

/// Absolute tolerance, in fixed-point units, for values that pass through
/// the CORDIC trigonometry (about 2.4e-4 of a unit).
const EPS: i64 = 1 << 20;

fn close(a: i64, b: i64) -> bool {
    (a - b).abs() <= EPS
}

fn norm(v: &Vertex) -> f64 {
    let s = FP_ONE as f64;
    let x = v.x as f64 / s;
    let y = v.y as f64 / s;
    (x * x + y * y).sqrt()
}

#[test]
fn base_ring_has_one_vertex_per_side() {
    for sides in 3..9 {
        let ring = base_ring(sides);
        assert_eq!(ring.len(), sides);
    }
}

#[test]
fn base_ring_vertices_lie_on_unit_circle() {
    for sides in [3, 4, 5, 6, 12] {
        let ring = base_ring(sides);
        for v in &ring {
            assert!((norm(v) - 1.0).abs() < 1e-3, "sides {sides}: radius {}", norm(v));
        }
    }
}

#[test]
fn base_ring_first_vertex_points_up() {
    for sides in [3, 4, 5, 7] {
        let ring = base_ring(sides);
        assert!(close(ring[0].x, 0), "sides {sides}: x {}", ring[0].x);
        assert!(close(ring[0].y, FP_ONE), "sides {sides}: y {}", ring[0].y);
    }
}

#[test]
fn base_ring_is_white() {
    let ring = base_ring(6);
    for v in &ring {
        assert_eq!(v.color, white_color());
        assert_eq!(v.color.red, 1000);
        assert_eq!(v.color.green, 1000);
        assert_eq!(v.color.blue, 1000);
        assert_eq!(v.color.alpha, 1000);
    }
}

fn diamond() -> Vec<Vertex> {
    let c = white_color();
    vec![
        Vertex { x: 0, y: FP_ONE, color: c },
        Vertex { x: -FP_ONE, y: 0, color: c },
        Vertex { x: 0, y: -FP_ONE, color: c },
        Vertex { x: FP_ONE, y: 0, color: c },
    ]
}

#[test]
fn next_ring_takes_exact_midpoints_with_wraparound() {
    let ring = diamond();
    let next = next_ring(&ring);
    let c = white_color();
    let h = FP_ONE / 2;
    assert_eq!(
        next,
        vec![
            Vertex { x: -h, y: h, color: c },
            Vertex { x: -h, y: -h, color: c },
            Vertex { x: h, y: -h, color: c },
            // the wraparound edge from the last vertex back to the first:
            Vertex { x: h, y: h, color: c },
        ]
    );
}

#[test]
fn next_ring_keeps_length_and_color() {
    let mut ring = base_ring(5);
    for _ in 0..10 {
        ring = next_ring(&ring);
        assert_eq!(ring.len(), 5);
        for v in &ring {
            assert_eq!(v.color, white_color());
        }
    }
}

#[test]
fn sequence_has_depth_plus_one_rings_each_derived_from_the_previous() {
    let stack = sequence(5, 3);
    assert_eq!(stack.len(), 4);
    assert_eq!(stack[0], base_ring(5));
    for k in 0..3 {
        assert_eq!(stack[k + 1], next_ring(&stack[k]));
    }
}

#[test]
fn sequence_stays_inside_the_unit_box() {
    let stack = sequence(7, 20);
    for ring in &stack {
        for v in ring {
            assert!(-FP_ONE <= v.x && v.x <= FP_ONE);
            assert!(-FP_ONE <= v.y && v.y <= FP_ONE);
        }
    }
}

#[test]
fn square_scenario_depth_zero() {
    let stack = sequence(4, 0);
    assert_eq!(stack.len(), 1);
    let ring = &stack[0];
    assert_eq!(ring.len(), 4);
    assert!(close(ring[0].x, 0) && close(ring[0].y, FP_ONE));
    assert!(close(ring[1].x, -FP_ONE) && close(ring[1].y, 0));
    assert!(close(ring[2].x, 0) && close(ring[2].y, -FP_ONE));
    assert!(close(ring[3].x, FP_ONE) && close(ring[3].y, 0));
}

#[test]
fn square_scenario_depth_one() {
    let stack = sequence(4, 1);
    assert_eq!(stack.len(), 2);
    let ring = &stack[1];
    let h = FP_ONE / 2;
    assert_eq!(ring.len(), 4);
    assert!(close(ring[0].x, -h) && close(ring[0].y, h));
    assert!(close(ring[1].x, -h) && close(ring[1].y, -h));
    assert!(close(ring[2].x, h) && close(ring[2].y, -h));
    assert!(close(ring[3].x, h) && close(ring[3].y, h));
}

#[test]
fn triangle_scenario_shrinks_with_depth() {
    let stack = sequence(3, 6);
    for ring in &stack {
        assert_eq!(ring.len(), 3);
    }
    let largest_at_five = stack[5].iter().map(norm).fold(0.0f64, f64::max);
    let smallest_at_zero = stack[0].iter().map(norm).fold(f64::INFINITY, f64::min);
    assert!(largest_at_five < smallest_at_zero);
}
