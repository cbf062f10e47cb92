use pointview::geometry::{axes, get_random_walk, render_all_vertices, walk_from_steps, Vec4i};

#[test]
fn axes_have_28_vertices_origin_first() {
    let v = axes();
    assert_eq!(v.len(), 28);
    assert_eq!(v[0].position, Vec4i { x: 0, y: 0, z: 0, w: 1_000_000 });
    assert_eq!(v[0].color, Vec4i { x: 1_000_000, y: 1_000_000, z: 1_000_000, w: 1_000_000 });
    assert_eq!(v[0].size, 40_000_000);
}

#[test]
fn axes_markers_interleave_the_three_axes() {
    let v = axes();
    // First group: one unit along each axis.
    assert_eq!(v[1].position, Vec4i { x: 1_000_000, y: 0, z: 0, w: 1_000_000 });
    assert_eq!(v[1].color, Vec4i { x: 1_000_000, y: 0, z: 0, w: 0 });
    assert_eq!(v[2].position, Vec4i { x: 0, y: 1_000_000, z: 0, w: 1_000_000 });
    assert_eq!(v[3].position, Vec4i { x: 0, y: 0, z: 1_000_000, w: 1_000_000 });
    // Last group: nine units along each axis.
    assert_eq!(v[25].position, Vec4i { x: 9_000_000, y: 0, z: 0, w: 1_000_000 });
    assert_eq!(v[26].position, Vec4i { x: 0, y: 9_000_000, z: 0, w: 1_000_000 });
    assert_eq!(v[27].position, Vec4i { x: 0, y: 0, z: 9_000_000, w: 1_000_000 });
    for m in &v {
        assert_eq!(m.position.w, 1_000_000);
    }
}

#[test]
fn identity_indices_cover_every_vertex() {
    let v = axes();
    let idx = render_all_vertices(&v);
    assert_eq!(idx.len(), 28);
    for (i, k) in idx.iter().enumerate() {
        assert_eq!(*k, i as u32);
    }
}

#[test]
fn walk_fixture_is_deterministic() {
    // Five fixed steps stand in for a seeded generator: the walk is a
    // pure function of them.
    let steps: Vec<i64> = vec![1_000_000, -2_000_000, 500_000, 2_499_999, 0];
    let line = walk_from_steps(1_000_000, 0, 0, &steps);
    assert_eq!(line.vertices.len(), 5);
    let expected_y: [i64; 5] = [0, 1_000_000, -1_000_000, -500_000, 1_999_999];
    for i in 0..5 {
        let v = &line.vertices[i];
        assert_eq!(v.position.x, (i as i64) * 1000);
        assert_eq!(v.position.y, expected_y[i]);
        assert_eq!(v.position.z, 0);
        assert_eq!(v.position.w, 1_000_000);
        assert_eq!(v.color, Vec4i { x: 1_000_000, y: 0, z: 0, w: 0 });
        assert_eq!(v.size, 1_000_000);
        assert_eq!(line.indices[i], i as u32);
    }
}

#[test]
fn random_walk_structure() {
    let line = get_random_walk(1_000_000, 0, 0, 200);
    assert_eq!(line.vertices.len(), 200);
    assert_eq!(line.indices.len(), 200);
    assert_eq!(line.vertices[0].position.y, 0);
    for i in 0..200 {
        let v = &line.vertices[i];
        assert_eq!(v.position.x, (i as i64) * 1000);
        assert_eq!(v.color, Vec4i { x: 1_000_000, y: 0, z: 0, w: 0 });
        if i > 0 {
            let d = v.position.y - line.vertices[i - 1].position.y;
            assert!(-2_500_000 <= d && d < 2_500_000);
        }
    }
}
