use gbuffer_viewer::tangent::{triangle_frame, Mesh, Vertex, Wide3, FIXED_ONE};

const ONE: i32 = FIXED_ONE;

fn v(x: i32, y: i32, z: i32, u: i32, w: i32) -> Vertex {
    Vertex::raw(x, y, z, 0, 0, ONE, u, w)
}

#[test]
fn unit_quad_triangle_has_axis_aligned_frame() {
    // Texture v grows downward, so uv = (x, 1 - y).
    let a = v(0, 0, 0, 0, ONE);
    let b = v(ONE, 0, 0, ONE, ONE);
    let c = v(ONE, ONE, 0, ONE, 0);
    let (t, bt) = triangle_frame(&a, &b, &c).unwrap();
    assert_eq!(t, Wide3 { x: ONE as i128, y: 0, z: 0 });
    assert_eq!(bt, Wide3 { x: 0, y: ONE as i128, z: 0 });
}

#[test]
fn quad_split_in_two_gives_every_corner_the_same_frame() {
    let mut mesh = Mesh {
        vertices: vec![
            v(0, 0, 0, 0, ONE),
            v(ONE, 0, 0, ONE, ONE),
            v(ONE, ONE, 0, ONE, 0),
            v(0, ONE, 0, 0, 0),
        ],
        indices: vec![0, 1, 2, 0, 2, 3],
    };
    mesh.update_tangents();
    for vert in &mesh.vertices {
        assert_eq!(vert.tangent, Wide3 { x: ONE as i128, y: 0, z: 0 });
        assert_eq!(vert.bitangent, Wide3 { x: 0, y: ONE as i128, z: 0 });
    }
    assert_eq!(mesh.vertices[3].position.y, ONE);
    assert_eq!(mesh.vertices[3].tex_coord.u, 0);
}

#[test]
fn degenerate_texture_mapping_has_no_frame() {
    let a = v(0, 0, 0, 0, 0);
    let b = v(ONE, 0, 0, ONE, ONE);
    let c = v(ONE, ONE, 0, 2 * ONE, 2 * ONE);
    assert_eq!(triangle_frame(&a, &b, &c), None);
}

#[test]
fn shared_vertex_gets_mean_of_fan_contributions() {
    // Centre vertex 0 with four triangles around it. Texture coordinates
    // stretch differently per triangle, so the tangents differ.
    let h = ONE / 2;
    let mut mesh = Mesh {
        vertices: vec![
            v(0, 0, 0, 0, 0),
            v(ONE, 0, 0, ONE, 0),
            v(0, ONE, 0, 0, -ONE),
            v(-ONE, 0, 0, -h, 0),
            v(0, -ONE, 0, 0, h),
        ],
        indices: vec![0, 1, 2, 0, 2, 3, 0, 3, 4, 0, 4, 1],
    };
    let contributions: Vec<(Wide3, Wide3)> = [(1, 2), (2, 3), (3, 4), (4, 1)]
        .iter()
        .map(|&(p, q)| triangle_frame(&mesh.vertices[0], &mesh.vertices[p], &mesh.vertices[q]).unwrap())
        .collect();
    // Tangent of the first triangle: dp1 = (1,0,0), duv1 = (1,0); dp2 = (0,1,0), duv2 = (0,-1).
    assert_eq!(contributions[0].0, Wide3 { x: ONE as i128, y: 0, z: 0 });
    assert_eq!(contributions[0].1, Wide3 { x: 0, y: ONE as i128, z: 0 });
    let n = contributions.len() as i128;
    let sum_tx: i128 = contributions.iter().map(|c| c.0.x).sum();
    let sum_by: i128 = contributions.iter().map(|c| c.1.y).sum();
    mesh.update_tangents();
    assert_eq!(mesh.vertices[0].tangent.x, sum_tx / n);
    assert_eq!(mesh.vertices[0].bitangent.y, sum_by / n);
    // Across the four triangles the texture is stretched 1 and 2 times along
    // u, so the mean tangent length is 1.5 (of ONE), and along v 1 and 2 too.
    assert_eq!(mesh.vertices[0].tangent, Wide3 { x: (3 * ONE / 2) as i128, y: 0, z: 0 });
    assert_eq!(mesh.vertices[0].bitangent, Wide3 { x: 0, y: (3 * ONE / 2) as i128, z: 0 });
}

#[test]
fn unused_vertex_keeps_zero_frame() {
    let mut mesh = Mesh {
        vertices: vec![
            v(0, 0, 0, 0, ONE),
            v(ONE, 0, 0, ONE, ONE),
            v(ONE, ONE, 0, ONE, 0),
            v(5, 5, 5, 1, 1),
        ],
        indices: vec![0, 1, 2],
    };
    mesh.update_tangents();
    assert_eq!(mesh.vertices[3].tangent, Wide3 { x: 0, y: 0, z: 0 });
    assert_eq!(mesh.vertices[3].bitangent, Wide3 { x: 0, y: 0, z: 0 });
    assert_eq!(mesh.vertices[0].tangent.x, ONE as i128);
}

#[test]
fn degenerate_triangle_is_left_out_of_the_mean() {
    let mut mesh = Mesh {
        vertices: vec![
            v(0, 0, 0, 0, ONE),
            v(ONE, 0, 0, ONE, ONE),
            v(ONE, ONE, 0, ONE, 0),
            v(0, ONE, 0, ONE, ONE),
        ],
        indices: vec![0, 1, 2, 0, 1, 3],
    };
    mesh.update_tangents();
    assert_eq!(mesh.vertices[0].tangent, Wide3 { x: ONE as i128, y: 0, z: 0 });
    assert_eq!(mesh.vertices[3].tangent, Wide3 { x: 0, y: 0, z: 0 });
}
