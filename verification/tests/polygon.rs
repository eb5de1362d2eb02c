use light_game::polygon::{calculate_indices_polygon, light_polygon_vertices, polygon_index_list};

#[test]
fn no_triangles_give_no_indices() {
    assert_eq!(calculate_indices_polygon(0), Vec::<u32>::new());
}

#[test]
fn single_triangle_fan_closes_on_itself() {
    assert_eq!(calculate_indices_polygon(1), vec![0, 1, 1]);
}

#[test]
fn three_triangle_fan() {
    assert_eq!(calculate_indices_polygon(3), vec![0, 1, 2, 0, 2, 3, 0, 3, 1]);
}

#[test]
fn ten_triangle_fan_is_closed_and_gapless() {
    let n = 10usize;
    let indices = calculate_indices_polygon(n);
    assert_eq!(indices.len(), 3 * n);
    for k in 0..n {
        assert_eq!(indices[3 * k], 0);
        assert_eq!(indices[3 * k + 1] as usize, k + 1);
        let next = (k + 1) % n;
        assert_eq!(indices[3 * k + 2], indices[3 * next + 1]);
    }
}

#[test]
fn index_list_names_only_existing_vertices() {
    for vertices in 1..40usize {
        let indices = polygon_index_list(vertices);
        assert_eq!(indices, calculate_indices_polygon(vertices - 1));
        assert!(indices.iter().all(|&i| (i as usize) < vertices));
    }
}

#[test]
fn index_list_for_three_vertices() {
    assert_eq!(polygon_index_list(3), vec![0, 1, 2, 0, 2, 1]);
}

#[test]
fn empty_outline_is_padded_with_the_centre() {
    let centre = [0.0f32, 0.0];
    let vertices = light_polygon_vertices(centre, &Vec::new());
    assert_eq!(vertices, vec![centre, centre, centre]);
}

#[test]
fn one_point_outline_is_padded_to_three_vertices() {
    let centre = [0.0f32, 0.0];
    let p = [3.5f32, -1.0];
    assert_eq!(light_polygon_vertices(centre, &vec![p]), vec![centre, p, centre]);
}

#[test]
fn longer_outline_follows_the_centre_unchanged() {
    let centre = [0.0f32, 0.0];
    let outline = vec![[1.0f32, 0.0], [0.0, 1.0], [-1.0, 0.0], [0.0, -1.0]];
    let vertices = light_polygon_vertices(centre, &outline);
    assert_eq!(vertices.len(), 5);
    assert_eq!(vertices[0], centre);
    assert_eq!(&vertices[1..], &outline[..]);
}

#[test]
fn light_mesh_indices_stay_inside_the_vertex_list() {
    let centre = 0u8;
    for len in 0..12usize {
        let outline: Vec<u8> = (1..=len as u8).collect();
        let vertices = light_polygon_vertices(centre, &outline);
        assert!(vertices.len() >= 3);
        assert_eq!(vertices[0], centre);
        let indices = polygon_index_list(vertices.len());
        assert!(indices.iter().all(|&i| (i as usize) < vertices.len()));
    }
}
