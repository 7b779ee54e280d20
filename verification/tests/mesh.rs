use solar_renderer::obj::Obj;
use solar_renderer::pipeline::{assemble_triangles, scan_span};

#[test]
fn from_meshes_shifts_indices_by_earlier_vertices() {
    let meshes = vec![(vec![10u8, 11, 12], vec![0u32, 1, 2]), (vec![20u8, 21, 22], vec![2u32, 1, 0])];
    let obj = Obj::from_meshes(meshes).unwrap();
    assert_eq!(obj.vertices, vec![10, 11, 12, 20, 21, 22]);
    assert_eq!(obj.indices, vec![0, 1, 2, 5, 4, 3]);
    assert_eq!(obj.get_vertex_array(), vec![10, 11, 12, 22, 21, 20]);
}

#[test]
fn from_meshes_single_vertex_meshes() {
    let obj = Obj::from_meshes(vec![(vec!['a'], vec![0u32]), (vec!['b'], vec![0u32])]).unwrap();
    assert_eq!(obj.indices, vec![0, 1]);
    assert_eq!(obj.get_vertex_array(), vec!['a', 'b']);
}

#[test]
fn from_meshes_rejects_index_overflow() {
    let meshes = vec![(vec![1u8], vec![0u32]), (vec![2u8], vec![u32::MAX])];
    assert!(Obj::from_meshes(meshes).is_none());
    let fits = vec![(Vec::<u8>::new(), vec![u32::MAX]), (vec![2u8], vec![0u32])];
    assert_eq!(Obj::from_meshes(fits).unwrap().indices, vec![u32::MAX, 0]);
}

#[test]
fn get_vertex_array_expands_indices() {
    let obj = Obj { vertices: vec!['a', 'b', 'c', 'd'], indices: vec![0, 1, 2, 2, 3, 0] };
    assert!(obj.indices_in_range());
    assert_eq!(obj.get_vertex_array(), vec!['a', 'b', 'c', 'c', 'd', 'a']);
}

#[test]
fn indices_out_of_range_are_detected() {
    let obj = Obj { vertices: vec![1u8, 2], indices: vec![0, 2] };
    assert!(!obj.indices_in_range());
    let empty: Obj<u8> = Obj::from_meshes(Vec::new()).unwrap();
    assert!(empty.indices_in_range());
    assert!(empty.get_vertex_array().is_empty());
}

#[test]
fn assemble_triangles_groups_by_three() {
    let verts = vec![1, 2, 3, 4, 5, 6, 7];
    let world = vec![10, 20, 30, 40, 50, 60, 70, 80];
    let tris = assemble_triangles(&verts, &world);
    assert_eq!(tris, vec![((1, 2, 3), (10, 20, 30)), ((4, 5, 6), (40, 50, 60))]);
}

#[test]
fn assemble_triangles_stops_at_shorter_list() {
    let verts = vec![1, 2, 3, 4, 5, 6];
    let world = vec![10, 20, 30, 40];
    let tris = assemble_triangles(&verts, &world);
    assert_eq!(tris, vec![((1, 2, 3), (10, 20, 30))]);
}

#[test]
fn scan_span_is_inclusive() {
    assert_eq!(scan_span(-2, 2), vec![-2, -1, 0, 1, 2]);
    assert_eq!(scan_span(5, 5), vec![5]);
    assert!(scan_span(3, 2).is_empty());
    assert_eq!(scan_span(i32::MAX - 1, i32::MAX), vec![i32::MAX - 1, i32::MAX]);
    assert_eq!(scan_span(i32::MIN, i32::MIN + 1), vec![i32::MIN, i32::MIN + 1]);
}
