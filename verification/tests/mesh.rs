use render_scene::mesh::{Mesh, Vertex};
use std::io::{BufReader, Cursor};

#[test]
fn arrays_are_gathered_vertex_by_vertex() {
    let positions = [1, 2, 3, 4, 5, 6, 7];
    let texcoords = [10, 11, 12, 13];
    let normals = [20, 21, 22, 23, 24, 25];
    let mesh = Mesh::from_arrays(&positions, &texcoords, &normals, vec![0, 1, 0]).unwrap();
    assert_eq!(
        mesh.vertices,
        vec![
            Vertex { coord: [1, 2, 3], normal: [20, 21, 22], tex_coord: [10, 11] },
            Vertex { coord: [4, 5, 6], normal: [23, 24, 25], tex_coord: [12, 13] },
        ]
    );
    assert_eq!(mesh.indices, vec![0, 1, 0]);
}

#[test]
fn missing_attributes_are_refused() {
    let positions = [1, 2, 3, 4, 5, 6];
    assert!(Mesh::from_arrays(&positions, &[1, 2, 3], &[0; 6], vec![]).is_none());
    assert!(Mesh::from_arrays(&positions, &[0; 4], &[0; 5], vec![]).is_none());
    assert!(Mesh::from_arrays(&positions, &[], &[], vec![]).is_none());
    assert!(Mesh::from_arrays(&positions, &[0; 4], &[0; 6], vec![]).is_some());
}

#[test]
fn no_positions_make_an_empty_mesh() {
    let mesh = Mesh::from_arrays(&[], &[], &[], vec![3]).unwrap();
    assert!(mesh.vertices.is_empty());
    assert_eq!(mesh.indices, vec![3]);
    let short = Mesh::from_arrays(&[1, 2], &[], &[], vec![]).unwrap();
    assert!(short.vertices.is_empty());
}

#[test]
fn loaded_model_becomes_a_mesh() {
    let obj = "v 0 0 0\nv 1 0 0\nv 0 1 0\nvt 0 0\nvt 1 0\nvt 0 1\nvn 0 0 1\nf 1/1/1 2/2/1 3/3/1\n";
    let mut reader = BufReader::new(Cursor::new(obj));
    let options = tobj::LoadOptions { triangulate: true, single_index: true, ..Default::default() };
    let (models, _) =
        tobj::load_obj_buf(&mut reader, &options, |_| Err(tobj::LoadError::OpenFileFailed)).unwrap();
    assert_eq!(models.len(), 1);
    let loaded = &models[0].mesh;
    let bits = |values: &Vec<f32>| values.iter().map(|x| x.to_bits()).collect::<Vec<u32>>();
    let mesh = Mesh::from_arrays(
        &bits(&loaded.positions),
        &bits(&loaded.texcoords),
        &bits(&loaded.normals),
        loaded.indices.clone(),
    )
    .unwrap();
    assert_eq!(mesh.indices, vec![0, 1, 2]);
    assert_eq!(mesh.vertices.len(), 3);
    let one = 1.0f32.to_bits();
    assert_eq!(mesh.vertices[1], Vertex { coord: [one, 0, 0], normal: [0, 0, one], tex_coord: [one, 0] });
    assert_eq!(mesh.vertices[2], Vertex { coord: [0, one, 0], normal: [0, 0, one], tex_coord: [0, one] });
}
