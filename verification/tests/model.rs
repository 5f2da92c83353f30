use gouda::model::{face_index_groups, layout_submeshes, push_face_fan, FaceShape, Submesh};

#[test]
fn faces_become_triangle_fans() {
    let mut indices = vec![99u16];
    push_face_fan(&mut indices, 4, 5);
    assert_eq!(indices, vec![99, 4, 5, 6, 4, 6, 7, 4, 7, 8]);
    let mut tri = vec![];
    push_face_fan(&mut tri, 0, 3);
    assert_eq!(tri, vec![0, 1, 2]);
    let mut line = vec![];
    push_face_fan(&mut line, 0, 2);
    assert!(line.is_empty());
}

#[test]
fn groups_are_laid_out_in_order() {
    let (all, subs) = layout_submeshes(vec![vec![0, 1, 2], vec![], vec![5, 6, 7, 8, 9, 10]]);
    assert_eq!(all, vec![0, 1, 2, 5, 6, 7, 8, 9, 10]);
    assert_eq!(
        subs,
        vec![
            Submesh { starting_index: 0, index_count: 3 },
            Submesh { starting_index: 3, index_count: 0 },
            Submesh { starting_index: 3, index_count: 6 },
        ]
    );
}

#[test]
fn faces_are_grouped_by_material() {
    let face = |vertex_count: usize, material: Option<usize>| FaceShape { vertex_count, material };
    let faces = vec![
        face(3, None),
        face(4, Some(2)),
        face(3, Some(0)),
        face(3, Some(2)),
        face(2, None),
    ];
    let groups = face_index_groups(&faces);
    assert_eq!(
        groups,
        vec![vec![0, 1, 2], vec![3, 4, 5, 3, 5, 6, 10, 11, 12], vec![7, 8, 9]]
    );
    let faces = vec![face(2, None), face(3, Some(5))];
    assert_eq!(face_index_groups(&faces), vec![vec![2, 3, 4]]);
    let (all, subs) = layout_submeshes(face_index_groups(&vec![face(3, Some(1)), face(3, None)]));
    assert_eq!(all, vec![3, 4, 5, 0, 1, 2]);
    assert_eq!(subs[1], Submesh { starting_index: 3, index_count: 3 });
}
