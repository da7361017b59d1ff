use torpedo_duel::layout::{
    face_corners, flatten_triples, per_vertex, player_one_uniforms, player_two_uniforms, write_upper_rows,
};

fn matrix() -> [[f32; 4]; 4] {
    let mut m = [[0.0f32; 4]; 4];
    for r in 0..4 {
        for c in 0..4 {
            m[r][c] = (r * 4 + c + 1) as f32;
        }
    }
    m
}

#[test]
fn player_one_block() {
    let m = matrix();
    let slots = player_one_uniforms(0.0f32, 0.3, (0.25, -0.5), &m);
    assert_eq!(slots.len(), 40);
    assert_eq!(slots[0], 0.3);
    assert_eq!(slots[1], 0.0);
    assert_eq!(slots[2], 0.25);
    assert_eq!(slots[3], -0.5);
    for r in 0..4 {
        for c in 0..4 {
            assert_eq!(slots[6 + 5 * r + c], m[r][c]);
        }
        assert_eq!(slots[6 + 5 * r + 4], 0.0);
    }
    for i in 25..40 {
        assert_eq!(slots[i], 0.0);
    }
}

#[test]
fn player_two_block() {
    let m = matrix();
    let slots = player_two_uniforms(0.0f32, -0.3, (0.1, 0.2), &m);
    assert_eq!(slots.len(), 80);
    assert_eq!(slots[0], -0.3);
    assert_eq!(slots[2], 0.1);
    assert_eq!(slots[3], 0.2);
    for i in 4..10 {
        assert_eq!(slots[i], 0.0);
    }
    for i in 0..16 {
        assert_eq!(slots[10 + i], (i + 1) as f32);
    }
    for i in 26..80 {
        assert_eq!(slots[i], 0.0);
    }
}

#[test]
fn upper_rows_written_in_place() {
    let m = matrix();
    let mut slots = vec![-1.0f32; 80];
    write_upper_rows(&mut slots, &m);
    for i in 0..80 {
        if (20..28).contains(&i) {
            assert_eq!(slots[i], (i - 19) as f32);
        } else {
            assert_eq!(slots[i], -1.0);
        }
    }
}

#[test]
fn corners_and_normals() {
    let vertices: Vec<i32> = (0..36).collect();
    let corners = face_corners(&vertices, 2);
    assert_eq!(corners, [[18, 19, 20], [21, 22, 23], [24, 25, 26]]);
    let corners = face_corners(&vertices, 3);
    assert_eq!(corners[2], [33, 34, 35]);
    let per = per_vertex(&vec![[1, 2, 3], [4, 5, 6]]);
    assert_eq!(per, vec![[1, 2, 3], [1, 2, 3], [1, 2, 3], [4, 5, 6], [4, 5, 6], [4, 5, 6]]);
    let flat = flatten_triples(&per);
    assert_eq!(flat, vec![1, 2, 3, 1, 2, 3, 1, 2, 3, 4, 5, 6, 4, 5, 6, 4, 5, 6]);
    let empty: Vec<[u8; 3]> = vec![];
    assert!(flatten_triples(&empty).is_empty());
}
