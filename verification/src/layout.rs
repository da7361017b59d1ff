//! Layout of the data handed to the shaders: the per-draw uniform block of
//! a vehicle, and the per-vertex normals of a tetrahedral model.

use vstd::prelude::*;

verus! {

/// Number of slots of player one's uniform block.
pub const PLAYER_ONE_SLOTS: usize = 40;
/// Number of slots of player two's uniform block.
pub const PLAYER_TWO_SLOTS: usize = 80;

/// Slot `i` of player one's uniform block: the heading in slot 0, the
/// position in slots 2 and 3, and the rows of the view matrix in slots
/// 6..10, 11..15, 16..20 and 21..25; every other slot holds `blank`.
pub open spec fn player_one_slot<T>(blank: T, heading: T, position: (T, T), matrix: [[T; 4]; 4], i: int) -> T {
    if i == 0 {
        heading
    } else if i == 2 {
        position.0
    } else if i == 3 {
        position.1
    } else if 6 <= i < 10 {
        matrix[0][i - 6]
    } else if 11 <= i < 15 {
        matrix[1][i - 11]
    } else if 16 <= i < 20 {
        matrix[2][i - 16]
    } else if 21 <= i < 25 {
        matrix[3][i - 21]
    } else {
        blank
    }
}

/// Slot `i` of player two's uniform block: the heading in slot 0, the
/// position in slots 2 and 3, and the view matrix row after row in slots
/// 10..26; every other slot holds `blank`.
pub open spec fn player_two_slot<T>(blank: T, heading: T, position: (T, T), matrix: [[T; 4]; 4], i: int) -> T {
    if i == 0 {
        heading
    } else if i == 2 {
        position.0
    } else if i == 3 {
        position.1
    } else if 10 <= i < 14 {
        matrix[0][i - 10]
    } else if 14 <= i < 18 {
        matrix[1][i - 14]
    } else if 18 <= i < 22 {
        matrix[2][i - 18]
    } else if 22 <= i < 26 {
        matrix[3][i - 22]
    } else {
        blank
    }
}

fn blank_slots<T: Copy>(blank: T, n: usize) -> (slots: Vec<T>)
    ensures
        slots@ == Seq::new(n as nat, |i: int| blank),
{
    let mut slots: Vec<T> = Vec::new();
    let mut k: usize = 0;
    while k < n
        invariant
            k <= n,
            slots@ == Seq::new(k as nat, |i: int| blank),
        decreases n - k,
    {
        slots.push(blank);
        k = k + 1;
        proof {
            assert(slots@ =~= Seq::new(k as nat, |i: int| blank));
        }
    }
    slots
}

/// Player one's uniform block for one draw.
pub fn player_one_uniforms<T: Copy>(blank: T, heading: T, position: (T, T), matrix: &[[T; 4]; 4]) -> (slots: Vec<T>)
    ensures
        slots@ == Seq::new(PLAYER_ONE_SLOTS as nat, |i: int| player_one_slot(blank, heading, position, *matrix, i)),
        slots@.len() == 40,
        slots@[0] == heading,
        slots@[2] == position.0,
        slots@[3] == position.1,
        forall|r: int, c: int| 0 <= r < 4 && 0 <= c < 4 ==> slots@[6 + 5 * r + c] == #[trigger] matrix[r][c],
        forall|i: int|
            0 <= i < 40 && i != 0 && i != 2 && i != 3 && !(6 <= i < 10 || 11 <= i < 15 || 16 <= i < 20 || 21
                <= i < 25) ==> #[trigger] slots@[i] == blank,
{
    let mut slots = blank_slots(blank, PLAYER_ONE_SLOTS);
    slots.set(2, position.0);
    slots.set(3, position.1);
    slots.set(0, heading);
    let start: usize = 6;
    slots.set(start, matrix[0][0]);
    slots.set(start + 1, matrix[0][1]);
    slots.set(start + 2, matrix[0][2]);
    slots.set(start + 3, matrix[0][3]);
    slots.set(start + 5, matrix[1][0]);
    slots.set(start + 6, matrix[1][1]);
    slots.set(start + 7, matrix[1][2]);
    slots.set(start + 8, matrix[1][3]);
    slots.set(start + 10, matrix[2][0]);
    slots.set(start + 11, matrix[2][1]);
    slots.set(start + 12, matrix[2][2]);
    slots.set(start + 13, matrix[2][3]);
    slots.set(start + 15, matrix[3][0]);
    slots.set(start + 16, matrix[3][1]);
    slots.set(start + 17, matrix[3][2]);
    slots.set(start + 18, matrix[3][3]);
    proof {
        assert(slots@ =~= Seq::new(PLAYER_ONE_SLOTS as nat, |i: int| player_one_slot(blank, heading, position, *matrix, i)));
    }
    slots
}


/// Player two's uniform block for one draw.
pub fn player_two_uniforms<T: Copy>(blank: T, heading: T, position: (T, T), matrix: &[[T; 4]; 4]) -> (slots: Vec<T>)
    ensures
        slots@ == Seq::new(PLAYER_TWO_SLOTS as nat, |i: int| player_two_slot(blank, heading, position, *matrix, i)),
        slots@.len() == 80,
        slots@[0] == heading,
        slots@[2] == position.0,
        slots@[3] == position.1,
        forall|r: int, c: int| 0 <= r < 4 && 0 <= c < 4 ==> slots@[10 + 4 * r + c] == #[trigger] matrix[r][c],
        forall|i: int|
            0 <= i < 80 && i != 0 && i != 2 && i != 3 && !(10 <= i < 26) ==> #[trigger] slots@[i] == blank,
{
    let mut slots = blank_slots(blank, PLAYER_TWO_SLOTS);
    slots.set(2, position.0);
    slots.set(3, position.1);
    slots.set(0, heading);
    slots.set(10, matrix[0][0]);
    slots.set(11, matrix[0][1]);
    slots.set(12, matrix[0][2]);
    slots.set(13, matrix[0][3]);
    slots.set(14, matrix[1][0]);
    slots.set(15, matrix[1][1]);
    slots.set(16, matrix[1][2]);
    slots.set(17, matrix[1][3]);
    slots.set(18, matrix[2][0]);
    slots.set(19, matrix[2][1]);
    slots.set(20, matrix[2][2]);
    slots.set(21, matrix[2][3]);
    slots.set(22, matrix[3][0]);
    slots.set(23, matrix[3][1]);
    slots.set(24, matrix[3][2]);
    slots.set(25, matrix[3][3]);
    proof {
        assert(slots@ =~= Seq::new(PLAYER_TWO_SLOTS as nat, |i: int| player_two_slot(blank, heading, position, *matrix, i)));
    }
    slots
}

/// Slot `i` of an 80-slot block after the first two rows of `matrix` are
/// written into slots 20..28; every other slot keeps its value.
pub open spec fn upper_rows_slot<T>(before: Seq<T>, matrix: [[T; 4]; 4], i: int) -> T {
    if 20 <= i < 24 {
        matrix[0][i - 20]
    } else if 24 <= i < 28 {
        matrix[1][i - 24]
    } else {
        before[i]
    }
}

/// Writes the first two rows of `matrix` into slots 20..28 of an 80-slot
/// block.
pub fn write_upper_rows<T: Copy>(slots: &mut Vec<T>, matrix: &[[T; 4]; 4])
    requires
        old(slots)@.len() == PLAYER_TWO_SLOTS,
    ensures
        final(slots)@ == Seq::new(PLAYER_TWO_SLOTS as nat, |i: int| upper_rows_slot(old(slots)@, *matrix, i)),
        final(slots)@.len() == 80,
        forall|r: int, c: int| 0 <= r < 2 && 0 <= c < 4 ==> final(slots)@[20 + 4 * r + c] == #[trigger] matrix[r][c],
        forall|i: int| 0 <= i < 80 && !(20 <= i < 28) ==> #[trigger] final(slots)@[i] == old(slots)@[i],
{
    slots.set(20, matrix[0][0]);
    slots.set(21, matrix[0][1]);
    slots.set(22, matrix[0][2]);
    slots.set(23, matrix[0][3]);
    slots.set(24, matrix[1][0]);
    slots.set(25, matrix[1][1]);
    slots.set(26, matrix[1][2]);
    slots.set(27, matrix[1][3]);
    proof {
        assert(slots@ =~= Seq::new(PLAYER_TWO_SLOTS as nat, |i: int| upper_rows_slot(old(slots)@, *matrix, i)));
    }
}

/// The three corners of triangle `face` of a model stored as nine
/// coordinates per triangle.
pub fn face_corners<T: Copy>(vertices: &Vec<T>, face: usize) -> (corners: [[T; 3]; 3])
    requires
        9 * face + 9 <= vertices@.len(),
    ensures
        forall|v: int, c: int|
            0 <= v < 3 && 0 <= c < 3 ==> #[trigger] corners[v][c] == vertices@[9 * face + 3 * v + c],
{
    let len = vertices.len();
    assert(9 * face + 9 <= len);
    let base = 9 * face;
    let corners = [
        [vertices[base], vertices[base + 1], vertices[base + 2]],
        [vertices[base + 3], vertices[base + 4], vertices[base + 5]],
        [vertices[base + 6], vertices[base + 7], vertices[base + 8]],
    ];
    proof {
        assert forall|v: int, c: int| 0 <= v < 3 && 0 <= c < 3 implies #[trigger] corners[v][c] == vertices@[9 * face + 3 * v + c] by {
            if v == 0 {
                if c == 0 {} else if c == 1 {} else {}
            } else if v == 1 {
                if c == 0 {} else if c == 1 {} else {}
            } else {
                if c == 0 {} else if c == 1 {} else {}
            }
        }
    }
    corners
}

/// Each per-face value repeated for the three vertices of its triangle.
pub fn per_vertex<T: Copy>(face_values: &Vec<T>) -> (values: Vec<T>)
    requires
        3 * face_values@.len() <= usize::MAX,
    ensures
        values@ == Seq::new(3 * face_values@.len(), |i: int| face_values@[i / 3]),
{
    let mut values: Vec<T> = Vec::new();
    let mut f: usize = 0;
    while f < face_values.len()
        invariant
            f <= face_values@.len(),
            3 * face_values@.len() <= usize::MAX,
            values@ == Seq::new(3 * f as nat, |i: int| face_values@[i / 3]),
        decreases face_values@.len() - f,
    {
        let value = face_values[f];
        values.push(value);
        values.push(value);
        values.push(value);
        proof {
            assert(values@ =~= Seq::new(3 * (f + 1) as nat, |i: int| face_values@[i / 3]));
        }
        f = f + 1;
    }
    values
}

/// Triples laid out one after another.
pub fn flatten_triples<T: Copy>(triples: &Vec<[T; 3]>) -> (flat: Vec<T>)
    requires
        3 * triples@.len() <= usize::MAX,
    ensures
        flat@ == Seq::new(3 * triples@.len(), |i: int| triples@[i / 3][i % 3]),
{
    let mut flat: Vec<T> = Vec::new();
    let mut n: usize = 0;
    while n < triples.len()
        invariant
            n <= triples@.len(),
            3 * triples@.len() <= usize::MAX,
            flat@ == Seq::new(3 * n as nat, |i: int| triples@[i / 3][i % 3]),
        decreases triples@.len() - n,
    {
        let triple = triples[n];
        flat.push(triple[0]);
        flat.push(triple[1]);
        flat.push(triple[2]);
        proof {
            assert(flat@ =~= Seq::new(3 * (n + 1) as nat, |i: int| triples@[i / 3][i % 3]));
        }
        n = n + 1;
    }
    flat
}


/// Player one's block holds the view matrix with a stride of five slots per
/// row, and player two's holds it row after row from slot 10; no matrix
/// slot coincides with the heading or position slots.
pub proof fn lemma_matrix_slots<T>(blank: T, heading: T, position: (T, T), matrix: [[T; 4]; 4], r: int, c: int)
    requires
        0 <= r < 4,
        0 <= c < 4,
    ensures
        player_one_slot(blank, heading, position, matrix, 6 + 5 * r + c) == matrix[r][c],
        player_two_slot(blank, heading, position, matrix, 10 + 4 * r + c) == matrix[r][c],
        6 + 5 * r + c > 3,
        10 + 4 * r + c > 3,
{
}

/// The per-vertex normals built for a model (each face normal repeated for
/// the face's three vertices, then laid out flat) give coordinate `c` of
/// vertex `v` of face `f` the coordinate `c` of that face's normal.
pub proof fn lemma_vertex_normal_of_face<T>(normals: Seq<[T; 3]>, f: int, v: int, c: int)
    requires
        0 <= f < normals.len(),
        0 <= v < 3,
        0 <= c < 3,
    ensures
        ({
            let per = Seq::new(3 * normals.len(), |i: int| normals[i / 3]);
            let flat = Seq::new(3 * per.len(), |i: int| per[i / 3][i % 3]);
            &&& flat.len() == 9 * normals.len()
            &&& flat[9 * f + 3 * v + c] == normals[f][c]
        }),
{
    let per = Seq::new(3 * normals.len(), |i: int| normals[i / 3]);
    let i = 9 * f + 3 * v + c;
    assert(i / 3 == 3 * f + v);
    assert(i % 3 == c);
    assert((3 * f + v) / 3 == f);
    assert(per[3 * f + v] == normals[f]);
}


/// Only the heading, position and matrix slots of a uniform block carry
/// data: every other slot of player one's and player two's blocks holds
/// `blank`.
pub proof fn lemma_unused_slots_blank<T>(blank: T, heading: T, position: (T, T), matrix: [[T; 4]; 4], i: int)
    requires
        i != 0 && i != 2 && i != 3,
    ensures
        0 <= i < 40 && !(6 <= i < 10 || 11 <= i < 15 || 16 <= i < 20 || 21 <= i < 25) ==> player_one_slot(
            blank,
            heading,
            position,
            matrix,
            i,
        ) == blank,
        0 <= i < 80 && !(10 <= i < 26) ==> player_two_slot(blank, heading, position, matrix, i) == blank,
        player_one_slot(blank, heading, position, matrix, 0) == heading,
        player_two_slot(blank, heading, position, matrix, 0) == heading,
        player_one_slot(blank, heading, position, matrix, 2) == position.0,
        player_two_slot(blank, heading, position, matrix, 3) == position.1,
{
}

} // verus!
