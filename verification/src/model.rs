//! Index data of meshes loaded from OBJ files: faces split into triangle
//! fans, and index groups laid out one after another as submeshes.
use vstd::prelude::*;

verus! {

/// A run of `index_count` indices starting at `starting_index` in a mesh's
/// index buffer, drawn with one material.
#[derive(Debug, Clone, Copy, PartialEq, Eq, Structural)]
pub struct Submesh {
    pub starting_index: u32,
    pub index_count: u32,
}

/// The indices of the fan that splits a face of `numverts` vertices, the
/// first of which is vertex `first`: one triangle (first, first + i + 1,
/// first + i + 2) for each `i` below `numverts - 2`.
pub open spec fn fan(first: int, numverts: int) -> Seq<int> {
    Seq::new(
        (3 * (numverts - 2)) as nat,
        |k: int|
            if k % 3 == 0 {
                first
            } else if k % 3 == 1 {
                first + k / 3 + 1
            } else {
                first + k / 3 + 2
            },
    )
}

/// Appends the triangle fan of a face of `numverts` vertices whose first
/// vertex is `first`.
pub fn push_face_fan(indices: &mut Vec<u16>, first: u16, numverts: usize)
    requires
        numverts >= 2,
        first + numverts - 1 <= u16::MAX,
        old(indices)@.len() + 3 * (numverts - 2) <= usize::MAX,
    ensures
        final(indices)@.len() == old(indices)@.len() + 3 * (numverts - 2),
        forall|k: int| 0 <= k < old(indices)@.len() ==> #[trigger] final(indices)@[k] == old(indices)@[k],
        forall|k: int|
            0 <= k < 3 * (numverts - 2) ==> #[trigger] final(indices)@[old(indices)@.len() + k]
                == fan(first as int, numverts as int)[k],
{
    let ghost start = indices@.len();
    let ghost before = indices@;
    let count = numverts - 2;
    let mut i: usize = 0;
    while i < count
        invariant
            count == numverts - 2,
            first + numverts - 1 <= u16::MAX,
            start == before.len(),
            i <= count,
            indices@.len() == start + 3 * i,
            forall|k: int| 0 <= k < start ==> #[trigger] indices@[k] == before[k],
            forall|k: int|
                0 <= k < 3 * i ==> #[trigger] indices@[start + k] == fan(first as int, numverts as int)[k],
        decreases count - i,
    {
        let ghost prev = indices@;
        indices.push(first);
        indices.push(first + i as u16 + 1);
        indices.push(first + i as u16 + 2);
        proof {
            assert forall|k: int|
                0 <= k < 3 * (i + 1) implies #[trigger] indices@[start + k] == fan(
                first as int,
                numverts as int,
            )[k] by {
                if k >= 3 * i {
                    assert(k / 3 == i);
                } else {
                    assert(indices@[start + k] == prev[start + k]);
                }
            }
        }
        i += 1;
    }
}

/// One face of an OBJ mesh as the index builder sees it: its number of
/// vertices and the material it is drawn with, as a position in the file's
/// material list, if any.
#[derive(Debug, Clone, Copy, PartialEq, Eq, Structural)]
pub struct FaceShape {
    pub vertex_count: usize,
    pub material: Option<usize>,
}

/// The first vertex of face `k`: the faces' vertices are numbered in file
/// order, so it is the number of vertices of the faces before it.
pub open spec fn first_vertex(faces: Seq<FaceShape>, k: int) -> int
    decreases k,
{
    if k <= 0 {
        0
    } else {
        first_vertex(faces, k - 1) + faces[k - 1].vertex_count
    }
}

/// The indices drawn with `material` among the first `n` faces: the
/// triangle fans of those faces, in file order.
pub open spec fn material_group(faces: Seq<FaceShape>, material: Option<usize>, n: int) -> Seq<int>
    decreases n,
{
    if n <= 0 {
        Seq::empty()
    } else if faces[n - 1].material == material {
        material_group(faces, material, n - 1) + fan(
            first_vertex(faces, n - 1),
            faces[n - 1].vertex_count as int,
        )
    } else {
        material_group(faces, material, n - 1)
    }
}

/// The materials used by the first `n` faces, in order of first use.
pub open spec fn materials_used(faces: Seq<FaceShape>, n: int) -> Seq<usize>
    decreases n,
{
    if n <= 0 {
        Seq::empty()
    } else {
        let before = materials_used(faces, n - 1);
        match faces[n - 1].material {
            Some(m) => if before.contains(m) {
                before
            } else {
                before.push(m)
            },
            None => before,
        }
    }
}

/// The index groups of a mesh, one per submesh: the faces without a
/// material first (only if they have indices), then one group per material
/// in order of first use.
pub open spec fn face_groups(faces: Seq<FaceShape>) -> Seq<Seq<int>> {
    let n = faces.len() as int;
    let lead: Seq<Seq<int>> = if material_group(faces, None, n).len() > 0 {
        seq![material_group(faces, None, n)]
    } else {
        Seq::empty()
    };
    lead + materials_used(faces, n).map_values(|m: usize| material_group(faces, Some(m), n))
}

/// Indices as integers.
pub open spec fn as_ints(s: Seq<u16>) -> Seq<int> {
    s.map_values(|x: u16| x as int)
}

proof fn lemma_first_vertex_monotonic(faces: Seq<FaceShape>, a: int, b: int)
    requires
        0 <= a <= b,
    ensures
        first_vertex(faces, a) <= first_vertex(faces, b),
    decreases b - a,
{
    if a < b {
        lemma_first_vertex_monotonic(faces, a, b - 1);
    }
}

proof fn lemma_group_len(faces: Seq<FaceShape>, material: Option<usize>, n: int)
    requires
        0 <= n <= faces.len(),
        forall|k: int| 0 <= k < faces.len() ==> (#[trigger] faces[k]).vertex_count >= 2,
    ensures
        material_group(faces, material, n).len() <= 3 * first_vertex(faces, n),
    decreases n,
{
    if n > 0 {
        lemma_group_len(faces, material, n - 1);
    }
}

proof fn lemma_unused_material_group_empty(faces: Seq<FaceShape>, m: usize, n: int)
    requires
        0 <= n,
        !materials_used(faces, n).contains(m),
    ensures
        material_group(faces, Some(m), n) == Seq::<int>::empty(),
    decreases n,
{
    if n > 0 {
        let before = materials_used(faces, n - 1);
        let after = materials_used(faces, n);
        assert(forall|j: int| 0 <= j < before.len() ==> after[j] == before[j]);
        if before.contains(m) {
            let j = choose|j: int| 0 <= j < before.len() && before[j] == m;
            assert(after[j] == m);
        }
        if faces[n - 1].material == Some(m) {
            assert(after[after.len() - 1] == m);
        }
        lemma_unused_material_group_empty(faces, m, n - 1);
    }
}

proof fn lemma_materials_distinct(faces: Seq<FaceShape>, n: int)
    requires
        0 <= n,
    ensures
        forall|i: int, j: int|
            0 <= i < j < materials_used(faces, n).len() ==> materials_used(faces, n)[i]
                != materials_used(faces, n)[j],
    decreases n,
{
    if n > 0 {
        lemma_materials_distinct(faces, n - 1);
        let before = materials_used(faces, n - 1);
        let after = materials_used(faces, n);
        assert forall|i: int, j: int| 0 <= i < j < after.len() implies after[i] != after[j] by {
            if j == before.len() {
                assert(after[i] == before[i]);
            }
        }
    }
}

/// A face of `numverts >= 2` vertices gives `numverts - 2` triangles, three
/// indices each; triangle `t` is `(first, first + t + 1, first + t + 2)`.
pub proof fn lemma_fan_triangles(first: int, numverts: int, t: int)
    requires
        numverts >= 2,
        0 <= t < numverts - 2,
    ensures
        fan(first, numverts).len() == 3 * (numverts - 2),
        fan(first, numverts)[3 * t] == first,
        fan(first, numverts)[3 * t + 1] == first + t + 1,
        fan(first, numverts)[3 * t + 2] == first + t + 2,
{
    assert((3 * t) / 3 == t && (3 * t) % 3 == 0);
    assert((3 * t + 1) / 3 == t && (3 * t + 1) % 3 == 1);
    assert((3 * t + 2) / 3 == t && (3 * t + 2) % 3 == 2);
}

/// Face `k` starts right after the vertices of the faces before it, and its
/// whole triangle fan is appended to the group of its own material, after
/// the fans of the earlier faces of that material; every other group is left
/// as it was.
pub proof fn lemma_face_joins_its_group(faces: Seq<FaceShape>, m: Option<usize>, k: int)
    requires
        0 <= k < faces.len(),
    ensures
        first_vertex(faces, k + 1) == first_vertex(faces, k) + faces[k].vertex_count,
        faces[k].material == m ==> material_group(faces, m, k + 1) == material_group(faces, m, k)
            + fan(first_vertex(faces, k), faces[k].vertex_count as int),
        faces[k].material != m ==> material_group(faces, m, k + 1) == material_group(faces, m, k),
{
}

/// The number of indices the faces before `n` give: three per triangle,
/// `numverts - 2` triangles per face.
pub open spec fn fan_index_count(faces: Seq<FaceShape>, n: int) -> int
    decreases n,
{
    if n <= 0 {
        0
    } else {
        fan_index_count(faces, n - 1) + 3 * (faces[n - 1].vertex_count - 2)
    }
}

/// The number of indices in all the groups together.
pub open spec fn total_len(gs: Seq<Seq<int>>) -> int
    decreases gs.len(),
{
    if gs.len() == 0 {
        0
    } else {
        total_len(gs.drop_last()) + gs.last().len()
    }
}

spec fn groups_of(faces: Seq<FaceShape>, ms: Seq<usize>, n: int) -> Seq<Seq<int>> {
    ms.map_values(|m: usize| material_group(faces, Some(m), n))
}

proof fn lemma_total_len_concat(a: Seq<Seq<int>>, b: Seq<Seq<int>>)
    ensures
        total_len(a + b) == total_len(a) + total_len(b),
    decreases b.len(),
{
    if b.len() > 0 {
        assert((a + b).drop_last() =~= a + b.drop_last());
        lemma_total_len_concat(a, b.drop_last());
    } else {
        assert(a + b =~= a);
    }
}

proof fn lemma_groups_step(faces: Seq<FaceShape>, ms: Seq<usize>, n: int)
    requires
        0 <= n < faces.len(),
        faces[n].vertex_count >= 2,
        forall|i: int, j: int| 0 <= i < j < ms.len() ==> ms[i] != ms[j],
    ensures
        total_len(groups_of(faces, ms, n + 1)) == total_len(groups_of(faces, ms, n)) + match faces[n].material {
            Some(m0) => if ms.contains(m0) {
                3 * (faces[n].vertex_count - 2)
            } else {
                0
            },
            None => 0,
        },
    decreases ms.len(),
{
    if ms.len() > 0 {
        let rest = ms.drop_last();
        let x = ms.last();
        assert(groups_of(faces, ms, n + 1).drop_last() =~= groups_of(faces, rest, n + 1));
        assert(groups_of(faces, ms, n).drop_last() =~= groups_of(faces, rest, n));
        lemma_groups_step(faces, rest, n);
        lemma_face_joins_its_group(faces, Some(x), n);
        if let Some(m0) = faces[n].material {
            if ms.contains(m0) && m0 != x {
                let j = choose|j: int| 0 <= j < ms.len() && ms[j] == m0;
                assert(rest[j] == m0);
            }
            if m0 == x {
                assert(ms[ms.len() - 1] == x);
                if rest.contains(m0) {
                    let j = choose|j: int| 0 <= j < rest.len() && rest[j] == m0;
                    assert(ms[j] == m0);
                }
            }
            if rest.contains(m0) {
                let j = choose|j: int| 0 <= j < rest.len() && rest[j] == m0;
                assert(ms[j] == m0);
            }
        }
    } else {
        assert(groups_of(faces, ms, n + 1) =~= Seq::<Seq<int>>::empty());
        assert(groups_of(faces, ms, n) =~= Seq::<Seq<int>>::empty());
    }
}

proof fn lemma_counted_upto(faces: Seq<FaceShape>, n: int)
    requires
        0 <= n <= faces.len(),
        forall|k: int| 0 <= k < faces.len() ==> (#[trigger] faces[k]).vertex_count >= 2,
    ensures
        total_len(groups_of(faces, materials_used(faces, n), n)) + material_group(faces, None, n).len()
            == fan_index_count(faces, n),
    decreases n,
{
    if n == 0 {
        assert(groups_of(faces, materials_used(faces, 0), 0) =~= Seq::<Seq<int>>::empty());
    } else {
        let k = n - 1;
        lemma_counted_upto(faces, k);
        lemma_materials_distinct(faces, k);
        lemma_groups_step(faces, materials_used(faces, k), k);
        lemma_face_joins_its_group(faces, None, k);
        let ms = materials_used(faces, k);
        match faces[k].material {
            None => {},
            Some(m0) => {
                if !ms.contains(m0) {
                    let ms1 = materials_used(faces, n);
                    assert(ms1 == ms.push(m0));
                    assert(groups_of(faces, ms1, n).drop_last() =~= groups_of(faces, ms, n));
                    lemma_unused_material_group_empty(faces, m0, k);
                    lemma_face_joins_its_group(faces, Some(m0), k);
                }
            },
        }
    }
}

/// No face is lost or counted twice: over all the groups together there are
/// exactly three indices for each triangle of each face.
pub proof fn lemma_every_face_counted(faces: Seq<FaceShape>)
    requires
        forall|k: int| 0 <= k < faces.len() ==> (#[trigger] faces[k]).vertex_count >= 2,
    ensures
        total_len(face_groups(faces)) == fan_index_count(faces, faces.len() as int),
{
    let n = faces.len() as int;
    lemma_counted_upto(faces, n);
    let none = material_group(faces, None, n);
    let lead: Seq<Seq<int>> = if none.len() > 0 {
        seq![none]
    } else {
        Seq::empty()
    };
    assert(face_groups(faces) =~= lead + groups_of(faces, materials_used(faces, n), n));
    lemma_total_len_concat(lead, groups_of(faces, materials_used(faces, n), n));
    if none.len() > 0 {
        assert(lead.drop_last() =~= Seq::<Seq<int>>::empty());
        assert(total_len(lead.drop_last()) == 0);
        assert(lead.last() == none);
    }
    assert(total_len(lead) == none.len());
}

/// Whether one of the faces before `n` is drawn with material `m`.
pub open spec fn used_before(faces: Seq<FaceShape>, m: usize, n: int) -> bool {
    exists|k: int| 0 <= k < n && #[trigger] faces[k].material == Some(m)
}

proof fn lemma_materials_used_upto(faces: Seq<FaceShape>, n: int)
    requires
        0 <= n <= faces.len(),
    ensures
        forall|m: usize| #[trigger] materials_used(faces, n).contains(m) <==> used_before(faces, m, n),
        forall|i: int, j: int, k: int|
            #![trigger faces[k].material, materials_used(faces, n)[i], materials_used(faces, n)[j]]
            0 <= i < j < materials_used(faces, n).len() && 0 <= k < n && faces[k].material
                == Some(materials_used(faces, n)[j]) ==> used_before(faces, materials_used(faces, n)[i], k),
    decreases n,
{
    if n > 0 {
        let p = n - 1;
        lemma_materials_used_upto(faces, p);
        let before = materials_used(faces, p);
        let after = materials_used(faces, n);
        assert forall|i: int| 0 <= i < before.len() implies #[trigger] after[i] == before[i] by {}
        assert forall|m: usize| #[trigger] after.contains(m) <==> used_before(faces, m, n) by {
            if after.contains(m) {
                let j = choose|j: int| 0 <= j < after.len() && after[j] == m;
                if j < before.len() {
                    assert(before[j] == m);
                    assert(before.contains(m));
                    let k = choose|k: int| 0 <= k < p && #[trigger] faces[k].material == Some(m);
                    assert(faces[k].material == Some(m));
                } else {
                    assert(faces[p].material == Some(m));
                }
            }
            if used_before(faces, m, n) {
                let k = choose|k: int| 0 <= k < n && #[trigger] faces[k].material == Some(m);
                if k < p {
                    assert(used_before(faces, m, p));
                    assert(before.contains(m));
                    let j = choose|j: int| 0 <= j < before.len() && before[j] == m;
                    assert(after[j] == m);
                } else if before.contains(m) {
                    let j = choose|j: int| 0 <= j < before.len() && before[j] == m;
                    assert(after[j] == m);
                } else {
                    assert(after[after.len() - 1] == m);
                }
            }
        }
        assert forall|i: int, j: int, k: int|
            #![trigger faces[k].material, after[i], after[j]]
            0 <= i < j < after.len() && 0 <= k < n && faces[k].material == Some(after[j]) implies used_before(
            faces,
            after[i],
            k,
        ) by {
            assert(after[i] == before[i]);
            assert(before.contains(before[i]));
            let k2 = choose|k2: int| 0 <= k2 < p && #[trigger] faces[k2].material == Some(before[i]);
            if k < p {
                if j < before.len() {
                    assert(after[j] == before[j]);
                } else {
                    assert(used_before(faces, after[j], p));
                    assert(before.contains(after[j]));
                    assert(after.contains(after[j]));
                    assert(false);
                }
            } else {
                assert(faces[k2].material == Some(after[i]));
            }
        }
    }
}

/// How the groups are laid out: first the group of the faces without a
/// material, only if it holds any index; then one group per material that
/// some face uses, each material once, in order of first use.
pub proof fn lemma_face_groups_layout(faces: Seq<FaceShape>)
    ensures
        material_group(faces, None, faces.len() as int).len() > 0 ==> face_groups(faces).len() == 1
            + materials_used(faces, faces.len() as int).len() && face_groups(faces)[0]
            == material_group(faces, None, faces.len() as int) && forall|j: int|
            0 <= j < materials_used(faces, faces.len() as int).len() ==> face_groups(faces)[1 + j]
                == material_group(faces, Some(#[trigger] materials_used(faces, faces.len() as int)[j]), faces.len() as int),
        material_group(faces, None, faces.len() as int).len() == 0 ==> face_groups(faces).len()
            == materials_used(faces, faces.len() as int).len() && forall|j: int|
            0 <= j < materials_used(faces, faces.len() as int).len() ==> face_groups(faces)[j]
                == material_group(faces, Some(#[trigger] materials_used(faces, faces.len() as int)[j]), faces.len() as int),
        forall|i: int, j: int|
            0 <= i < j < materials_used(faces, faces.len() as int).len() ==> materials_used(faces, faces.len() as int)[i]
                != materials_used(faces, faces.len() as int)[j],
        forall|m: usize|
            #[trigger] materials_used(faces, faces.len() as int).contains(m) <==> used_before(faces, m, faces.len() as int),
        forall|i: int, j: int, k: int|
            #![trigger faces[k].material, materials_used(faces, faces.len() as int)[i], materials_used(faces, faces.len() as int)[j]]
            0 <= i < j < materials_used(faces, faces.len() as int).len() && 0 <= k < faces.len() as int
                && faces[k].material == Some(materials_used(faces, faces.len() as int)[j]) ==> used_before(
                faces,
                materials_used(faces, faces.len() as int)[i],
                k,
            ),
{
    let n = faces.len() as int;
    lemma_materials_distinct(faces, n);
    lemma_materials_used_upto(faces, n);
    let none = material_group(faces, None, n);
    let mu = materials_used(faces, n);
    let lead_groups: Seq<Seq<int>> = if none.len() > 0 {
        seq![none]
    } else {
        Seq::empty()
    };
    let rest = groups_of(faces, mu, n);
    assert(face_groups(faces) =~= lead_groups + rest);
    assert forall|j: int| 0 <= j < mu.len() implies face_groups(faces)[lead_groups.len() + j]
        == material_group(faces, Some(#[trigger] mu[j]), n) by {
        assert((lead_groups + rest)[lead_groups.len() + j] == rest[j]);
    }
    assert forall|i: int, j: int, k: int|
        #![trigger faces[k].material, mu[i], mu[j]]
        0 <= i < j < mu.len() && 0 <= k < n && faces[k].material == Some(mu[j]) implies used_before(
        faces,
        mu[i],
        k,
    ) by {}
}

proof fn lemma_append_fan(before: Seq<u16>, after: Seq<u16>, f: Seq<int>)
    requires
        after.len() == before.len() + f.len(),
        forall|k: int| 0 <= k < before.len() ==> #[trigger] after[k] == before[k],
        forall|k: int| 0 <= k < f.len() ==> #[trigger] after[before.len() + k] == f[k],
    ensures
        as_ints(after) =~= as_ints(before) + f,
{
    assert forall|i: int| 0 <= i < after.len() implies #[trigger] as_ints(after)[i] == (as_ints(before)
        + f)[i] by {
        if i >= before.len() {
            assert(after[before.len() + (i - before.len())] == f[i - before.len()]);
        }
    }
}

fn find_material(mats: &Vec<usize>, m: usize) -> (r: Option<usize>)
    ensures
        match r {
            Some(j) => j < mats@.len() && mats@[j as int] == m,
            None => !mats@.contains(m),
        },
{
    let mut j: usize = 0;
    while j < mats.len()
        invariant
            j <= mats@.len(),
            forall|i: int| 0 <= i < j ==> mats@[i] != m,
        decreases mats@.len() - j,
    {
        if mats[j] == m {
            return Some(j);
        }
        j += 1;
    }
    None
}

/// Splits the faces of a mesh into triangle fans and groups their indices by
/// material, one group per submesh: the faces without a material first (only
/// if they give any index), then one group per material in order of first
/// use. Vertices are numbered in file order.
pub fn face_index_groups(faces: &Vec<FaceShape>) -> (r: Vec<Vec<u16>>)
    requires
        forall|k: int| 0 <= k < faces@.len() ==> (#[trigger] faces@[k]).vertex_count >= 2,
        first_vertex(faces@, faces@.len() as int) <= u16::MAX,
    ensures
        r@.len() == face_groups(faces@).len(),
        forall|j: int| 0 <= j < r@.len() ==> as_ints((#[trigger] r@[j])@) == face_groups(faces@)[j],
{
    let ghost fs = faces@;
    let mut no_material: Vec<u16> = Vec::new();
    let mut mats: Vec<usize> = Vec::new();
    let mut groups: Vec<Vec<u16>> = Vec::new();
    let mut index: u16 = 0;
    let n = faces.len();
    let mut k: usize = 0;
    while k < n
        invariant
            fs == faces@,
            n == fs.len(),
            k <= n,
            forall|i: int| 0 <= i < fs.len() ==> (#[trigger] fs[i]).vertex_count >= 2,
            first_vertex(fs, n as int) <= u16::MAX,
            index == first_vertex(fs, k as int),
            as_ints(no_material@) == material_group(fs, None, k as int),
            mats@ == materials_used(fs, k as int),
            groups@.len() == mats@.len(),
            forall|j: int|
                0 <= j < groups@.len() ==> as_ints((#[trigger] groups@[j])@) == material_group(
                    fs,
                    Some(mats@[j]),
                    k as int,
                ),
        decreases n - k,
    {
        let face = faces[k];
        proof {
            lemma_first_vertex_monotonic(fs, k as int + 1, n as int);
            lemma_group_len(fs, face.material, k as int);
            lemma_first_vertex_monotonic(fs, k as int, n as int);
        }
        let ghost f = fan(index as int, face.vertex_count as int);
        match face.material {
            None => {
                let ghost before = no_material@;
                push_face_fan(&mut no_material, index, face.vertex_count);
                proof {
                    lemma_append_fan(before, no_material@, f);
                }
                assert forall|j: int| 0 <= j < groups@.len() implies as_ints((#[trigger] groups@[j])@)
                    == material_group(fs, Some(mats@[j]), k + 1) by {}
            },
            Some(m) => {
                let pos = match find_material(&mats, m) {
                    Some(j) => j,
                    None => {
                        proof {
                            lemma_unused_material_group_empty(fs, m, k as int);
                        }
                        mats.push(m);
                        groups.push(Vec::new());
                        assert(as_ints(groups@[groups@.len() - 1]@) =~= Seq::<int>::empty());
                        groups.len() - 1
                    },
                };
                let ghost mid = groups@;
                proof {
                    assert(mats@[pos as int] == m);
                    assert(mats@.contains(m));
                    assert(mats@ == materials_used(fs, k as int + 1));
                    lemma_materials_distinct(fs, k as int + 1);
                }
                assert(as_ints(mid[pos as int]@) == material_group(fs, Some(m), k as int));
                let mut group: Vec<u16> = Vec::new();
                std::mem::swap(&mut group, &mut groups[pos]);
                let ghost before = group@;
                assert(before == mid[pos as int]@);
                proof {
                    lemma_group_len(fs, Some(m), k as int);
                }
                push_face_fan(&mut group, index, face.vertex_count);
                proof {
                    lemma_append_fan(before, group@, f);
                }
                groups.set(pos, group);
                assert forall|j: int| 0 <= j < groups@.len() implies as_ints((#[trigger] groups@[j])@)
                    == material_group(fs, Some(mats@[j]), k + 1) by {
                    if j != pos {
                        assert(groups@[j] == mid[j]);
                        if j < pos {
                            assert(mats@[j] != mats@[pos as int]);
                        } else {
                            assert(mats@[pos as int] != mats@[j]);
                        }
                    }
                }
                assert(as_ints(no_material@) == material_group(fs, None, k + 1));
            },
        }
        index = index + face.vertex_count as u16;
        k += 1;
    }
    assert(fs.len() == n);
    let mut r: Vec<Vec<u16>> = Vec::new();
    if no_material.len() > 0 {
        r.push(no_material);
    }
    let ghost lead = r@;
    let ghost gs = groups@;
    r.append(&mut groups);
    proof {
        let expected = face_groups(fs);
        assert forall|j: int| 0 <= j < r@.len() implies as_ints((#[trigger] r@[j])@) == expected[j] by {
            if j >= lead.len() {
                assert(r@[j] == gs[j - lead.len()]);
            }
        }
    }
    r
}

/// The sum of the lengths of the first `n` groups.
pub open spec fn groups_len(groups: Seq<Seq<u16>>, n: int) -> int
    decreases n,
{
    if n <= 0 {
        0
    } else {
        groups_len(groups, n - 1) + groups[n - 1].len()
    }
}

/// All groups one after another.
pub open spec fn concat_groups(groups: Seq<Seq<u16>>, n: int) -> Seq<u16>
    decreases n,
{
    if n <= 0 {
        Seq::empty()
    } else {
        concat_groups(groups, n - 1) + groups[n - 1]
    }
}

proof fn lemma_concat_len(groups: Seq<Seq<u16>>, n: int)
    requires
        0 <= n <= groups.len(),
    ensures
        concat_groups(groups, n).len() == groups_len(groups, n),
    decreases n,
{
    if n > 0 {
        lemma_concat_len(groups, n - 1);
    }
}

proof fn lemma_groups_len_monotonic(groups: Seq<Seq<u16>>, a: int, b: int)
    requires
        0 <= a <= b <= groups.len(),
    ensures
        groups_len(groups, a) <= groups_len(groups, b),
    decreases b - a,
{
    if a < b {
        lemma_groups_len_monotonic(groups, a, b - 1);
    }
}

/// Lays index groups out one after another in one index buffer, with one
/// submesh per group recording where it starts and how long it is.
pub fn layout_submeshes(groups: Vec<Vec<u16>>) -> (r: (Vec<u16>, Vec<Submesh>))
    requires
        groups_len(groups@.map_values(|g: Vec<u16>| g@), groups@.len() as int) <= u32::MAX,
    ensures
        r.0@ == concat_groups(
            groups@.map_values(|g: Vec<u16>| g@),
            groups@.len() as int,
        ),
        r.1@.len() == groups@.len(),
        forall|i: int|
            0 <= i < groups@.len() ==> (#[trigger] r.1@[i]).starting_index == groups_len(
                groups@.map_values(|g: Vec<u16>| g@),
                i,
            ) && r.1@[i].index_count == groups@[i]@.len(),
{
    let ghost gv = groups@.map_values(|g: Vec<u16>| g@);
    let mut all_indices: Vec<u16> = Vec::new();
    let mut submeshes: Vec<Submesh> = Vec::new();
    let mut submesh_idx: u32 = 0;
    let n = groups.len();
    let mut i: usize = 0;
    while i < n
        invariant
            n == groups@.len(),
            gv == groups@.map_values(|g: Vec<u16>| g@),
            groups_len(gv, n as int) <= u32::MAX,
            i <= n,
            submesh_idx == groups_len(gv, i as int),
            all_indices@ == concat_groups(gv, i as int),
            submeshes@.len() == i,
            forall|k: int|
                0 <= k < i ==> (#[trigger] submeshes@[k]).starting_index == groups_len(gv, k)
                    && submeshes@[k].index_count == groups@[k]@.len(),
        decreases n - i,
    {
        proof {
            lemma_groups_len_monotonic(gv, i as int + 1, n as int);
            assert(gv[i as int] == groups@[i as int]@);
        }
        let group = &groups[i];
        let len = group.len() as u32;
        submeshes.push(Submesh { starting_index: submesh_idx, index_count: len });
        let mut j: usize = 0;
        let ghost prefix = all_indices@;
        while j < group.len()
            invariant
                j <= group@.len(),
                all_indices@ == prefix + group@.subrange(0, j as int),
            decreases group@.len() - j,
        {
            all_indices.push(group[j]);
            j += 1;
            assert(all_indices@ =~= prefix + group@.subrange(0, j as int));
        }
        assert(group@.subrange(0, group@.len() as int) =~= group@);
        submesh_idx += len;
        i += 1;
    }
    (all_indices, submeshes)
}

} // verus!
