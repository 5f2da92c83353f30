use gouda::perlin::{corner_hashes, permutation_table, shuffled_permutation_table};

fn identity() -> [usize; 256] {
    let mut p = [0usize; 256];
    for (i, v) in p.iter_mut().enumerate() {
        *v = i;
    }
    p
}

#[test]
fn table_repeats_the_permutation() {
    let mut perm = identity();
    perm.reverse();
    let t = permutation_table(&perm);
    assert_eq!(t[0], 255);
    assert_eq!(t[255], 0);
    assert_eq!(t[256], 255);
    assert_eq!(t[511], 0);
}

#[test]
fn shuffled_table_is_a_reordering() {
    let t = shuffled_permutation_table(&identity()).expect("seeded from the operating system");
    let mut first: Vec<usize> = t[..256].to_vec();
    assert_eq!(&t[..256], &t[256..]);
    // the chance that a shuffle of 256 distinct values leaves them in order is 1 in 256!
    assert_ne!(first, identity().to_vec());
    first.sort();
    assert_eq!(first, identity().to_vec());
}

#[test]
fn corner_hashes_look_up_three_times() {
    let t = permutation_table(&identity());
    // with the identity table the hash of (x, y, z) is x + y + z
    assert_eq!(corner_hashes(&t, 3, 4, 0), [7, 8, 8, 9, 8, 9, 9, 10]);
    let mut rev = identity();
    rev.reverse();
    let r = permutation_table(&rev);
    let h = corner_hashes(&r, 0, 0, 0);
    // p[p[p[0] + 0] + 0] = p[p[255]] = p[0] = 255
    assert_eq!(h[0], 255);
    // p[p[p[1] + 1] + 1] = p[p[255] + 1] = p[1] = 254
    assert_eq!(h[7], 254);
}
