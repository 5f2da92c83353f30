//! The integer part of Perlin noise: the permutation table and the hashes
//! of the lattice corners around a point.
use vstd::prelude::*;
use rand::rngs::{OsRng, StdRng};
use rand::seq::SliceRandom;
use rand::SeedableRng;

verus! {

/// The generator that shuffles the permutation table, `rand::rngs::StdRng`.
/// Verus sees nothing inside it; the library only hands it on.
#[verifier::external_type_specification]
#[verifier::external_body]
pub struct ExStdRng(StdRng);

/// A generator seeded from the operating system: `StdRng::from_rng(OsRng)`
/// (`rand::SeedableRng::from_rng`), with its error turned into `None`.
///
/// `from_rng` fills the seed through `OsRng::try_fill_bytes`, which reports
/// a failure of the operating system's source as an error rather than
/// panicking. Whether seeding succeeds depends on the machine, so nothing is
/// claimed of the result.
#[verifier::external_body]
fn os_seeded_rng() -> (rng: Option<StdRng>) {
    StdRng::from_rng(OsRng).ok()
}

/// Shuffles `permutations` in place with `rng`:
/// `rand::seq::SliceRandom::shuffle` on a slice.
///
/// The shuffle only swaps elements of the slice, so the slice keeps its
/// values, each as often; that is all the contract claims. Which order comes
/// out, and what becomes of the generator's state, is left open.
#[verifier::external_body]
fn shuffle_with(permutations: &mut [usize], rng: &mut StdRng)
    ensures
        final(permutations)@.to_multiset() == old(permutations)@.to_multiset(),
{
    permutations.shuffle(rng);
}

/// One past `i`.
fn inc(i: usize) -> (r: usize)
    requires
        i < usize::MAX,
    ensures
        r == i + 1,
{
    i + 1
}

/// The table of 512 entries that repeats `perm` twice.
pub open spec fn doubled(perm: Seq<usize>) -> Seq<usize> {
    Seq::new(512, |i: int| perm[i % 256])
}

/// The lookup table of the noise: `perm` written out twice, so that an index
/// of up to 511 needs no wrapping.
pub fn permutation_table(perm: &[usize; 256]) -> (r: [usize; 512])
    ensures
        r@ == doubled(perm@),
{
    let mut p: [usize; 512] = [0; 512];
    let mut i: usize = 0;
    while i < 512
        invariant
            i <= 512,
            forall|k: int| 0 <= k < i ==> #[trigger] p@[k] == perm@[k % 256],
        decreases 512 - i,
    {
        p[i] = perm[i % 256];
        i += 1;
    }
    assert(p@ =~= doubled(perm@));
    p
}

/// A lookup table from a random reordering of `base`: the entries of `base`
/// shuffled, then written out twice. `None` when the operating system could
/// not seed the shuffle.
pub fn shuffled_permutation_table(base: &[usize; 256]) -> (r: Option<[usize; 512]>)
    ensures
        r matches Some(t) ==> exists|s: Seq<usize>|
            s.len() == 256 && s.to_multiset() == base@.to_multiset() && #[trigger] doubled(s) == t@,
{
    let mut permutations: [usize; 256] = *base;
    match os_seeded_rng() {
        Some(mut rng) => shuffle_with(&mut permutations, &mut rng),
        None => return None,
    }
    let p = permutation_table(&permutations);
    assert(doubled(permutations@) == p@);
    Some(p)
}

/// A table built from a reordering of values below 256 holds only values
/// below 256, so `corner_hashes` may look anything up in it; and its second
/// half repeats its first.
pub proof fn lemma_shuffled_table_entries(base: Seq<usize>, s: Seq<usize>)
    requires
        s.len() == 256,
        s.to_multiset() == base.to_multiset(),
        entries_below_256(base),
    ensures
        entries_below_256(doubled(s)),
        forall|i: int| 0 <= i < 256 ==> #[trigger] doubled(s)[i + 256] == doubled(s)[i],
{
    broadcast use vstd::seq_lib::group_to_multiset_ensures;

    assert forall|k: int| 0 <= k < doubled(s).len() implies #[trigger] doubled(s)[k] < 256 by {
        let v = s[k % 256];
        assert(s.contains(v));
        assert(s.to_multiset().count(v) > 0);
        assert(base.contains(v));
        let j = choose|j: int| 0 <= j < base.len() && base[j] == v;
        assert(base[j] < 256);
    }
    assert forall|i: int| 0 <= i < 256 implies #[trigger] doubled(s)[i + 256] == doubled(s)[i] by {
        assert((i + 256) % 256 == i % 256);
    }
}

/// The hash of lattice corner `(x, y, z)`: the table looked up three times.
pub open spec fn corner_hash(p: Seq<usize>, x: int, y: int, z: int) -> usize {
    p[p[p[x] + y] + z]
}

/// On a doubled table, a corner hash is the classic wrap-around hash of the
/// permutation: look up `x`, add `y`, wrap to 256, look up, add `z`, wrap,
/// look up.
pub proof fn lemma_corner_hash_wraps(perm: Seq<usize>, x: int, y: int, z: int)
    requires
        perm.len() == 256,
        entries_below_256(perm),
        0 <= x <= 256,
        0 <= y <= 256,
        0 <= z <= 256,
    ensures
        corner_hash(doubled(perm), x, y, z) == perm[(perm[(perm[x % 256] + y) % 256] + z) % 256],
{
    let d = doubled(perm);
    assert(d[x] == perm[x % 256]);
    let a = perm[x % 256] + y;
    assert(d[a] == perm[a % 256]);
    let b = perm[a % 256] + z;
    assert(d[b] == perm[b % 256]);
}

/// Every entry of the table is below 256, as in a table built from a
/// permutation of 0..256.
pub open spec fn entries_below_256(p: Seq<usize>) -> bool {
    forall|k: int| 0 <= k < p.len() ==> #[trigger] p[k] < 256
}

/// The hashes of the eight corners of the lattice cell at `(xi, yi, zi)`,
/// in the order (x, y, z), (x, y+1, z), (x, y, z+1), (x, y+1, z+1),
/// (x+1, y, z), (x+1, y+1, z), (x+1, y, z+1), (x+1, y+1, z+1).
pub fn corner_hashes(p: &[usize; 512], xi: usize, yi: usize, zi: usize) -> (r: [usize; 8])
    requires
        xi < 256,
        yi < 256,
        zi < 256,
        entries_below_256(p@),
    ensures
        r@[0] == corner_hash(p@, xi as int, yi as int, zi as int),
        r@[1] == corner_hash(p@, xi as int, yi + 1, zi as int),
        r@[2] == corner_hash(p@, xi as int, yi as int, zi + 1),
        r@[3] == corner_hash(p@, xi as int, yi + 1, zi + 1),
        r@[4] == corner_hash(p@, xi + 1, yi as int, zi as int),
        r@[5] == corner_hash(p@, xi + 1, yi + 1, zi as int),
        r@[6] == corner_hash(p@, xi + 1, yi as int, zi + 1),
        r@[7] == corner_hash(p@, xi + 1, yi + 1, zi + 1),
{
    assert(p@[xi as int] < 256 && p@[xi + 1] < 256);
    let aaa = p[p[p[xi] + yi] + zi];
    let aba = p[p[p[xi] + inc(yi)] + zi];
    let aab = p[p[p[xi] + yi] + inc(zi)];
    let abb = p[p[p[xi] + inc(yi)] + inc(zi)];
    let baa = p[p[p[inc(xi)] + yi] + zi];
    let bba = p[p[p[inc(xi)] + inc(yi)] + zi];
    let bab = p[p[p[inc(xi)] + yi] + inc(zi)];
    let bbb = p[p[p[inc(xi)] + inc(yi)] + inc(zi)];
    [aaa, aba, aab, abb, baa, bba, bab, bbb]
}

} // verus!
