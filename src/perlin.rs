use vstd::prelude::*;

use crate::utils::random_int;
use crate::vec3::{Vec3, UNIT};

verus! {

/// Number of lattice gradients and the length of each permutation table.
pub const POINT_COUNT: usize = 256;

/// `p` is a permutation of `0 .. POINT_COUNT`: it has that many entries, each
/// below `POINT_COUNT`, no two alike.
pub open spec fn is_permutation(p: Seq<i32>) -> bool {
    &&& p.len() == POINT_COUNT
    &&& forall|i: int| 0 <= i < p.len() ==> 0 <= #[trigger] p[i] < POINT_COUNT
    &&& forall|i: int, j: int| 0 <= i < j < p.len() ==> #[trigger] p[i] != #[trigger] p[j]
}

/// Gradient lattice of Perlin noise: random gradient vectors and three
/// permutation tables that hash a lattice point to one of them.
#[derive(Clone, Debug)]
pub struct Perlin {
    /// Gradients with components drawn from `[-UNIT, UNIT)`; they are
    /// normalised where noise is evaluated.
    pub ranvec: Vec<Vec3>,
    pub perm_x: Vec<i32>,
    pub perm_y: Vec<i32>,
    pub perm_z: Vec<i32>,
}

/// The low eight bits of `v`, as an index into a permutation table.
fn low_byte(v: i64) -> (r: usize)
    ensures
        r == v & 255,
        r < 256,
{
    let b = v & 255;
    assert(0 <= b < 256) by (bit_vector)
        requires
            b == v & 255,
    ;
    b as usize
}

impl Perlin {
    pub open spec fn wf(&self) -> bool {
        &&& self.ranvec@.len() == POINT_COUNT
        &&& is_permutation(self.perm_x@)
        &&& is_permutation(self.perm_y@)
        &&& is_permutation(self.perm_z@)
    }

    /// Index of the gradient at lattice point `(i, j, k)`: the exclusive or
    /// of the three tables at the low eight bits of each coordinate.
    pub open spec fn lattice_index_spec(&self, i: i64, j: i64, k: i64) -> int {
        (self.perm_x@[(i & 255) as int] ^ self.perm_y@[(j & 255) as int] ^ self.perm_z@[(k
            & 255) as int]) as int
    }

    /// Fresh random gradients and three independent random permutations.
    pub fn new() -> (r: Perlin)
        ensures
            r.wf(),
            forall|n: int|
                0 <= n < POINT_COUNT ==> {
                    let g = #[trigger] r.ranvec@[n];
                    -UNIT <= g.x < UNIT && -UNIT <= g.y < UNIT && -UNIT <= g.z < UNIT
                },
    {
        let mut ranvec: Vec<Vec3> = Vec::new();
        let mut n: usize = 0;
        while n < POINT_COUNT
            invariant
                n <= POINT_COUNT,
                ranvec@.len() == n,
                forall|m: int|
                    0 <= m < n ==> {
                        let g = #[trigger] ranvec@[m];
                        -UNIT <= g.x < UNIT && -UNIT <= g.y < UNIT && -UNIT <= g.z < UNIT
                    },
            decreases POINT_COUNT - n,
        {
            let x = random_int(-UNIT, UNIT - 1);
            let y = random_int(-UNIT, UNIT - 1);
            let z = random_int(-UNIT, UNIT - 1);
            ranvec.push(Vec3::new(x, y, z));
            n = n + 1;
        }
        Perlin {
            ranvec,
            perm_x: Self::generate_perm(),
            perm_y: Self::generate_perm(),
            perm_z: Self::generate_perm(),
        }
    }

    /// Index of the gradient at lattice point `(i, j, k)`.
    pub fn lattice_index(&self, i: i64, j: i64, k: i64) -> (r: usize)
        requires
            self.wf(),
        ensures
            r == self.lattice_index_spec(i, j, k),
            r < POINT_COUNT,
    {
        let a = self.perm_x[low_byte(i)];
        let b = self.perm_y[low_byte(j)];
        let c = self.perm_z[low_byte(k)];
        assert(0 <= a < 256 && 0 <= b < 256 && 0 <= c < 256);
        assert(0 <= a ^ b ^ c < 256) by (bit_vector)
            requires
                0 <= a < 256 && 0 <= b < 256 && 0 <= c < 256,
        ;
        (a ^ b ^ c) as usize
    }

    /// A random permutation of `0 .. POINT_COUNT`.
    fn generate_perm() -> (r: Vec<i32>)
        ensures
            is_permutation(r@),
    {
        let mut p: Vec<i32> = Vec::new();
        let mut i: usize = 0;
        while i < POINT_COUNT
            invariant
                i <= POINT_COUNT,
                p@.len() == i,
                forall|m: int| 0 <= m < i ==> #[trigger] p@[m] == m,
            decreases POINT_COUNT - i,
        {
            p.push(i as i32);
            i = i + 1;
        }
        Self::permute(&mut p, POINT_COUNT);
        p
    }

    /// Shuffles the first `n` entries of `p` in place (Fisher and Yates),
    /// drawing for each position `j` a partner among positions `0 ..= j`; the
    /// result is a permutation of the input.
    fn permute(p: &mut Vec<i32>, n: usize)
        requires
            is_permutation(old(p)@),
            n <= old(p)@.len(),
        ensures
            is_permutation(final(p)@),
            exists|draws: Seq<usize>|
                valid_draws(draws, n as int) && final(p)@ == shuffled(old(p)@, draws, n as int),
    {
        let mut draws: Vec<usize> = Vec::new();
        let mut j: usize = 0;
        while j < n
            invariant
                j <= n <= POINT_COUNT,
                draws@.len() == j,
                forall|k: int| 0 <= k < j ==> #[trigger] draws@[k] <= k,
            decreases n - j,
        {
            draws.push(random_int(0, j as i64) as usize);
            j = j + 1;
        }
        assert(valid_draws(draws@, n as int));
        Self::shuffle(p, &draws);
    }

    /// The Fisher and Yates shuffle of the first `draws.len()` entries of `p`
    /// with the given draws: for `j` from the last of them down to 0, swaps
    /// positions `j` and `draws[j]`.
    pub fn shuffle(p: &mut Vec<i32>, draws: &Vec<usize>)
        requires
            draws@.len() <= old(p)@.len(),
            forall|k: int| 0 <= k < draws@.len() ==> #[trigger] draws@[k] <= k,
        ensures
            final(p)@ == shuffled(old(p)@, draws@, draws@.len() as int),
            is_permutation(old(p)@) ==> is_permutation(final(p)@),
    {
        let ghost orig = p@;
        let mut i: usize = draws.len();
        while i > 0
            invariant
                i <= draws@.len() <= p@.len(),
                p@.len() == orig.len(),
                forall|k: int| 0 <= k < draws@.len() ==> #[trigger] draws@[k] <= k,
                shuffled(p@, draws@, i as int) == shuffled(orig, draws@, draws@.len() as int),
                is_permutation(orig) ==> is_permutation(p@),
            decreases i,
        {
            i = i - 1;
            let target = draws[i];
            let tmp = p[i];
            let other = p[target];
            p.set(i, other);
            p.set(target, tmp);
        }
    }
}

/// The first `n` draws of a shuffle: one per position, each at most its
/// position.
pub open spec fn valid_draws(draws: Seq<usize>, n: int) -> bool {
    draws.len() == n && forall|k: int| 0 <= k < n ==> #[trigger] draws[k] <= k
}

/// `s` after the swaps of a Fisher and Yates shuffle of its first `i`
/// positions with `draws`: position `i - 1` is swapped with `draws[i - 1]`
/// first, then the rest.
pub open spec fn shuffled(s: Seq<i32>, draws: Seq<usize>, i: int) -> Seq<i32>
    decreases i,
{
    if i <= 0 {
        s
    } else {
        let j = i - 1;
        let t = draws[j] as int;
        shuffled(s.update(j, s[t]).update(t, s[j]), draws, j)
    }
}

} // verus!
