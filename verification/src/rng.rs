//! The subtractive pseudo-random generator of .NET's `System.Random`, which
//! the visualizers draw from.
use vstd::prelude::*;

verus! {

/// Modulus of the generator: `i32::MAX`.
pub const MBIG: i32 = 2_147_483_647;
/// Seed constant of the generator.
pub const MSEED: i32 = 161_803_398;
/// Length of the seed table (index 0 is unused).
pub const TABLE_LEN: usize = 56;

/// A difference folded back into `[0, MBIG)`.
pub open spec fn fold(x: int) -> int {
    if x < 0 {
        x + MBIG
    } else {
        x
    }
}

/// The seed magnitude .NET subtracts from `MSEED`.
pub open spec fn seed_magnitude(seed: i32) -> int {
    if seed == i32::MIN {
        i32::MAX as int
    } else if seed < 0 {
        -seed
    } else {
        seed as int
    }
}

/// The table before mixing: entry 55 holds the folded seed, then entries
/// `21 * i % 55` for `i` in `1..=k` receive a lagged Fibonacci-like
/// sequence. Returns the table and the two running values `mj`, `mk`.
pub open spec fn filled(seed: i32, k: nat) -> (Seq<int>, int, int)
    decreases k,
{
    if k == 0 {
        let mj = fold(MSEED - seed_magnitude(seed));
        (Seq::new(TABLE_LEN as nat, |j: int| if j == 55 { mj } else { 0 }), mj, 1)
    } else {
        let (sa, mj, mk) = filled(seed, (k - 1) as nat);
        let ii = ((21 * k) % 55) as int;
        (sa.update(ii, mk), mk, fold(mj - mk))
    }
}

/// The table after `t` mixing updates: update `t` (counting from zero)
/// rewrites entry `i = t % 55 + 1` as `fold(s[i] - s[1 + (i + 30) % 55])`.
pub open spec fn mixed(sa: Seq<int>, t: nat) -> Seq<int>
    decreases t,
{
    if t == 0 {
        sa
    } else {
        let s = mixed(sa, (t - 1) as nat);
        let i = ((t - 1) % 55 + 1) as int;
        s.update(i, fold(s[i] - s[1 + (i + 30) % 55]))
    }
}

/// The seed table of a generator created with `seed`: fill, then four
/// mixing passes over entries `1..56`.
pub open spec fn seeded_table(seed: i32) -> Seq<int> {
    mixed(filled(seed, 54).0, 220)
}

/// Entries of a seed table are in `[0, MBIG)`.
pub open spec fn table_in_range(s: Seq<int>) -> bool {
    forall|j: int| 0 <= j < s.len() ==> 0 <= #[trigger] s[j] < MBIG
}

/// The next cursor position: `1..=55` cyclically.
pub open spec fn advance(i: int) -> int {
    if i + 1 >= TABLE_LEN {
        1
    } else {
        i + 1
    }
}

/// The sample drawn from a state: the folded difference of the entries at
/// the advanced cursors (one below `MBIG`).
pub open spec fn sample_of(table: Seq<int>, inext: int, inextp: int) -> int {
    let a = advance(inext);
    let b = advance(inextp);
    let d = table[a] - table[b];
    fold(if d == MBIG {
        d - 1
    } else {
        d
    })
}

proof fn lemma_filled_in_range(seed: i32, k: nat)
    requires
        k <= 54,
    ensures
        ({
            let (sa, mj, mk) = filled(seed, k);
            &&& sa.len() == TABLE_LEN
            &&& table_in_range(sa)
            &&& 0 <= mj < MBIG
            &&& 0 <= mk < MBIG
        }),
    decreases k,
{
    if k > 0 {
        lemma_filled_in_range(seed, (k - 1) as nat);
    }
}

proof fn lemma_mixed_in_range(sa: Seq<int>, t: nat)
    requires
        sa.len() == TABLE_LEN,
        table_in_range(sa),
    ensures
        mixed(sa, t).len() == TABLE_LEN,
        table_in_range(mixed(sa, t)),
    decreases t,
{
    if t > 0 {
        lemma_mixed_in_range(sa, (t - 1) as nat);
    }
}

/// .NET-compatible pseudo-random generator state.
#[derive(Clone, Debug)]
pub struct DotNetRandom {
    seed_array: Vec<i32>,
    inext: usize,
    inextp: usize,
}

impl DotNetRandom {
    /// The seed table.
    pub closed spec fn table(self) -> Seq<int> {
        self.seed_array@.map_values(|v: i32| v as int)
    }

    /// The first cursor.
    pub closed spec fn cursor(self) -> int {
        self.inext as int
    }

    /// The second cursor.
    pub closed spec fn cursor_p(self) -> int {
        self.inextp as int
    }

    /// The table has 56 entries in `[0, MBIG)` and both cursors index it.
    pub open spec fn wf(self) -> bool {
        &&& self.table().len() == TABLE_LEN
        &&& table_in_range(self.table())
        &&& 0 <= self.cursor() < TABLE_LEN
        &&& 0 <= self.cursor_p() < TABLE_LEN
    }

    /// A generator seeded like `new System.Random(seed)`.
    pub fn new(seed: i32) -> (r: DotNetRandom)
        ensures
            r.wf(),
            r.table() == seeded_table(seed),
            r.cursor() == 0,
            r.cursor_p() == 21,
    {
        let subtraction: i32 = if seed == i32::MIN {
            i32::MAX
        } else if seed < 0 {
            -seed
        } else {
            seed
        };
        let mut mj: i32 = MSEED - subtraction;
        if mj < 0 {
            mj = mj + MBIG;
        }
        let mut seed_array: Vec<i32> = Vec::new();
        let mut j: usize = 0;
        while j < TABLE_LEN
            invariant
                j <= TABLE_LEN,
                mj == fold(MSEED - seed_magnitude(seed)),
                seed_array@.len() == j,
                forall|q: int| 0 <= q < j ==> seed_array@[q] == if q == 55 { mj } else { 0 },
            decreases TABLE_LEN - j,
        {
            if j == 55 {
                seed_array.push(mj);
            } else {
                seed_array.push(0);
            }
            j = j + 1;
        }
        let ghost view0 = seed_array@.map_values(|v: i32| v as int);
        assert(view0 == filled(seed, 0).0);
        let mut mk: i32 = 1;
        let mut i: usize = 1;
        while i < 55
            invariant
                1 <= i <= 55,
                seed_array@.len() == TABLE_LEN,
                ({
                    let (sa, fmj, fmk) = filled(seed, (i - 1) as nat);
                    &&& seed_array@.map_values(|v: i32| v as int) == sa
                    &&& mj == fmj
                    &&& mk == fmk
                }),
            decreases 55 - i,
        {
            proof {
                lemma_filled_in_range(seed, (i - 1) as nat);
            }
            let ii = (21 * i) % 55;
            seed_array.set(ii, mk);
            let mut next_mk = mj - mk;
            if next_mk < 0 {
                next_mk = next_mk + MBIG;
            }
            mj = mk;
            mk = next_mk;
            assert(seed_array@.map_values(|v: i32| v as int) == filled(seed, i as nat).0);
            i = i + 1;
        }
        proof {
            lemma_filled_in_range(seed, 54);
        }
        let ghost filled_table = filled(seed, 54).0;
        let mut t: usize = 0;
        while t < 220
            invariant
                t <= 220,
                seed_array@.len() == TABLE_LEN,
                filled_table.len() == TABLE_LEN,
                table_in_range(filled_table),
                seed_array@.map_values(|v: i32| v as int) == mixed(filled_table, t as nat),
            decreases 220 - t,
        {
            proof {
                lemma_mixed_in_range(filled_table, t as nat);
            }
            let idx = t % 55 + 1;
            let other = 1 + (idx + 30) % 55;
            proof {
                let m = mixed(filled_table, t as nat);
                assert(seed_array@.map_values(|v: i32| v as int)[idx as int] == seed_array@[idx as int] as int);
                assert(seed_array@.map_values(|v: i32| v as int)[other as int] == seed_array@[other as int] as int);
                assert(0 <= m[idx as int] < MBIG);
                assert(0 <= m[other as int] < MBIG);
            }
            let mut v = seed_array[idx] - seed_array[other];
            if v < 0 {
                v = v + MBIG;
            }
            seed_array.set(idx, v);
            assert(seed_array@.map_values(|v: i32| v as int) == mixed(filled_table, (t + 1) as nat));
            t = t + 1;
        }
        proof {
            lemma_mixed_in_range(filled_table, 220);
        }
        DotNetRandom { seed_array, inext: 0, inextp: 21 }
    }

    /// Draw the next raw sample, in `[0, MBIG)`.
    pub fn internal_sample(&mut self) -> (r: i32)
        requires
            old(self).wf(),
        ensures
            final(self).wf(),
            r == sample_of(old(self).table(), old(self).cursor(), old(self).cursor_p()),
            0 <= r < MBIG,
            final(self).cursor() == advance(old(self).cursor()),
            final(self).cursor_p() == advance(old(self).cursor_p()),
            final(self).table() == old(self).table().update(advance(old(self).cursor()), r as int),
    {
        let mut inext = self.inext + 1;
        if inext >= TABLE_LEN {
            inext = 1;
        }
        let mut inextp = self.inextp + 1;
        if inextp >= TABLE_LEN {
            inextp = 1;
        }
        proof {
            assert(self.table()[inext as int] == self.seed_array@[inext as int] as int);
            assert(self.table()[inextp as int] == self.seed_array@[inextp as int] as int);
            assert(0 <= self.table()[inext as int] < MBIG);
            assert(0 <= self.table()[inextp as int] < MBIG);
        }
        let mut ret = self.seed_array[inext] - self.seed_array[inextp];
        if ret == MBIG {
            ret = ret - 1;
        }
        if ret < 0 {
            ret = ret + MBIG;
        }
        self.inext = inext;
        self.inextp = inextp;
        self.seed_array.set(inext, ret);
        assert(self.table() == old(self).table().update(inext as int, ret as int));
        ret
    }

    /// The next raw sample, as `System.Random.Next()` returns it, in `[0, i32::MAX)`.
    pub fn next(&mut self) -> (r: i32)
        requires
            old(self).wf(),
        ensures
            final(self).wf(),
            r == sample_of(old(self).table(), old(self).cursor(), old(self).cursor_p()),
            0 <= r < MBIG,
            final(self).cursor() == advance(old(self).cursor()),
            final(self).cursor_p() == advance(old(self).cursor_p()),
            final(self).table() == old(self).table().update(advance(old(self).cursor()), r as int),
    {
        self.internal_sample()
    }
}

} // verus!
