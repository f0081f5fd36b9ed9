//! The named form in which a native config writes its palette: each
//! distinct entry once under a generated name, and the 64 slots as eight
//! banks of names.
use vstd::prelude::*;

use crate::color::{ColorPalette, PaletteEntry, COLORS_PER_BANK, ENTRY_COUNT};
use crate::config::{
    flattened, named_entry, normalize_palette_slots, normalized_slots, ColorPaletteToml,
};
use crate::text::{decimal, digit_char, push_char, push_decimal};

verus! {

/// `n` with at least two digits, as `format!("{:02}", n)` renders it.
pub open spec fn two_digit(n: nat) -> Seq<char> {
    if n < 10 {
        seq!['0'] + decimal(n)
    } else {
        decimal(n)
    }
}

/// The name of the `k`-th distinct entry: `entry_01`, `entry_02`, ...
pub open spec fn entry_name(k: int) -> Seq<char> {
    "entry_"@ + two_digit((k + 1) as nat)
}

/// The distinct entries of `s`, in order of first appearance.
pub open spec fn unique_entries(s: Seq<PaletteEntry>) -> Seq<PaletteEntry>
    decreases s.len(),
{
    if s.len() == 0 {
        seq![]
    } else {
        let u = unique_entries(s.drop_last());
        if u.contains(s.last()) {
            u
        } else {
            u.push(s.last())
        }
    }
}

/// The first position of `e` in `u` (`u.len()` when absent).
pub open spec fn position_in(u: Seq<PaletteEntry>, e: PaletteEntry) -> int
    decreases u.len(),
{
    if u.len() == 0 {
        0
    } else if u[0] == e {
        0
    } else {
        1 + position_in(u.drop_first(), e)
    }
}

/// The bank names of a palette's named form: slot `8b + j` of the
/// normalized palette under the name of its distinct entry.
pub open spec fn dry_bank_names(colors: Seq<PaletteEntry>) -> Seq<Seq<Seq<char>>> {
    let n = normalized_slots(colors);
    let u = unique_entries(n);
    Seq::new(
        8,
        |b: int|
            Seq::new(
                8,
                |j: int| entry_name(position_in(u, n[COLORS_PER_BANK as int * b + j])),
            ),
    )
}

/// The named entries of a palette's named form, in order of first appearance.
pub open spec fn dry_entries(colors: Seq<PaletteEntry>) -> Seq<(Seq<char>, PaletteEntry)> {
    let u = unique_entries(normalized_slots(colors));
    Seq::new(u.len(), |k: int| (entry_name(k), u[k]))
}

proof fn lemma_dry_bank_name(colors: Seq<PaletteEntry>, b: int, j: int)
    requires
        0 <= b < 8,
        0 <= j < 8,
    ensures
        dry_bank_names(colors).len() == 8,
        dry_bank_names(colors)[b].len() == 8,
        dry_bank_names(colors)[b][j] == entry_name(
            position_in(
                unique_entries(normalized_slots(colors)),
                normalized_slots(colors)[COLORS_PER_BANK as int * b + j],
            ),
        ),
{
}

/// The names and entries of a list of named entries.
pub open spec fn entry_views(entries: Seq<(String, PaletteEntry)>) -> Seq<(Seq<char>, PaletteEntry)> {
    entries.map_values(|e: (String, PaletteEntry)| (e.0@, e.1))
}

/// The names of each bank.
pub open spec fn bank_views(banks: Seq<Vec<String>>) -> Seq<Seq<Seq<char>>> {
    banks.map_values(|b: Vec<String>| b@.map_values(|s: String| s@))
}

proof fn lemma_unique_entries(s: Seq<PaletteEntry>)
    ensures
        unique_entries(s).len() <= s.len(),
        forall|i: int| 0 <= i < s.len() ==> unique_entries(s).contains(#[trigger] s[i]),
        forall|a: int, b: int|
            0 <= a < b < unique_entries(s).len() ==> unique_entries(s)[a] != unique_entries(s)[b],
    decreases s.len(),
{
    if s.len() > 0 {
        let p = s.drop_last();
        lemma_unique_entries(p);
        let u = unique_entries(p);
        assert forall|i: int| 0 <= i < s.len() implies unique_entries(s).contains(#[trigger] s[i]) by {
            if i < p.len() {
                assert(p[i] == s[i]);
                assert(u.contains(p[i]));
                let w = choose|w: int| 0 <= w < u.len() && u[w] == p[i];
                assert(unique_entries(s)[w] == s[i]);
            } else {
                if u.contains(s.last()) {
                } else {
                    assert(unique_entries(s)[u.len() as int] == s.last());
                }
            }
        }
    }
}

proof fn lemma_position_in(u: Seq<PaletteEntry>, e: PaletteEntry)
    requires
        u.contains(e),
    ensures
        0 <= position_in(u, e) < u.len(),
        u[position_in(u, e)] == e,
        forall|j: int| 0 <= j < position_in(u, e) ==> u[j] != e,
    decreases u.len(),
{
    if u[0] != e {
        let w = choose|w: int| 0 <= w < u.len() && u[w] == e;
        assert(u.drop_first()[w - 1] == e);
        lemma_position_in(u.drop_first(), e);
        let rest = u.drop_first();
        assert forall|j: int| 0 <= j < position_in(u, e) implies u[j] != e by {
            if j > 0 {
                assert(u[j] == rest[j - 1]);
            }
        }
    }
}

proof fn lemma_two_digit(n: nat)
    requires
        1 <= n < 100,
    ensures
        two_digit(n) == seq![digit_char(n / 10), digit_char(n % 10)],
{
    if n >= 10 {
        assert(decimal(n / 10) == seq![digit_char(n / 10)]);
    }
}

proof fn lemma_digit_char_injective(a: nat, b: nat)
    requires
        a < 10,
        b < 10,
        digit_char(a) == digit_char(b),
    ensures
        a == b,
{
}

proof fn lemma_entry_name_injective(a: int, b: int)
    requires
        0 <= a < 99,
        0 <= b < 99,
        entry_name(a) == entry_name(b),
    ensures
        a == b,
{
    let pa = "entry_"@;
    lemma_two_digit((a + 1) as nat);
    lemma_two_digit((b + 1) as nat);
    let ta = two_digit((a + 1) as nat);
    let tb = two_digit((b + 1) as nat);
    assert(entry_name(a)[pa.len() as int] == ta[0]);
    assert(entry_name(b)[pa.len() as int] == tb[0]);
    assert(entry_name(a)[pa.len() as int + 1] == ta[1]);
    assert(entry_name(b)[pa.len() as int + 1] == tb[1]);
    lemma_digit_char_injective(((a + 1) / 10) as nat, ((b + 1) / 10) as nat);
    lemma_digit_char_injective(((a + 1) % 10) as nat, ((b + 1) % 10) as nat);
}

proof fn lemma_named_entry_at(entries: Seq<(String, PaletteEntry)>, k: int, nm: Seq<char>)
    requires
        0 <= k < entries.len(),
        entries[k].0@ == nm,
        forall|j: int| 0 <= j < k ==> (#[trigger] entries[j]).0@ != nm,
    ensures
        named_entry(entries, nm) == entries[k].1,
    decreases k,
{
    if k > 0 {
        let rest = entries.drop_first();
        assert(rest[k - 1] == entries[k]);
        assert forall|j: int| 0 <= j < k - 1 implies (#[trigger] rest[j]).0@ != nm by {
            assert(rest[j] == entries[j + 1]);
        }
        lemma_named_entry_at(rest, k - 1, nm);
    }
}

proof fn lemma_flattened_len(banks: Seq<Seq<Seq<char>>>, width: int)
    requires
        forall|b: int| 0 <= b < banks.len() ==> (#[trigger] banks[b]).len() == width,
    ensures
        flattened(banks).len() == banks.len() * width,
        forall|b: int, j: int|
            0 <= b < banks.len() && 0 <= j < width ==> flattened(banks)[b * width + j]
                == #[trigger] banks[b][j],
    decreases banks.len(),
{
    if banks.len() > 0 {
        let p = banks.drop_last();
        assert forall|b: int| 0 <= b < p.len() implies (#[trigger] p[b]).len() == width by {
            assert(p[b] == banks[b]);
        }
        lemma_flattened_len(p, width);
        assert(flattened(banks) == flattened(p) + banks.last());
        assert((banks.len() - 1) * width + width == banks.len() * width) by (nonlinear_arith);
        assert forall|b: int, j: int| 0 <= b < banks.len() && 0 <= j < width implies flattened(
            banks,
        )[b * width + j] == #[trigger] banks[b][j] by {
            if b < p.len() {
                assert(p[b] == banks[b]);
                assert(b * width + j < p.len() * width) by (nonlinear_arith)
                    requires
                        0 <= b < p.len(),
                        0 <= j < width,
                ;
            } else {
                assert(b * width == p.len() * width);
            }
        }
    }
}

/// A palette written in its named form reads back as the palette itself,
/// cut or padded to 64 slots.
pub proof fn law_named_palette_reads_back(colors: Seq<PaletteEntry>, t: ColorPaletteToml)
    requires
        t.colors@.len() == 0,
        t.bank_names() == dry_bank_names(colors),
        entry_views(t.entries@) == dry_entries(colors),
    ensures
        t.palette_spec() == normalized_slots(colors),
{
    let n = normalized_slots(colors);
    let u = unique_entries(n);
    lemma_unique_entries(n);
    assert(t.banks@.len() == 8) by {
        assert(t.bank_names().len() == t.banks@.len());
    }
    let names = t.slot_names();
    let banks = dry_bank_names(colors);
    lemma_flattened_len(banks, 8);
    assert(names == flattened(banks));
    assert(names.len() == 64);
    let looked = names.map_values(|nm: Seq<char>| named_entry(t.entries@, nm));
    assert forall|i: int| 0 <= i < 64 implies #[trigger] looked[i] == n[i] by {
        let b = i / 8;
        let j = i % 8;
        assert(i == b * 8 + j);
        assert(names[i] == banks[b][j]);
        assert(u.contains(n[i]));
        lemma_position_in(u, n[i]);
        let k = position_in(u, n[i]);
        assert(names[i] == entry_name(k));
        assert(entry_views(t.entries@).len() == t.entries@.len());
        assert(entry_views(t.entries@)[k] == (entry_name(k), u[k]));
        assert(entry_views(t.entries@)[k] == (t.entries@[k].0@, t.entries@[k].1));
        assert(t.entries@[k].0@ == entry_name(k));
        assert forall|q: int| 0 <= q < k implies (#[trigger] t.entries@[q]).0@ != entry_name(k) by {
            assert(entry_views(t.entries@)[q] == (entry_name(q), u[q]));
            assert(entry_views(t.entries@)[q] == (t.entries@[q].0@, t.entries@[q].1));
            if entry_name(q) == entry_name(k) {
                lemma_entry_name_injective(q, k);
            }
        }
        lemma_named_entry_at(t.entries@, k, entry_name(k));
    }
    assert(looked == n);
    assert(normalized_slots(n) == n);
}

fn copy_entries(v: &Vec<PaletteEntry>) -> (r: Vec<PaletteEntry>)
    ensures
        r@ == v@,
{
    let mut out: Vec<PaletteEntry> = Vec::new();
    let mut i: usize = 0;
    while i < v.len()
        invariant
            i <= v@.len(),
            out@ == v@.subrange(0, i as int),
        decreases v@.len() - i,
    {
        out.push(v[i]);
        assert(v@.subrange(0, i + 1) == v@.subrange(0, i as int).push(v@[i as int]));
        i = i + 1;
    }
    assert(v@.subrange(0, v@.len() as int) == v@);
    out
}

fn contains_entry(u: &Vec<PaletteEntry>, e: PaletteEntry) -> (r: bool)
    ensures
        r == u@.contains(e),
{
    let mut i: usize = 0;
    while i < u.len()
        invariant
            i <= u@.len(),
            forall|j: int| 0 <= j < i ==> u@[j] != e,
        decreases u@.len() - i,
    {
        if u[i] == e {
            assert(u@[i as int] == e);
            return true;
        }
        i = i + 1;
    }
    false
}

fn position_of(u: &Vec<PaletteEntry>, e: PaletteEntry) -> (r: usize)
    requires
        u@.contains(e),
    ensures
        r == position_in(u@, e),
{
    proof {
        lemma_position_in(u@, e);
    }
    let mut i: usize = 0;
    while i < u.len()
        invariant
            i <= u@.len(),
            u@.contains(e),
            position_in(u@, e) < u@.len(),
            u@[position_in(u@, e)] == e,
            forall|j: int| 0 <= j < position_in(u@, e) ==> u@[j] != e,
            i <= position_in(u@, e),
        decreases u@.len() - i,
    {
        if u[i] == e {
            return i;
        }
        i = i + 1;
    }
    0
}

/// The name of the `k`-th distinct entry.
pub fn entry_name_string(k: usize) -> (r: String)
    requires
        k < usize::MAX,
    ensures
        r@ == entry_name(k as int),
{
    let mut s = "entry_".to_owned();
    let n = k + 1;
    if n < 10 {
        push_char(&mut s, '0');
    }
    push_decimal(&mut s, n as u64);
    s
}

/// The named form of a palette: its normalized 64 slots as eight banks of
/// eight names, and each distinct entry once under its name.
pub fn dry_palette(palette: &ColorPalette) -> (r: ColorPaletteToml)
    ensures
        r.wf(),
        r.colors@.len() == 0,
        r.slots@.len() == 0,
        r.bank_names() == dry_bank_names(palette.colors@),
        entry_views(r.entries@) == dry_entries(palette.colors@),
{
    let n = normalize_palette_slots(copy_entries(&palette.colors));
    let ghost ns = normalized_slots(palette.colors@);
    assert(n@ == ns);
    let mut u: Vec<PaletteEntry> = Vec::new();
    let mut i: usize = 0;
    while i < ENTRY_COUNT
        invariant
            i <= ENTRY_COUNT,
            n@ == ns,
            ns.len() == ENTRY_COUNT,
            u@ == unique_entries(ns.subrange(0, i as int)),
        decreases ENTRY_COUNT - i,
    {
        assert(ns.subrange(0, i + 1).drop_last() == ns.subrange(0, i as int));
        if !contains_entry(&u, n[i]) {
            u.push(n[i]);
        }
        i = i + 1;
    }
    assert(ns.subrange(0, ENTRY_COUNT as int) == ns);
    proof {
        lemma_unique_entries(ns);
    }
    let ghost us = unique_entries(ns);
    let mut entries: Vec<(String, PaletteEntry)> = Vec::new();
    let mut k: usize = 0;
    while k < u.len()
        invariant
            k <= u@.len(),
            u@ == us,
            us.len() <= ENTRY_COUNT,
            entry_views(entries@) == Seq::new(k as nat, |j: int| (entry_name(j), us[j])),
        decreases u@.len() - k,
    {
        let ghost before = entries@;
        let name = entry_name_string(k);
        entries.push((name, u[k]));
        assert(entry_views(entries@) == entry_views(before).push((entry_name(k as int), us[k as int])));
        assert(Seq::new((k + 1) as nat, |j: int| (entry_name(j), us[j])) == Seq::new(
            k as nat,
            |j: int| (entry_name(j), us[j]),
        ).push((entry_name(k as int), us[k as int])));
        k = k + 1;
    }
    assert(entry_views(entries@) == dry_entries(palette.colors@));
    let ghost target = dry_bank_names(palette.colors@);
    let mut banks: Vec<Vec<String>> = Vec::new();
    let mut b: usize = 0;
    while b < 8
        invariant
            b <= 8,
            ns == normalized_slots(palette.colors@),
            us == unique_entries(ns),
            n@ == ns,
            ns.len() == ENTRY_COUNT,
            u@ == us,
            us.len() <= ENTRY_COUNT,
            forall|x: int| 0 <= x < ns.len() ==> us.contains(#[trigger] ns[x]),
            target == dry_bank_names(palette.colors@),
            bank_views(banks@) == target.subrange(0, b as int),
        decreases 8 - b,
    {
        let mut bank: Vec<String> = Vec::new();
        let mut j: usize = 0;
        while j < 8
            invariant
                b < 8,
                j <= 8,
                ns == normalized_slots(palette.colors@),
                us == unique_entries(ns),
                n@ == ns,
                ns.len() == ENTRY_COUNT,
                u@ == us,
                us.len() <= ENTRY_COUNT,
                forall|x: int| 0 <= x < ns.len() ==> us.contains(#[trigger] ns[x]),
                target == dry_bank_names(palette.colors@),
                bank@.map_values(|s: String| s@) == target[b as int].subrange(0, j as int),
            decreases 8 - j,
        {
            let slot = COLORS_PER_BANK * b + j;
            let e = n[slot];
            assert(us.contains(ns[slot as int]));
            let pos = position_of(&u, e);
            proof {
                lemma_position_in(us, e);
            }
            let name = entry_name_string(pos);
            let ghost prior = bank@;
            bank.push(name);
            assert(bank@.map_values(|s: String| s@) == prior.map_values(|s: String| s@).push(name@));
            proof {
                lemma_dry_bank_name(palette.colors@, b as int, j as int);
            }
            assert(target[b as int][j as int] == entry_name(position_in(us, ns[slot as int])));
            assert(target[b as int].subrange(0, j + 1) == target[b as int].subrange(0, j as int).push(
                target[b as int][j as int],
            ));
            j = j + 1;
        }
        assert(target[b as int].subrange(0, 8) == target[b as int]);
        let ghost prior_banks = banks@;
        banks.push(bank);
        assert(bank_views(banks@) == bank_views(prior_banks).push(target[b as int]));
        assert(target.subrange(0, b + 1) == target.subrange(0, b as int).push(target[b as int]));
        b = b + 1;
    }
    assert(target.subrange(0, 8) == target);
    let r = ColorPaletteToml { colors: Vec::new(), entries, banks, slots: Vec::new() };
    proof {
        let d = dry_entries(palette.colors@);
        assert(entry_views(r.entries@) == d);
        assert(d.len() == us.len());
        assert forall|i: int, j: int|
            0 <= i < j < r.entries@.len() implies (#[trigger] r.entries@[i]).0@
            != (#[trigger] r.entries@[j]).0@ by {
            assert(entry_views(r.entries@)[i] == (r.entries@[i].0@, r.entries@[i].1));
            assert(entry_views(r.entries@)[j] == (r.entries@[j].0@, r.entries@[j].1));
            assert(d[i].0 == entry_name(i));
            assert(d[j].0 == entry_name(j));
            if entry_name(i) == entry_name(j) {
                lemma_entry_name_injective(i, j);
            }
        }
    }
    r
}

} // verus!
