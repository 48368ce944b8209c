//! Estimate of the disk space an installation will take.
//!
//! Official packages: one `pacman -Si` over every pending package reports a
//! download and an installed size per package. AUR packages: the public AUR
//! interface reports no size, so they are counted as unknown. Everything is
//! best effort: a package whose size is missing is counted, never hidden.

use vstd::prelude::*;

use crate::text::{
    blocks_of, blocks_seq, chars_of, dec, dec_chars, has_prefix, lines, lines_of, lines_seq,
    list_contains, list_has, nth_word, parse_u64, parse_u64_spec, starts_with, string_of,
    strip_prefix, strip_prefix_seq, trim_chars, trim_seq, views, vviews, word_at,
};

verus! {

/// Bytes in a kibibyte.
pub const KIB: u64 = 1024;

/// Bytes in a mebibyte.
pub const MIB: u64 = 1048576;

/// Bytes in a gibibyte.
pub const GIB: u64 = 1073741824;

/// Aggregated size of a set of packages.
#[derive(Debug, Clone, Copy, PartialEq, Eq, Structural)]
pub struct PackageSizes {
    /// Bytes to download.
    pub download_bytes: u64,
    /// Bytes on disk once installed.
    pub install_bytes: u64,
    /// Packages whose size could not be found.
    pub unknown: u32,
}

/// Estimate of a whole plan.
#[derive(Debug, Clone, Copy, PartialEq, Eq, Structural)]
pub struct PlanEstimate {
    pub official: PackageSizes,
    pub aur: PackageSizes,
    /// Free bytes on `/` (`None` when `df` could not be read).
    pub free_bytes: Option<u64>,
}

/// The raw size fields of one `pacman -Si` block (the last occurrence of each).
#[derive(Debug, Clone, PartialEq, Eq)]
pub struct SiBlock {
    /// Trimmed value of `Download Size`.
    pub download: Option<String>,
    /// Trimmed value of `Installed Size`.
    pub installed: Option<String>,
}

impl Default for PackageSizes {
    fn default() -> (s: PackageSizes)
        ensures
            s.download_bytes == 0,
            s.install_bytes == 0,
            s.unknown == 0,
    {
        PackageSizes { download_bytes: 0, install_bytes: 0, unknown: 0 }
    }
}

impl Default for PlanEstimate {
    fn default() -> (e: PlanEstimate)
        ensures
            e.official == PackageSizes::zero(),
            e.aur == PackageSizes::zero(),
            e.free_bytes is None,
    {
        PlanEstimate { official: PackageSizes::default(), aur: PackageSizes::default(), free_bytes: None }
    }
}

impl PackageSizes {
    /// No bytes and no unknown package.
    pub open spec fn zero() -> PackageSizes {
        PackageSizes { download_bytes: 0, install_bytes: 0, unknown: 0 }
    }
}

impl PlanEstimate {
    /// Bytes to download in total.
    pub fn total_download(&self) -> (t: u64)
        requires
            self.official.download_bytes + self.aur.download_bytes <= u64::MAX,
        ensures
            t == self.official.download_bytes + self.aur.download_bytes,
    {
        self.official.download_bytes + self.aur.download_bytes
    }

    /// Bytes on disk in total.
    pub fn total_install(&self) -> (t: u64)
        requires
            self.official.install_bytes + self.aur.install_bytes <= u64::MAX,
        ensures
            t == self.official.install_bytes + self.aur.install_bytes,
    {
        self.official.install_bytes + self.aur.install_bytes
    }

    /// Packages of unknown size in total.
    pub fn total_unknown(&self) -> (t: u32)
        requires
            self.official.unknown + self.aur.unknown <= u32::MAX,
        ensures
            t == self.official.unknown + self.aur.unknown,
    {
        self.official.unknown + self.aur.unknown
    }

    /// `Some(true)` if the free space is more than what will be installed,
    /// `Some(false)` if not, `None` if the free space is unknown.
    pub fn fits(&self) -> (r: Option<bool>)
        requires
            self.official.install_bytes + self.aur.install_bytes <= u64::MAX,
        ensures
            r == (match self.free_bytes {
                Some(free) => Some(free > self.official.install_bytes + self.aur.install_bytes),
                None => None,
            }),
    {
        match self.free_bytes {
            Some(free) => Some(free > self.total_install()),
            None => None,
        }
    }
}

// ----------------------------------------------------------------------
// Specifications
// ----------------------------------------------------------------------

/// The line prefix pacman uses for the package name.
pub open spec fn name_prefix() -> Seq<char> {
    "Name            : "@
}

/// A `pacman -Si` block has a `Name` line.
pub open spec fn block_named(b: Seq<char>) -> bool {
    exists|i: int| 0 <= i < lines_seq(b).len() && has_prefix(#[trigger] lines_seq(b)[i], name_prefix())
}

/// How many blocks have a `Name` line.
pub open spec fn count_named(bs: Seq<Seq<char>>) -> nat
    decreases bs.len(),
{
    if bs.len() == 0 {
        0
    } else {
        count_named(bs.drop_last()) + if block_named(bs.last()) {
            1nat
        } else {
            0nat
        }
    }
}

/// Scanning the lines of a block: the last `Download Size` and `Installed Size`
/// values seen.
pub open spec fn si_scan(ls: Seq<Seq<char>>) -> (Option<Seq<char>>, Option<Seq<char>>)
    decreases ls.len(),
{
    if ls.len() == 0 {
        (None, None)
    } else {
        let (d, i) = si_scan(ls.drop_last());
        match strip_prefix_seq(ls.last(), "Download Size   : "@) {
            Some(v) => (Some(trim_seq(v)), i),
            None => match strip_prefix_seq(ls.last(), "Installed Size  : "@) {
                Some(v) => (d, Some(trim_seq(v))),
                None => (d, i),
            },
        }
    }
}

/// The size fields of each block of a `pacman -Si` output.
pub open spec fn si_fields(out: Seq<char>) -> Seq<(Option<Seq<char>>, Option<Seq<char>>)> {
    blocks_seq(out).map_values(|b: Seq<char>| si_scan(lines_seq(b)))
}

/// `a + b`, saturating at the largest `u64`.
pub open spec fn sat_add(a: nat, b: nat) -> nat {
    if a + b > u64::MAX {
        u64::MAX as nat
    } else {
        a + b
    }
}

/// Saturating sums of the sizes of the blocks that report both sizes.
pub open spec fn sum_sizes_spec(pairs: Seq<(Option<u64>, Option<u64>)>) -> (nat, nat)
    decreases pairs.len(),
{
    if pairs.len() == 0 {
        (0, 0)
    } else {
        let (d, i) = sum_sizes_spec(pairs.drop_last());
        match pairs.last() {
            (Some(a), Some(b)) => (sat_add(d, a as nat), sat_add(i, b as nat)),
            _ => (d, i),
        }
    }
}

/// The packages of `list` that are in neither installed list.
pub open spec fn pending_spec(list: Seq<String>, off: Seq<String>, aur: Seq<String>) -> Seq<
    Seq<char>,
>
    decreases list.len(),
{
    if list.len() == 0 {
        Seq::empty()
    } else {
        let p = pending_spec(list.drop_last(), off, aur);
        let x = list.last()@;
        if list_has(off, x) || list_has(aur, x) {
            p
        } else {
            p.push(x)
        }
    }
}

/// Sizes of the pending official packages, from the `pacman -Si` query over
/// them: every package the output has no block with a `Name` for counts as
/// unknown; all of them when the query failed.
pub open spec fn official_sizes(count: nat, query: Option<(Seq<char>, PackageSizes)>) -> PackageSizes {
    if count == 0 {
        PackageSizes::zero()
    } else {
        match query {
            None => PackageSizes { download_bytes: 0, install_bytes: 0, unknown: count as u32 },
            Some((out, parsed)) => PackageSizes {
                unknown: (parsed.unknown + if count > count_named(blocks_seq(out)) {
                    (count - count_named(blocks_seq(out))) as u32
                } else {
                    0u32
                }) as u32,
                ..parsed
            },
        }
    }
}

/// Sizes of the pending AUR packages: all unknown.
pub open spec fn aur_sizes(count: nat) -> PackageSizes {
    PackageSizes { download_bytes: 0, install_bytes: 0, unknown: count as u32 }
}

/// `df -B1` output: the fourth column of the second line, as a number.
pub open spec fn df_free(out: Seq<char>) -> Option<u64> {
    if lines_seq(out).len() < 2 {
        None
    } else {
        match word_at(lines_seq(out)[1], 3) {
            Some(w) => parse_u64_spec(w),
            None => None,
        }
    }
}

/// `n / d` rounded to the nearest integer, ties to even.
pub open spec fn round_half_even(n: nat, d: nat) -> nat {
    let q = n / d;
    let r = n % d;
    if 2 * r > d || (2 * r == d && q % 2 == 1) {
        q + 1
    } else {
        q
    }
}

/// `2^e`.
pub open spec fn pow2(e: nat) -> nat
    decreases e,
{
    if e == 0 {
        1
    } else {
        2 * pow2((e - 1) as nat)
    }
}

/// The exponent of the last significant bit a `f64` keeps of `b`.
pub open spec fn f64_exp(b: nat) -> nat
    decreases b,
{
    if b < 0x20000000000000 {
        0
    } else {
        1 + f64_exp(b / 2)
    }
}

/// `b as f64`: `b` rounded to 53 significant bits, ties to even.
pub open spec fn as_f64(b: nat) -> nat {
    round_half_even(b, pow2(f64_exp(b))) * pow2(f64_exp(b))
}

/// `human_bytes`: `"X.Y GB"`, `"X MB"`, `"X KB"` or `"X B"`, each rounded to
/// the digits shown, as the float formatting of `b` divided by the unit does.
pub open spec fn human_bytes_spec(b: nat) -> Seq<char> {
    if b >= GIB {
        let t = round_half_even(as_f64(b) * 10, GIB as nat);
        dec(t / 10) + "."@ + dec(t % 10) + " GB"@
    } else if b >= MIB {
        dec(round_half_even(b, MIB as nat)) + " MB"@
    } else if b >= KIB {
        dec(round_half_even(b, KIB as nat)) + " KB"@
    } else {
        dec(b) + " B"@
    }
}

// ----------------------------------------------------------------------
// Functions
// ----------------------------------------------------------------------

/// The packages of `list` that are not installed yet (in neither list).
pub fn pending_packages(list: &[String], already_official: &[String], already_aur: &[String]) -> (r:
    Vec<String>)
    ensures
        views(r@) == pending_spec(list@, already_official@, already_aur@),
{
    let mut r: Vec<String> = Vec::new();
    let mut i: usize = 0;
    while i < list.len()
        invariant
            i <= list.len(),
            views(r@) == pending_spec(list@.take(i as int), already_official@, already_aur@),
        decreases list.len() - i,
    {
        proof {
            assert(list@.take(i + 1).drop_last() =~= list@.take(i as int));
        }
        let ghost before = r@;
        if !list_contains(already_official, list[i].as_str()) && !list_contains(
            already_aur,
            list[i].as_str(),
        ) {
            r.push(list[i].clone());
            assert(views(r@) =~= views(before).push(list@[i as int]@));
        }
        i = i + 1;
    }
    assert(list@.take(list@.len() as int) =~= list@);
    r
}

/// Number of blocks (separated by blank lines) of a `pacman -Si` output that
/// carry a `Name` line.
pub fn count_parsed_names(stdout: &str) -> (n: usize)
    ensures
        n == count_named(blocks_seq(stdout@)),
{
    let s = chars_of(stdout);
    let bs = blocks_of(s.as_slice());
    let prefix = chars_of("Name            : ");
    let mut n: usize = 0;
    let mut i: usize = 0;
    while i < bs.len()
        invariant
            i <= bs.len(),
            vviews(bs@) == blocks_seq(stdout@),
            prefix@ == name_prefix(),
            n == count_named(vviews(bs@).take(i as int)),
            n <= i,
        decreases bs.len() - i,
    {
        proof {
            assert(vviews(bs@).take(i + 1).drop_last() =~= vviews(bs@).take(i as int));
        }
        let ls = lines_of(bs[i].as_slice());
        let mut found = false;
        let mut k: usize = 0;
        while k < ls.len()
            invariant
                k <= ls.len(),
                vviews(ls@) == lines_seq(bs@[i as int]@),
                prefix@ == name_prefix(),
                found == exists|j: int| 0 <= j < k && has_prefix(#[trigger] vviews(ls@)[j], name_prefix()),
            decreases ls.len() - k,
        {
            let hit = starts_with(ls[k].as_slice(), prefix.as_slice());
            proof {
                assert(vviews(ls@)[k as int] == ls@[k as int]@);
                if hit {
                    assert(has_prefix(vviews(ls@)[k as int], name_prefix()));
                }
            }
            found = found || hit;
            k = k + 1;
        }
        proof {
            assert(vviews(bs@)[i as int] == bs@[i as int]@);
        }
        if found {
            n = n + 1;
        }
        i = i + 1;
    }
    assert(vviews(bs@).take(bs@.len() as int) =~= vviews(bs@));
    n
}

/// The size fields of each block of a `pacman -Si` output.
pub fn pacman_si_blocks(stdout: &str) -> (r: Vec<SiBlock>)
    ensures
        r@.map_values(|b: SiBlock| (oview_of(b.download), oview_of(b.installed))) == si_fields(
            stdout@,
        ),
{
    let s = chars_of(stdout);
    let bs = blocks_of(s.as_slice());
    let mut r: Vec<SiBlock> = Vec::new();
    let mut i: usize = 0;
    while i < bs.len()
        invariant
            i <= bs.len(),
            vviews(bs@) == blocks_seq(stdout@),
            r@.len() == i,
            forall|j: int|
                0 <= j < i ==> (oview_of((#[trigger] r@[j]).download), oview_of(r@[j].installed))
                    == si_scan(lines_seq(vviews(bs@)[j])),
        decreases bs.len() - i,
    {
        let ls = lines_of(bs[i].as_slice());
        let mut download: Option<String> = None;
        let mut installed: Option<String> = None;
        let mut k: usize = 0;
        while k < ls.len()
            invariant
                k <= ls.len(),
                vviews(ls@) == lines_seq(bs@[i as int]@),
                si_scan(vviews(ls@).take(k as int)) == (oview_of(download), oview_of(installed)),
            decreases ls.len() - k,
        {
            proof {
                assert(vviews(ls@).take(k + 1).drop_last() =~= vviews(ls@).take(k as int));
                assert(vviews(ls@)[k as int] == ls@[k as int]@);
            }
            match strip_prefix(ls[k].as_slice(), "Download Size   : ") {
                Some(v) => {
                    let t = trim_chars(v.as_slice());
                    download = Some(string_of(t.as_slice()));
                },
                None => match strip_prefix(ls[k].as_slice(), "Installed Size  : ") {
                    Some(v) => {
                        let t = trim_chars(v.as_slice());
                        installed = Some(string_of(t.as_slice()));
                    },
                    None => {},
                },
            }
            k = k + 1;
        }
        proof {
            assert(vviews(ls@).take(ls@.len() as int) =~= vviews(ls@));
            assert(vviews(bs@)[i as int] == bs@[i as int]@);
        }
        r.push(SiBlock { download, installed });
        i = i + 1;
    }
    assert(r@.map_values(|b: SiBlock| (oview_of(b.download), oview_of(b.installed))) =~= si_fields(
        stdout@,
    ));
    r
}

/// The character view of an optional string.
pub open spec fn oview_of(o: Option<String>) -> Option<Seq<char>> {
    match o {
        Some(s) => Some(s@),
        None => None,
    }
}

/// Saturating sums of the download and installed sizes of the blocks that
/// report both; a block missing one of them adds nothing (the caller counts it
/// through `count_parsed_names`).
pub fn sum_sizes(pairs: &[(Option<u64>, Option<u64>)]) -> (s: PackageSizes)
    ensures
        s.download_bytes == sum_sizes_spec(pairs@).0,
        s.install_bytes == sum_sizes_spec(pairs@).1,
        s.unknown == 0,
{
    let mut d: u64 = 0;
    let mut n: u64 = 0;
    let mut i: usize = 0;
    while i < pairs.len()
        invariant
            i <= pairs.len(),
            (d as nat, n as nat) == sum_sizes_spec(pairs@.take(i as int)),
        decreases pairs.len() - i,
    {
        proof {
            assert(pairs@.take(i + 1).drop_last() =~= pairs@.take(i as int));
        }
        match pairs[i] {
            (Some(a), Some(b)) => {
                d = d.saturating_add(a);
                n = n.saturating_add(b);
            },
            _ => {},
        }
        i = i + 1;
    }
    assert(pairs@.take(pairs@.len() as int) =~= pairs@);
    PackageSizes { download_bytes: d, install_bytes: n, unknown: 0 }
}

/// AUR packages have no published size: all of them count as unknown.
pub fn estimate_aur(packages: &[String]) -> (s: PackageSizes)
    ensures
        s == aur_sizes(packages@.len()),
{
    PackageSizes { download_bytes: 0, install_bytes: 0, unknown: packages.len() as u32 }
}

/// Sizes of the pending official packages from the outcome of the `pacman -Si`
/// query over them: its output and the sizes parsed from it, or `None` when
/// the query failed.
pub fn estimate_official(count: usize, query: Option<(&str, PackageSizes)>) -> (s: PackageSizes)
    requires
        query matches Some((_, p)) ==> p.unknown == 0,
    ensures
        s == official_sizes(
            count as nat,
            match query {
                Some((o, p)) => Some((o@, p)),
                None => None,
            },
        ),
{
    if count == 0 {
        return PackageSizes::default();
    }
    match query {
        None => PackageSizes { download_bytes: 0, install_bytes: 0, unknown: count as u32 },
        Some((out, parsed)) => {
            let named = count_parsed_names(out);
            let missing = count.saturating_sub(named);
            PackageSizes { unknown: parsed.unknown + missing as u32, ..parsed }
        },
    }
}

/// The estimate of a plan: sizes of its official and AUR packages that are not
/// installed yet, and the free space. `query` is the outcome of `pacman -Si`
/// over the pending official packages (`pending_packages(official, ..)`).
pub fn estimate(
    official: &[String],
    aur: &[String],
    already_official: &[String],
    already_aur: &[String],
    query: Option<(&str, PackageSizes)>,
    free_bytes: Option<u64>,
) -> (e: PlanEstimate)
    requires
        query matches Some((_, p)) ==> p.unknown == 0,
    ensures
        e.official == official_sizes(
            pending_spec(official@, already_official@, already_aur@).len(),
            match query {
                Some((o, p)) => Some((o@, p)),
                None => None,
            },
        ),
        e.aur == aur_sizes(pending_spec(aur@, already_official@, already_aur@).len()),
        e.free_bytes == free_bytes,
{
    let off = pending_packages(official, already_official, already_aur);
    let au = pending_packages(aur, already_official, already_aur);
    PlanEstimate {
        official: estimate_official(off.len(), query),
        aur: estimate_aur(au.as_slice()),
        free_bytes,
    }
}

/// Free bytes reported by `df -B1`: the fourth column of the second line.
pub fn parse_df_free(stdout: &str) -> (r: Option<u64>)
    ensures
        r == df_free(stdout@),
{
    let ls = lines(stdout);
    if ls.len() < 2 {
        return None;
    }
    assert(vviews(ls@)[1] == ls@[1]@);
    match nth_word(ls[1].as_slice(), 3) {
        Some(w) => parse_u64(w.as_slice()),
        None => None,
    }
}

fn round_half_even_exec(n: u128, d: u128) -> (q: u128)
    requires
        d > 0,
        d <= 0xFFFF_FFFF,
        n <= u128::MAX / 2,
    ensures
        q == round_half_even(n as nat, d as nat),
{
    let q = n / d;
    let r = n % d;
    if 2 * r > d || (2 * r == d && q % 2 == 1) {
        q + 1
    } else {
        q
    }
}

/// `b` rounded as `b as f64` rounds it.
fn as_f64_exec(b: u64) -> (x: u128)
    ensures
        x == as_f64(b as nat),
        x <= 0x2_0000_0000_0000_0000,
{
    let mut t: u64 = b;
    let mut scale: u128 = 1;
    let ghost mut e: nat = 0;
    while t >= 0x20000000000000
        invariant
            scale == pow2(e),
            1 <= scale <= 4096,
            t == b as nat / scale as nat,
            f64_exp(b as nat) == e + f64_exp(t as nat),
            t as nat * scale as nat <= b as nat,
        decreases t,
    {
        proof {
            vstd::arithmetic::div_mod::lemma_div_denominator(b as int, scale as int, 2);
            assert(t as nat * scale as nat >= 0x20000000000000 * scale as nat) by (nonlinear_arith)
                requires
                    t >= 0x20000000000000,
                    scale >= 1,
            ;
            assert(scale < 2048) by (nonlinear_arith)
                requires
                    0x20000000000000 * scale as nat <= b,
                    b <= 0xFFFF_FFFF_FFFF_FFFF,
            ;
            assert((t as nat / 2) * (2 * scale as nat) <= t as nat * scale as nat) by (
            nonlinear_arith)
                requires
                    scale >= 1,
            ;
        }
        t = t / 2;
        scale = scale * 2;
        proof {
            e = e + 1;
        }
    }
    let q = round_half_even_exec(b as u128, scale);
    proof {
        assert(q <= t + 1);
        assert(q * scale <= 0x2_0000_0000_0000_0000) by (nonlinear_arith)
            requires
                q <= 0x20000000000000,
                scale <= 4096,
        ;
    }
    q * scale
}

/// Formats a size in bytes for messages: `"512 B"`, `"8 KB"`, `"5 MB"`,
/// `"1.2 GB"` (one decimal in gigabytes, rounded as float formatting rounds).
pub fn human_bytes(b: u64) -> (s: String)
    ensures
        s@ == human_bytes_spec(b as nat),
{
    if b >= GIB {
        let x = as_f64_exec(b);
        let t = round_half_even_exec(x * 10, GIB as u128);
        proof {
            assert(t <= (x * 10) as int / 1073741824int + 1);
            assert((x * 10) as int / 1073741824int <= 0x14_0000_0000_0000_0000int / 1073741824int) by {
                vstd::arithmetic::div_mod::lemma_div_is_ordered(
                    (x * 10) as int,
                    0x14_0000_0000_0000_0000int,
                    1073741824int,
                );
            }
        }
        let t64 = t as u64;
        let mut v = dec_chars(t64 / 10);
        v.push('.');
        let frac = dec_chars(t64 % 10);
        let mut i: usize = 0;
        let ghost head = v@;
        while i < frac.len()
            invariant
                i <= frac.len(),
                v@ == head + frac@.take(i as int),
            decreases frac.len() - i,
        {
            v.push(frac[i]);
            proof {
                assert(head + frac@.take(i + 1) =~= (head + frac@.take(i as int)).push(frac@[i as int]));
            }
            i = i + 1;
        }
        v.push(' ');
        v.push('G');
        v.push('B');
        proof {
            reveal_strlit(".");
            reveal_strlit(" GB");
            assert(frac@.take(frac@.len() as int) =~= frac@);
            assert(v@ =~= dec((t / 10) as nat) + "."@ + dec((t % 10) as nat) + " GB"@);
        }
        string_of(v.as_slice())
    } else if b >= MIB {
        let q = round_half_even_exec(b as u128, MIB as u128);
        let mut v = dec_chars(q as u64);
        v.push(' ');
        v.push('M');
        v.push('B');
        proof {
            reveal_strlit(" MB");
            assert(v@ =~= dec(q as nat) + " MB"@);
        }
        string_of(v.as_slice())
    } else if b >= KIB {
        let q = round_half_even_exec(b as u128, KIB as u128);
        let mut v = dec_chars(q as u64);
        v.push(' ');
        v.push('K');
        v.push('B');
        proof {
            reveal_strlit(" KB");
            assert(v@ =~= dec(q as nat) + " KB"@);
        }
        string_of(v.as_slice())
    } else {
        let mut v = dec_chars(b);
        v.push(' ');
        v.push('B');
        proof {
            reveal_strlit(" B");
            assert(v@ =~= dec(b as nat) + " B"@);
        }
        string_of(v.as_slice())
    }
}

} // verus!
