//! Hardware detection, used to preselect drivers and CPU microcode so the
//! user does not need to know the GPU or CPU model.
//!
//! - GPU: the output of `lspci -mm`; each VGA or 3D controller's vendor maps
//!   to one of the catalog's drivers (NVIDIA, AMD, Intel, or VM for guests),
//!   and the preferred one among all of them is chosen.
//! - CPU microcode: `/proc/cpuinfo`, whose vendor maps to `intel-ucode` or
//!   `amd-ucode`.
//!
//! Running `lspci` and reading `/proc/cpuinfo` happen outside the library;
//! these functions decide from what was read.

use vstd::prelude::*;

use crate::text::{
    has_text, is_text, lines, split_on, strip_prefix, trim_chars, trim_start_char,
    contains_seq, lines_seq, split_seq, strip_prefix_seq, trim_seq, trim_start_char_seq,
};

verus! {

/// Catalog driver ids that can be preselected.
#[derive(Debug, Clone, Copy, PartialEq, Eq, Structural)]
pub enum DetectedDriver {
    Nvidia,
    Amd,
    Intel,
    Vm,
}

/// Catalog microcode ids.
#[derive(Debug, Clone, Copy, PartialEq, Eq, Structural)]
pub enum DetectedMicrocode {
    Intel,
    Amd,
}

/// The catalog id of a detected driver.
pub open spec fn driver_id(d: DetectedDriver) -> Seq<char> {
    match d {
        DetectedDriver::Nvidia => "nvidia"@,
        DetectedDriver::Amd => "amd"@,
        DetectedDriver::Intel => "intel"@,
        DetectedDriver::Vm => "vm"@,
    }
}

/// The catalog id of a detected microcode.
pub open spec fn microcode_id(m: DetectedMicrocode) -> Seq<char> {
    match m {
        DetectedMicrocode::Intel => "intel-ucode"@,
        DetectedMicrocode::Amd => "amd-ucode"@,
    }
}

impl DetectedDriver {
    /// The id the catalog uses for this driver.
    pub fn catalog_id(self) -> (r: &'static str)
        ensures
            r@ == driver_id(self),
    {
        match self {
            DetectedDriver::Nvidia => "nvidia",
            DetectedDriver::Amd => "amd",
            DetectedDriver::Intel => "intel",
            DetectedDriver::Vm => "vm",
        }
    }
}

impl DetectedMicrocode {
    /// The id the catalog uses for this microcode.
    pub fn catalog_id(self) -> (r: &'static str)
        ensures
            r@ == microcode_id(self),
    {
        match self {
            DetectedMicrocode::Intel => "intel-ucode",
            DetectedMicrocode::Amd => "amd-ucode",
        }
    }
}

/// The `i`-th piece, or empty text where there is none.
pub open spec fn piece(fs: Seq<Seq<char>>, i: int) -> Seq<char> {
    if 0 <= i < fs.len() {
        fs[i]
    } else {
        Seq::empty()
    }
}

/// The driver named by one line of `lspci -mm`: the line's class (second
/// quoted field) must be a VGA or 3D controller, and its vendor (fourth)
/// decides.
pub open spec fn gpu_of_line(line: Seq<char>) -> Option<DetectedDriver> {
    let fs = split_seq(line, '"');
    let class = trim_seq(piece(fs, 1));
    let vendor = piece(fs, 3);
    if class != "VGA compatible controller"@ && class != "3D controller"@ {
        None
    } else if contains_seq(vendor, "NVIDIA"@) {
        Some(DetectedDriver::Nvidia)
    } else if contains_seq(vendor, "AMD"@) || contains_seq(vendor, "ATI"@) {
        Some(DetectedDriver::Amd)
    } else if contains_seq(vendor, "Intel"@) {
        Some(DetectedDriver::Intel)
    } else if contains_seq(vendor, "Red Hat"@) || contains_seq(vendor, "Virtio"@)
        || contains_seq(vendor, "QEMU"@) {
        Some(DetectedDriver::Vm)
    } else {
        None
    }
}

/// Preference among drivers: NVIDIA first, then AMD, then Intel, then a
/// virtual machine's.
pub open spec fn rank(d: DetectedDriver) -> int {
    match d {
        DetectedDriver::Nvidia => 0,
        DetectedDriver::Amd => 1,
        DetectedDriver::Intel => 2,
        DetectedDriver::Vm => 3,
    }
}

/// The preferred of two findings; a finding wins over none.
pub open spec fn better(a: Option<DetectedDriver>, b: Option<DetectedDriver>) -> Option<
    DetectedDriver,
> {
    match (a, b) {
        (None, _) => b,
        (_, None) => a,
        (Some(x), Some(y)) => if rank(x) <= rank(y) {
            a
        } else {
            b
        },
    }
}

/// The preferred driver among all the lines that name one.
pub open spec fn gpu_in(ls: Seq<Seq<char>>) -> Option<DetectedDriver>
    decreases ls.len(),
{
    if ls.len() == 0 {
        None
    } else {
        better(gpu_in(ls.drop_last()), gpu_of_line(ls.last()))
    }
}

/// What the lines give is none exactly when no line names a driver;
/// otherwise it is named by some line and no line names a preferred one.
pub proof fn lemma_gpu_in_prefers(ls: Seq<Seq<char>>)
    ensures
        gpu_in(ls) is None <==> forall|i: int| 0 <= i < ls.len() ==> #[trigger] gpu_of_line(ls[i]) is None,
        gpu_in(ls) matches Some(d) ==> (exists|i: int| 0 <= i < ls.len() && #[trigger] gpu_of_line(ls[i]) == Some(d)),
        gpu_in(ls) matches Some(d) ==> forall|i: int|
            0 <= i < ls.len() ==> (#[trigger] gpu_of_line(ls[i]) matches Some(e) ==> rank(d) <= rank(e)),
    decreases ls.len(),
{
    if ls.len() > 0 {
        let init = ls.drop_last();
        lemma_gpu_in_prefers(init);
        assert forall|i: int| 0 <= i < init.len() implies init[i] == ls[i] by {}
        let last = ls.len() - 1;
        assert(ls[last] == ls.last());
        if gpu_in(init) is None && gpu_of_line(ls.last()) is None {
            assert forall|i: int| 0 <= i < ls.len() implies #[trigger] gpu_of_line(ls[i]) is None by {
                if i < init.len() {
                    assert(gpu_of_line(init[i]) is None);
                }
            }
        }
        if gpu_in(ls) is None {
            assert(gpu_of_line(ls[last]) is None);
        }
        if let Some(d) = gpu_in(ls) {
            if gpu_in(init) == Some(d) {
                let k = choose|i: int| 0 <= i < init.len() && #[trigger] gpu_of_line(init[i]) == Some(d);
                assert(gpu_of_line(ls[k]) == Some(d));
            } else {
                assert(gpu_of_line(ls[last]) == Some(d));
            }
            assert forall|i: int| 0 <= i < ls.len() implies (#[trigger] gpu_of_line(ls[i]) matches Some(
                e,
            ) ==> rank(d) <= rank(e)) by {
                if i < init.len() {
                    assert(gpu_of_line(init[i]) == gpu_of_line(ls[i]));
                }
            }
        }
    }
}

/// The microcode named by the first `vendor_id` line of `/proc/cpuinfo`:
/// what follows the key, with leading colons and then surrounding
/// whitespace removed, must be exactly a known vendor.
pub open spec fn microcode_in(ls: Seq<Seq<char>>) -> Option<DetectedMicrocode>
    decreases ls.len(),
{
    if ls.len() == 0 {
        None
    } else {
        match strip_prefix_seq(ls[0], "vendor_id"@) {
            Some(rest) => {
                let v = trim_seq(trim_start_char_seq(rest, ':'));
                if v == "GenuineIntel"@ {
                    Some(DetectedMicrocode::Intel)
                } else if v == "AuthenticAMD"@ {
                    Some(DetectedMicrocode::Amd)
                } else {
                    None
                }
            },
            None => microcode_in(ls.drop_first()),
        }
    }
}

fn gpu_line(line: &[char]) -> (r: Option<DetectedDriver>)
    ensures
        r == gpu_of_line(line@),
{
    let fs = split_on(line, '"');
    let ghost fv = crate::text::vviews(fs@);
    let class = if fs.len() > 1 {
        trim_chars(fs[1].as_slice())
    } else {
        Vec::new()
    };
    assert(class@ == trim_seq(piece(fv, 1))) by {
        if fs.len() <= 1 {
            assert(trim_seq(Seq::<char>::empty()) =~= Seq::<char>::empty());
        }
    }
    if !is_text(class.as_slice(), "VGA compatible controller") && !is_text(
        class.as_slice(),
        "3D controller",
    ) {
        return None;
    }
    let vendor = if fs.len() > 3 {
        fs[3].clone()
    } else {
        Vec::new()
    };
    assert(vendor@ == piece(fv, 3));
    let v = vendor.as_slice();
    if has_text(v, "NVIDIA") {
        Some(DetectedDriver::Nvidia)
    } else if has_text(v, "AMD") || has_text(v, "ATI") {
        Some(DetectedDriver::Amd)
    } else if has_text(v, "Intel") {
        Some(DetectedDriver::Intel)
    } else if has_text(v, "Red Hat") || has_text(v, "Virtio") || has_text(v, "QEMU") {
        Some(DetectedDriver::Vm)
    } else {
        None
    }
}

/// The driver for the GPU, from the standard output of `lspci -mm`: every
/// VGA or 3D controller line is read, and NVIDIA is preferred, then AMD,
/// then Intel, then a virtual machine's; `None` when no line names a
/// recognisable one.
pub fn gpu_from_lspci(stdout: &str) -> (r: Option<DetectedDriver>)
    ensures
        r == gpu_in(lines_seq(stdout@)),
        r is None <==> forall|i: int|
            0 <= i < lines_seq(stdout@).len() ==> #[trigger] gpu_of_line(lines_seq(stdout@)[i]) is None,
        r matches Some(d) ==> forall|i: int|
            0 <= i < lines_seq(stdout@).len() ==> (#[trigger] gpu_of_line(lines_seq(stdout@)[i]) matches Some(
                e,
            ) ==> rank(d) <= rank(e)),
{
    let ls = lines(stdout);
    let ghost all = crate::text::vviews(ls@);
    let mut best: Option<DetectedDriver> = None;
    let mut i: usize = 0;
    assert(all.take(0) =~= Seq::<Seq<char>>::empty());
    while i < ls.len()
        invariant
            i <= ls.len(),
            all == crate::text::vviews(ls@),
            all == lines_seq(stdout@),
            best == gpu_in(all.take(i as int)),
        decreases ls.len() - i,
    {
        let d = gpu_line(ls[i].as_slice());
        proof {
            assert(all[i as int] == ls@[i as int]@);
            assert(all.take(i + 1).drop_last() =~= all.take(i as int));
            assert(all.take(i + 1).last() == all[i as int]);
        }
        best = match (best, d) {
            (None, _) => d,
            (_, None) => best,
            (Some(x), Some(y)) => if rank_of(x) <= rank_of(y) {
                best
            } else {
                d
            },
        };
        i = i + 1;
    }
    assert(all.take(all.len() as int) =~= all);
    proof {
        lemma_gpu_in_prefers(all);
    }
    best
}

fn rank_of(d: DetectedDriver) -> (r: u8)
    ensures
        r == rank(d),
{
    match d {
        DetectedDriver::Nvidia => 0,
        DetectedDriver::Amd => 1,
        DetectedDriver::Intel => 2,
        DetectedDriver::Vm => 3,
    }
}

/// The CPU microcode package, from the contents of `/proc/cpuinfo`; only the
/// first `vendor_id` line is looked at.
pub fn microcode_from_cpuinfo(body: &str) -> (r: Option<DetectedMicrocode>)
    ensures
        r == microcode_in(lines_seq(body@)),
{
    let ls = lines(body);
    let ghost all = crate::text::vviews(ls@);
    let mut i: usize = 0;
    assert(all.skip(0) =~= all);
    while i < ls.len()
        invariant
            i <= ls.len(),
            all == crate::text::vviews(ls@),
            all == lines_seq(body@),
            microcode_in(all) == microcode_in(all.skip(i as int)),
        decreases ls.len() - i,
    {
        proof {
            assert(all.skip(i as int)[0] == ls@[i as int]@);
            assert(all.skip(i as int).drop_first() =~= all.skip(i + 1));
        }
        match strip_prefix(ls[i].as_slice(), "vendor_id") {
            Some(rest) => {
                let t = trim_start_char(rest.as_slice(), ':');
                let v = trim_chars(t.as_slice());
                if is_text(v.as_slice(), "GenuineIntel") {
                    return Some(DetectedMicrocode::Intel);
                } else if is_text(v.as_slice(), "AuthenticAMD") {
                    return Some(DetectedMicrocode::Amd);
                } else {
                    return None;
                }
            },
            None => {},
        }
        i = i + 1;
    }
    None
}

} // verus!
