use arch_postinstall::hardware::{gpu_from_lspci, microcode_from_cpuinfo, DetectedDriver, DetectedMicrocode};

#[test]
fn catalog_ids_match() {
    assert_eq!(DetectedDriver::Nvidia.catalog_id(), "nvidia");
    assert_eq!(DetectedDriver::Amd.catalog_id(), "amd");
    assert_eq!(DetectedDriver::Intel.catalog_id(), "intel");
    assert_eq!(DetectedDriver::Vm.catalog_id(), "vm");
    assert_eq!(DetectedMicrocode::Intel.catalog_id(), "intel-ucode");
    assert_eq!(DetectedMicrocode::Amd.catalog_id(), "amd-ucode");
}

#[test]
fn gpu_found_in_lspci_output() {
    let out = "00:00.0 \"Host bridge\" \"Intel Corporation\" \"Device\" \"\" \"\"\n\
01:00.0 \"VGA compatible controller\" \"NVIDIA Corporation\" \"GA106\" -ra1 \"\" \"\"\n";
    assert_eq!(gpu_from_lspci(out), Some(DetectedDriver::Nvidia));
    let amd = "03:00.0 \"VGA compatible controller\" \"Advanced Micro Devices, Inc. [AMD/ATI]\" \"Navi\"\n";
    assert_eq!(gpu_from_lspci(amd), Some(DetectedDriver::Amd));
    let vm = "00:02.0 \"VGA compatible controller\" \"Red Hat, Inc.\" \"Virtio GPU\"\n";
    assert_eq!(gpu_from_lspci(vm), Some(DetectedDriver::Vm));
    let three_d = "00:02.0 \"3D controller\" \"Intel Corporation\" \"Iris\"\n";
    assert_eq!(gpu_from_lspci(three_d), Some(DetectedDriver::Intel));
    assert_eq!(gpu_from_lspci("00:00.0 \"Host bridge\" \"Intel Corporation\" \"x\"\n"), None);
    assert_eq!(gpu_from_lspci(""), None);
}

#[test]
fn microcode_from_first_vendor_line() {
    assert_eq!(microcode_from_cpuinfo("processor : 0\nvendor_id:GenuineIntel\n"), Some(DetectedMicrocode::Intel));
    assert_eq!(microcode_from_cpuinfo("vendor_id::AuthenticAMD \n"), Some(DetectedMicrocode::Amd));
    assert_eq!(microcode_from_cpuinfo("vendor_id:Other\nvendor_id:GenuineIntel\n"), None);
    assert_eq!(microcode_from_cpuinfo("model name : x\n"), None);
    // The usual layout puts a tab before the colon: only leading colons are removed.
    assert_eq!(microcode_from_cpuinfo("vendor_id\t: GenuineIntel\n"), None);
}

#[test]
fn hybrid_laptop_prefers_nvidia() {
    let out = "00:02.0 \"VGA compatible controller\" \"Intel Corporation\" \"UHD Graphics\"\n\
01:00.0 \"3D controller\" \"NVIDIA Corporation\" \"GA107M\"\n";
    assert_eq!(gpu_from_lspci(out), Some(DetectedDriver::Nvidia));
    let amd_intel = "00:02.0 \"VGA compatible controller\" \"Intel Corporation\" \"UHD\"\n\
05:00.0 \"VGA compatible controller\" \"Advanced Micro Devices, Inc. [AMD/ATI]\" \"Navi\"\n";
    assert_eq!(gpu_from_lspci(amd_intel), Some(DetectedDriver::Amd));
    let vm_intel = "00:01.0 \"VGA compatible controller\" \"Red Hat, Inc.\" \"Virtio\"\n\
00:02.0 \"VGA compatible controller\" \"Intel Corporation\" \"UHD\"\n";
    assert_eq!(gpu_from_lspci(vm_intel), Some(DetectedDriver::Intel));
}
