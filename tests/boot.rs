use uefi_run::{boot_entry, boot_plan, startup_script, BootMode, BootOp};

fn ops(mode: BootMode, exe: &[u8]) -> Vec<(bool, String, Vec<u8>)> {
    boot_plan(mode, exe.to_vec())
        .into_iter()
        .map(|op| match op {
            BootOp::EnsureDir(p) => (false, p, Vec::new()),
            BootOp::WriteFile(p, d) => (true, p, d),
        })
        .collect()
}

#[test]
fn bootloader_layout() {
    assert_eq!(
        ops(BootMode::Bootloader, b"MZ\x90"),
        vec![
            (false, "EFI".to_string(), vec![]),
            (false, "EFI/Boot".to_string(), vec![]),
            (true, "EFI/Boot/BootX64.efi".to_string(), b"MZ\x90".to_vec()),
        ]
    );
    assert_eq!(boot_entry(BootMode::Bootloader), "EFI/Boot/BootX64.efi");
}

#[test]
fn shell_layout() {
    assert_eq!(
        ops(BootMode::Shell, b"exe"),
        vec![
            (true, "startup.nsh".to_string(), startup_script()),
            (true, "BootX64.efi".to_string(), b"exe".to_vec()),
        ]
    );
    assert_eq!(boot_entry(BootMode::Shell), "BootX64.efi");
}

#[test]
fn startup_script_runs_the_executable() {
    assert_eq!(startup_script(), b"fs0:\r\nBOOTX64.EFI\r\n".to_vec());
}

#[test]
fn injecting_twice_plans_the_same_writes() {
    assert_eq!(ops(BootMode::Bootloader, b"abc"), ops(BootMode::Bootloader, b"abc"));
}
