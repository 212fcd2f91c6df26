use uefi_run::{
    is_reserved_name, mirror_action, plan_sync, sync_action, HostEntryKind, HostKind, ImageEntry,
    ImageKind, MirrorAction, SyncAction,
};

fn entry(name: &str, kind: ImageKind) -> ImageEntry {
    ImageEntry { name: name.to_string(), kind }
}

#[test]
fn reserved_names_are_recognised() {
    for n in [".", "..", "NvVars", "BootX64.efi", "startup.nsh"] {
        assert!(is_reserved_name(n), "{}", n);
    }
    for n in ["", "nvvars", "BOOTX64.EFI", "startup.nsh.bak", "a.txt", "..."] {
        assert!(!is_reserved_name(n), "{}", n);
    }
}

#[test]
fn reserved_entries_are_never_written() {
    let hosts = [HostKind::Missing, HostKind::Dir, HostKind::File, HostKind::Symlink, HostKind::Other];
    for n in ["NvVars", "BootX64.efi", "startup.nsh", ".", ".."] {
        for k in [ImageKind::Dir, ImageKind::File] {
            for h in hosts {
                assert_eq!(sync_action(n, k, h), SyncAction::SkipReserved);
            }
        }
    }
}

#[test]
fn sync_actions_by_host_state() {
    assert_eq!(sync_action("d", ImageKind::Dir, HostKind::Missing), SyncAction::CreateDir);
    assert_eq!(sync_action("d", ImageKind::Dir, HostKind::Dir), SyncAction::Descend);
    assert_eq!(sync_action("d", ImageKind::Dir, HostKind::File), SyncAction::Conflict);
    assert_eq!(sync_action("d", ImageKind::Dir, HostKind::Symlink), SyncAction::Conflict);
    assert_eq!(sync_action("d", ImageKind::Dir, HostKind::Other), SyncAction::Conflict);
    assert_eq!(sync_action("f", ImageKind::File, HostKind::Missing), SyncAction::WriteFile);
    assert_eq!(sync_action("f", ImageKind::File, HostKind::File), SyncAction::WriteFile);
    assert_eq!(sync_action("f", ImageKind::File, HostKind::Symlink), SyncAction::SkipSymlink);
    assert_eq!(sync_action("f", ImageKind::File, HostKind::Dir), SyncAction::Conflict);
    assert_eq!(sync_action("f", ImageKind::File, HostKind::Other), SyncAction::Conflict);
}

#[test]
fn conflict_ends_the_plan() {
    let entries = vec![
        entry("a.txt", ImageKind::File),
        entry("sub", ImageKind::Dir),
        entry("z.txt", ImageKind::File),
    ];
    let host = vec![HostKind::Missing, HostKind::File, HostKind::Missing];
    assert_eq!(plan_sync(&entries, &host), vec![SyncAction::WriteFile, SyncAction::Conflict]);
}

#[test]
fn symlink_is_skipped_and_siblings_go_on() {
    let entries = vec![
        entry("link", ImageKind::File),
        entry("b.txt", ImageKind::File),
        entry("c", ImageKind::Dir),
    ];
    let host = vec![HostKind::Symlink, HostKind::File, HostKind::Missing];
    assert_eq!(
        plan_sync(&entries, &host),
        vec![SyncAction::SkipSymlink, SyncAction::WriteFile, SyncAction::CreateDir]
    );
}

#[test]
fn empty_directory_plans_nothing() {
    assert_eq!(plan_sync(&Vec::new(), &Vec::new()), Vec::<SyncAction>::new());
}

#[test]
fn example_tree_round_trip_plan() {
    // a.txt and sub/ into an empty host directory, then sub/b.txt into the new sub/.
    let top = vec![
        entry("a.txt", ImageKind::File),
        entry("sub", ImageKind::Dir),
        entry("NvVars", ImageKind::File),
    ];
    let empty = vec![HostKind::Missing, HostKind::Missing, HostKind::Missing];
    assert_eq!(
        plan_sync(&top, &empty),
        vec![SyncAction::WriteFile, SyncAction::CreateDir, SyncAction::SkipReserved]
    );
    let inner = vec![entry("b.txt", ImageKind::File)];
    assert_eq!(plan_sync(&inner, &vec![HostKind::Missing]), vec![SyncAction::WriteFile]);
    // Back into the directory the tree came from.
    let same = vec![HostKind::File, HostKind::Dir, HostKind::Missing];
    assert_eq!(
        plan_sync(&top, &same),
        vec![SyncAction::WriteFile, SyncAction::Descend, SyncAction::SkipReserved]
    );
}

#[test]
fn mirror_actions_by_entry_kind() {
    assert_eq!(mirror_action(HostEntryKind::Dir), MirrorAction::EnsureDir);
    assert_eq!(mirror_action(HostEntryKind::File), MirrorAction::CopyFile);
    assert_eq!(mirror_action(HostEntryKind::Symlink), MirrorAction::CopyTarget);
    assert_eq!(mirror_action(HostEntryKind::Other), MirrorAction::Ignore);
}
