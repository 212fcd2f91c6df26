//! Building a bootable FAT image for a UEFI executable, mirroring a host
//! directory into it, supervising the emulator and syncing the guest's writes
//! back to the host.
//!
//! The library holds the decisions: which entries are copied in which
//! direction, what the boot layout is, how the image file is allocated and how
//! the emulator process is watched, cancelled and killed. The caller performs
//! the file system and process operations that those decisions name.

pub mod sync;

pub use sync::{
    is_reserved_name, mirror_action, plan_sync, sync_action, HostEntryKind, HostKind, ImageEntry,
    ImageKind, MirrorAction, SyncAction,
};

pub mod supervise;

pub use supervise::{Fault, KillOutcome, Phase, Step, Supervisor, GRACE_MS, POLL_INTERVAL_MS, POST_KILL_MS};

pub mod image;

pub use image::{image_len, volume_label, AllocStep, Allocation, ImageError, MIB};

pub mod boot;

pub use boot::{boot_entry, boot_plan, startup_script, BootMode, BootOp};

pub mod args;

pub use args::{parse_add_file, AddFileError, Args};
