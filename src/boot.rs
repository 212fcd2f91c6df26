use vstd::prelude::*;

verus! {

/// How the image boots the executable.
#[derive(Clone, Copy, Debug, PartialEq, Eq, Structural)]
pub enum BootMode {
    /// The executable is the default boot entry `/EFI/Boot/BootX64.efi`.
    Bootloader,
    /// The UEFI shell runs `/startup.nsh`, which starts `/BootX64.efi`.
    Shell,
}

/// One write into the image; a path is `/`-separated and relative to the root.
#[derive(Debug)]
pub enum BootOp {
    /// Create the directory unless something of that name is there.
    EnsureDir(String),
    /// Create the file or overwrite it, leaving exactly these bytes.
    WriteFile(String, Vec<u8>),
}

/// A node of the image in the model: a directory or a file's bytes.
pub enum Node {
    Dir,
    File(Seq<u8>),
}

/// The image as a map from path to node.
pub type ImageModel = Map<Seq<char>, Node>;

pub open spec fn apply_op(img: ImageModel, op: BootOp) -> ImageModel {
    match op {
        BootOp::EnsureDir(p) => if img.contains_key(p@) {
            img
        } else {
            img.insert(p@, Node::Dir)
        },
        BootOp::WriteFile(p, d) => img.insert(p@, Node::File(d@)),
    }
}

pub open spec fn apply_ops(img: ImageModel, ops: Seq<BootOp>) -> ImageModel
    decreases ops.len(),
{
    if ops.len() == 0 {
        img
    } else {
        apply_ops(apply_op(img, ops[0]), ops.drop_first())
    }
}

/// The startup script: select the first file system and run `BOOTX64.EFI`.
pub open spec fn startup_script_spec() -> Seq<u8> {
    seq![
        0x66u8, 0x73u8, 0x30u8, 0x3Au8, 0x0Du8, 0x0Au8,
        0x42u8, 0x4Fu8, 0x4Fu8, 0x54u8, 0x58u8, 0x36u8, 0x34u8, 0x2Eu8, 0x45u8, 0x46u8, 0x49u8, 0x0Du8, 0x0Au8,
    ]
}

/// The bytes of the startup script that shell mode puts at `/startup.nsh`.
pub fn startup_script() -> (r: Vec<u8>)
    ensures
        r@ == startup_script_spec(),
{
    let r: Vec<u8> = vec![
        0x66, 0x73, 0x30, 0x3A, 0x0D, 0x0A,
        0x42, 0x4F, 0x4F, 0x54, 0x58, 0x36, 0x34, 0x2E, 0x45, 0x46, 0x49, 0x0D, 0x0A,
    ];
    assert(r@ =~= startup_script_spec());
    r
}

/// The path at which the executable is booted in each mode.
pub open spec fn boot_entry_spec(mode: BootMode) -> Seq<char> {
    match mode {
        BootMode::Bootloader => "EFI/Boot/BootX64.efi"@,
        BootMode::Shell => "BootX64.efi"@,
    }
}

/// The writes that put the executable `exe` into the image, in order.
pub open spec fn boot_plan_spec(mode: BootMode, exe: Seq<u8>) -> Seq<(Option<Seq<char>>, Seq<char>, Seq<u8>)> {
    match mode {
        BootMode::Bootloader => seq![
            (None, "EFI"@, Seq::empty()),
            (None, "EFI/Boot"@, Seq::empty()),
            (Some("EFI/Boot/BootX64.efi"@), "EFI/Boot/BootX64.efi"@, exe),
        ],
        BootMode::Shell => seq![
            (Some("startup.nsh"@), "startup.nsh"@, startup_script_spec()),
            (Some("BootX64.efi"@), "BootX64.efi"@, exe),
        ],
    }
}

/// A write as (`Some` for a file, `None` for a directory; path; bytes).
pub open spec fn op_view(op: BootOp) -> (Option<Seq<char>>, Seq<char>, Seq<u8>) {
    match op {
        BootOp::EnsureDir(p) => (None, p@, Seq::empty()),
        BootOp::WriteFile(p, d) => (Some(p@), p@, d@),
    }
}

/// The path at which `mode` boots the executable.
pub fn boot_entry(mode: BootMode) -> (r: String)
    ensures
        r@ == boot_entry_spec(mode),
{
    match mode {
        BootMode::Bootloader => "EFI/Boot/BootX64.efi".to_owned(),
        BootMode::Shell => "BootX64.efi".to_owned(),
    }
}

/// The writes that inject the executable `exe` for `mode`. Bootloader mode
/// ensures `/EFI` and `/EFI/Boot` and writes the executable to
/// `/EFI/Boot/BootX64.efi`; shell mode writes the startup script to
/// `/startup.nsh` and the executable to `/BootX64.efi`.
pub fn boot_plan(mode: BootMode, exe: Vec<u8>) -> (r: Vec<BootOp>)
    ensures
        r@.map_values(|op: BootOp| op_view(op)) == boot_plan_spec(mode, exe@),
{
    let mut r: Vec<BootOp> = Vec::new();
    match mode {
        BootMode::Bootloader => {
            r.push(BootOp::EnsureDir("EFI".to_owned()));
            r.push(BootOp::EnsureDir("EFI/Boot".to_owned()));
            r.push(BootOp::WriteFile("EFI/Boot/BootX64.efi".to_owned(), exe));
        },
        BootMode::Shell => {
            r.push(BootOp::WriteFile("startup.nsh".to_owned(), startup_script()));
            r.push(BootOp::WriteFile("BootX64.efi".to_owned(), exe));
        },
    }
    assert(r@.map_values(|op: BootOp| op_view(op)) =~= boot_plan_spec(mode, exe@));
    r
}

proof fn lemma_apply_two(img: ImageModel, ops: Seq<BootOp>)
    requires
        ops.len() == 2,
    ensures
        apply_ops(img, ops) == apply_op(apply_op(img, ops[0]), ops[1]),
{
    let i1 = apply_op(img, ops[0]);
    let t1 = ops.drop_first();
    let i2 = apply_op(i1, t1[0]);
    assert(t1[0] == ops[1]);
    assert(t1.drop_first().len() == 0);
    assert(apply_ops(i2, t1.drop_first()) == i2);
    assert(apply_ops(i1, t1) == apply_ops(i2, t1.drop_first()));
}

proof fn lemma_apply_three(img: ImageModel, ops: Seq<BootOp>)
    requires
        ops.len() == 3,
    ensures
        apply_ops(img, ops) == apply_op(apply_op(apply_op(img, ops[0]), ops[1]), ops[2]),
{
    lemma_apply_two(apply_op(img, ops[0]), ops.drop_first());
    assert(ops.drop_first()[0] == ops[1]);
    assert(ops.drop_first()[1] == ops[2]);
}

/// Injecting the same executable twice leaves the image as injecting it once,
/// and either way the boot entry holds exactly the executable's bytes.
pub proof fn lemma_inject_idempotent(img: ImageModel, mode: BootMode, exe: Seq<u8>, ops: Seq<BootOp>)
    requires
        ops.map_values(|op: BootOp| op_view(op)) == boot_plan_spec(mode, exe),
    ensures
        apply_ops(apply_ops(img, ops), ops) == apply_ops(img, ops),
        apply_ops(img, ops).contains_key(boot_entry_spec(mode)),
        apply_ops(img, ops)[boot_entry_spec(mode)] == Node::File(exe),
{
    let v = ops.map_values(|op: BootOp| op_view(op));
    assert(ops.len() == v.len());
    let once = apply_ops(img, ops);
    match mode {
        BootMode::Bootloader => {
            assert(op_view(ops[0]) == v[0]);
            assert(op_view(ops[1]) == v[1]);
            assert(op_view(ops[2]) == v[2]);
            lemma_apply_three(img, ops);
            lemma_apply_three(once, ops);
            assert(apply_ops(once, ops) =~= once);
        },
        BootMode::Shell => {
            assert(op_view(ops[0]) == v[0]);
            assert(op_view(ops[1]) == v[1]);
            lemma_apply_two(img, ops);
            lemma_apply_two(once, ops);
            assert(apply_ops(once, ops) =~= once);
        },
    }
}

} // verus!
