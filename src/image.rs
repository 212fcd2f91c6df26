use vstd::prelude::*;

verus! {

/// Bytes in a megabyte, the unit of the image size and of one zero block.
pub const MIB: u64 = 1048576;

/// Why the image could not be built.
#[derive(Clone, Copy, Debug, PartialEq, Eq, Structural)]
pub enum ImageError {
    /// The requested size does not fit in a 64-bit byte count.
    TooLarge,
    /// A zero block could not be written: not enough free space.
    ResourceExhaustion,
    /// The volume could not be formatted or mounted.
    FormatFailure,
}

/// The byte length of an image of `size_mb` megabytes.
pub open spec fn image_len_spec(size_mb: nat) -> nat {
    size_mb * (MIB as nat)
}

/// The byte length of an image of `size_mb` megabytes, if it fits in a `u64`.
pub fn image_len(size_mb: u64) -> (r: Option<u64>)
    ensures
        image_len_spec(size_mb as nat) <= u64::MAX ==> r == Some(image_len_spec(size_mb as nat) as u64),
        image_len_spec(size_mb as nat) > u64::MAX ==> r is None,
{
    size_mb.checked_mul(MIB)
}

/// The volume label: `BOOT` followed by seven zero bytes.
pub open spec fn boot_label() -> Seq<u8> {
    seq![0x42u8, 0x4Fu8, 0x4Fu8, 0x54u8, 0u8, 0u8, 0u8, 0u8, 0u8, 0u8, 0u8]
}

/// The label that the image's FAT32 volume is formatted with.
pub fn volume_label() -> (r: [u8; 11])
    ensures
        r@ == boot_label(),
{
    let r: [u8; 11] = [0x42, 0x4F, 0x4F, 0x54, 0, 0, 0, 0, 0, 0, 0];
    assert(r@ =~= boot_label());
    r
}

/// What the caller does next while allocating the backing file.
#[derive(Clone, Copy, Debug, PartialEq, Eq, Structural)]
pub enum AllocStep {
    /// Append one zero block of `MIB` bytes.
    WriteBlock,
    /// The file is allocated; this is its length in bytes.
    Done(u64),
    /// Allocation failed; the image cannot be built.
    Fail(ImageError),
}

/// The state of an allocation in plain values.
pub struct AllocView {
    pub blocks: nat,
    pub written: nat,
    pub failed: bool,
}

pub open spec fn alloc_start(size_mb: nat) -> AllocView {
    AllocView { blocks: size_mb, written: 0, failed: false }
}

pub open spec fn alloc_pending(v: AllocView) -> AllocStep {
    if v.failed {
        AllocStep::Fail(ImageError::ResourceExhaustion)
    } else if v.written < v.blocks {
        AllocStep::WriteBlock
    } else {
        AllocStep::Done(image_len_spec(v.blocks) as u64)
    }
}

/// The state after a block write that succeeded (`ok`) or not.
pub open spec fn alloc_after(v: AllocView, ok: bool) -> AllocView {
    if v.failed || v.written >= v.blocks {
        v
    } else if ok {
        AllocView { written: v.written + 1, ..v }
    } else {
        AllocView { failed: true, ..v }
    }
}

/// The state after a run of block writes.
pub open spec fn alloc_run(v: AllocView, writes: Seq<bool>) -> AllocView
    decreases writes.len(),
{
    if writes.len() == 0 {
        v
    } else {
        alloc_run(alloc_after(v, writes[0]), writes.drop_first())
    }
}

/// The allocation of an image's backing file: one zero block per megabyte is
/// written, so that the space is really taken on disk before formatting.
pub struct Allocation {
    blocks: u64,
    written: u64,
    failed: bool,
}

impl View for Allocation {
    type V = AllocView;

    closed spec fn view(&self) -> AllocView {
        AllocView { blocks: self.blocks as nat, written: self.written as nat, failed: self.failed }
    }
}

impl Allocation {
    pub closed spec fn wf(&self) -> bool {
        self.written <= self.blocks && image_len_spec(self.blocks as nat) <= u64::MAX
    }

    /// Starts allocating an image of `size_mb` megabytes; fails when its byte
    /// length does not fit in a `u64`.
    pub fn new(size_mb: u64) -> (r: Result<Allocation, ImageError>)
        ensures
            image_len_spec(size_mb as nat) <= u64::MAX ==> (r matches Ok(a) && a.wf() && a@ == alloc_start(size_mb as nat)),
            image_len_spec(size_mb as nat) > u64::MAX ==> r == Err::<Allocation, ImageError>(ImageError::TooLarge),
    {
        match size_mb.checked_mul(MIB) {
            Some(_) => Ok(Allocation { blocks: size_mb, written: 0, failed: false }),
            None => Err(ImageError::TooLarge),
        }
    }

    /// The step that the allocation calls for.
    pub fn step(&self) -> (r: AllocStep)
        requires
            self.wf(),
        ensures
            r == alloc_pending(self@),
    {
        if self.failed {
            AllocStep::Fail(ImageError::ResourceExhaustion)
        } else if self.written < self.blocks {
            AllocStep::WriteBlock
        } else {
            AllocStep::Done(self.blocks * MIB)
        }
    }

    /// Records whether the last block write succeeded and returns the next step.
    pub fn on_write(&mut self, ok: bool) -> (r: AllocStep)
        requires
            old(self).wf(),
        ensures
            final(self).wf(),
            final(self)@ == alloc_after(old(self)@, ok),
            r == alloc_pending(final(self)@),
    {
        if !self.failed && self.written < self.blocks {
            if ok {
                self.written = self.written + 1;
            } else {
                self.failed = true;
            }
        }
        self.step()
    }
}

proof fn lemma_alloc_run(v: AllocView, writes: Seq<bool>)
    requires
        !v.failed,
        v.written <= v.blocks,
        writes.len() == v.blocks - v.written,
    ensures
        (forall|i: int| 0 <= i < writes.len() ==> #[trigger] writes[i]) ==> alloc_run(v, writes)
            == (AllocView { written: v.blocks, ..v }),
        (exists|i: int| 0 <= i < writes.len() && !#[trigger] writes[i]) ==> alloc_run(v, writes).failed,
    decreases writes.len(),
{
    if writes.len() > 0 {
        let v1 = alloc_after(v, writes[0]);
        let w1 = writes.drop_first();
        if writes[0] {
            lemma_alloc_run(v1, w1);
            if exists|i: int| 0 <= i < writes.len() && !#[trigger] writes[i] {
                let i = choose|i: int| 0 <= i < writes.len() && !#[trigger] writes[i];
                assert(!w1[i - 1]);
            }
            if forall|i: int| 0 <= i < writes.len() ==> #[trigger] writes[i] {
                assert forall|i: int| 0 <= i < w1.len() implies #[trigger] w1[i] by {
                    assert(writes[i + 1]);
                }
            }
        } else {
            lemma_alloc_run_failed(v1, w1);
        }
    }
}

proof fn lemma_alloc_run_failed(v: AllocView, writes: Seq<bool>)
    requires
        v.failed,
    ensures
        alloc_run(v, writes) == v,
    decreases writes.len(),
{
    if writes.len() > 0 {
        lemma_alloc_run_failed(alloc_after(v, writes[0]), writes.drop_first());
    }
}

/// An image of `size_mb` megabytes whose block writes all succeed is done after
/// exactly `size_mb` blocks with a length of `size_mb * MIB` bytes; if any of
/// those writes fails, the allocation fails with `ResourceExhaustion`.
pub proof fn lemma_size_exact(size_mb: nat, writes: Seq<bool>)
    requires
        image_len_spec(size_mb) <= u64::MAX,
        writes.len() == size_mb,
    ensures
        (forall|i: int| 0 <= i < writes.len() ==> #[trigger] writes[i]) ==> alloc_pending(
            alloc_run(alloc_start(size_mb), writes),
        ) == AllocStep::Done(image_len_spec(size_mb) as u64),
        (exists|i: int| 0 <= i < writes.len() && !#[trigger] writes[i]) ==> alloc_pending(
            alloc_run(alloc_start(size_mb), writes),
        ) == AllocStep::Fail(ImageError::ResourceExhaustion),
{
    lemma_alloc_run(alloc_start(size_mb), writes);
}

} // verus!
