use vstd::prelude::*;

verus! {

/// The names that the backward sync never creates, changes or deletes on the host.
pub open spec fn reserved(name: Seq<char>) -> bool {
    name == "."@ || name == ".."@ || name == "NvVars"@ || name == "BootX64.efi"@ || name
        == "startup.nsh"@
}

/// Whether `name` is one of the reserved names.
pub fn is_reserved_name(name: &str) -> (r: bool)
    ensures
        r == reserved(name@),
{
    let n = name.to_owned();
    n == ".".to_owned() || n == "..".to_owned() || n == "NvVars".to_owned() || n
        == "BootX64.efi".to_owned() || n == "startup.nsh".to_owned()
}

/// The kind of an entry inside the image.
#[derive(Clone, Copy, Debug, PartialEq, Eq, Structural)]
pub enum ImageKind {
    Dir,
    File,
}

/// What stands on the host at a path, looked at without following a symlink.
#[derive(Clone, Copy, Debug, PartialEq, Eq, Structural)]
pub enum HostKind {
    Missing,
    Dir,
    File,
    Symlink,
    Other,
}

/// What the backward sync does with one image entry.
#[derive(Clone, Copy, Debug, PartialEq, Eq, Structural)]
pub enum SyncAction {
    /// The name is reserved: the host is not touched.
    SkipReserved,
    /// Create the directory on the host, then sync into it.
    CreateDir,
    /// The directory exists on the host: sync into it.
    Descend,
    /// The host path is a symlink: nothing is written through it.
    SkipSymlink,
    /// Open or create the host file and overwrite it with the image file's bytes.
    WriteFile,
    /// The host path has the wrong type: the whole sync stops here.
    Conflict,
}

impl SyncAction {
    /// Whether the action changes the host.
    pub open spec fn writes(self) -> bool {
        self is CreateDir || self is WriteFile
    }
}

/// One entry of an image directory.
#[derive(Debug)]
pub struct ImageEntry {
    pub name: String,
    pub kind: ImageKind,
}

/// The decision for one image entry, given what the host holds at its path.
pub open spec fn sync_decision(name: Seq<char>, image: ImageKind, host: HostKind) -> SyncAction {
    if reserved(name) {
        SyncAction::SkipReserved
    } else {
        match image {
            ImageKind::Dir => match host {
                HostKind::Missing => SyncAction::CreateDir,
                HostKind::Dir => SyncAction::Descend,
                _ => SyncAction::Conflict,
            },
            ImageKind::File => match host {
                HostKind::Missing => SyncAction::WriteFile,
                HostKind::File => SyncAction::WriteFile,
                HostKind::Symlink => SyncAction::SkipSymlink,
                _ => SyncAction::Conflict,
            },
        }
    }
}

/// Decides what the backward sync does with the image entry `name` of kind
/// `image` when the host holds `host` at the same path.
pub fn sync_action(name: &str, image: ImageKind, host: HostKind) -> (r: SyncAction)
    ensures
        r == sync_decision(name@, image, host),
{
    if is_reserved_name(name) {
        return SyncAction::SkipReserved;
    }
    match image {
        ImageKind::Dir => match host {
            HostKind::Missing => SyncAction::CreateDir,
            HostKind::Dir => SyncAction::Descend,
            _ => SyncAction::Conflict,
        },
        ImageKind::File => match host {
            HostKind::Missing => SyncAction::WriteFile,
            HostKind::File => SyncAction::WriteFile,
            HostKind::Symlink => SyncAction::SkipSymlink,
            _ => SyncAction::Conflict,
        },
    }
}

/// The plan for one directory: the decision for each entry in order, up to and
/// including the first conflict.
pub open spec fn sync_plan_spec(entries: Seq<ImageEntry>, host: Seq<HostKind>) -> Seq<SyncAction>
    decreases entries.len(),
{
    if entries.len() == 0 {
        Seq::empty()
    } else {
        let a = sync_decision(entries[0].name@, entries[0].kind, host[0]);
        if a is Conflict {
            seq![a]
        } else {
            seq![a] + sync_plan_spec(entries.drop_first(), host.drop_first())
        }
    }
}

/// Plans the backward sync of one image directory. `host[i]` is what the host
/// holds at the path of `entries[i]`. The actions are carried out in order;
/// the plan ends early, with `Conflict`, at the first entry whose host path
/// has the wrong type.
pub fn plan_sync(entries: &Vec<ImageEntry>, host: &Vec<HostKind>) -> (plan: Vec<SyncAction>)
    requires
        entries.len() == host.len(),
    ensures
        plan@ == sync_plan_spec(entries@, host@),
        plan.len() <= entries.len(),
        forall|i: int|
            0 <= i < plan.len() ==> plan[i] == sync_decision(
                #[trigger] entries[i].name@,
                entries[i].kind,
                host[i],
            ),
        forall|i: int| 0 <= i < plan.len() - 1 ==> !(#[trigger] plan[i] is Conflict),
        plan.len() < entries.len() ==> plan[plan.len() - 1] is Conflict,
{
    let mut plan: Vec<SyncAction> = Vec::new();
    let mut i: usize = 0;
    proof {
        assert(entries@.skip(0) =~= entries@);
        assert(host@.skip(0) =~= host@);
        assert(plan@ + sync_plan_spec(entries@, host@) =~= sync_plan_spec(entries@, host@));
    }
    while i < entries.len()
        invariant
            entries.len() == host.len(),
            i <= entries.len(),
            plan.len() == i,
            forall|j: int|
                0 <= j < i ==> plan[j] == sync_decision(
                    #[trigger] entries[j].name@,
                    entries[j].kind,
                    host[j],
                ),
            forall|j: int| 0 <= j < i ==> !(#[trigger] plan[j] is Conflict),
            sync_plan_spec(entries@, host@) == plan@ + sync_plan_spec(
                entries@.skip(i as int),
                host@.skip(i as int),
            ),
        decreases entries.len() - i,
    {
        let a = sync_action(entries[i].name.as_str(), entries[i].kind, host[i]);
        proof {
            let es = entries@.skip(i as int);
            let hs = host@.skip(i as int);
            assert(es[0] == entries[i as int]);
            assert(hs[0] == host[i as int]);
            assert(es.drop_first() =~= entries@.skip(i + 1));
            assert(hs.drop_first() =~= host@.skip(i + 1));
        }
        plan.push(a);
        if matches!(a, SyncAction::Conflict) {
            proof {
                assert(sync_plan_spec(entries@, host@) =~= plan@);
            }
            return plan;
        }
        i = i + 1;
        proof {
            assert(sync_plan_spec(entries@, host@) =~= plan@ + sync_plan_spec(
                entries@.skip(i as int),
                host@.skip(i as int),
            ));
        }
    }
    proof {
        assert(entries@.skip(i as int).len() == 0);
        assert(plan@ + sync_plan_spec(entries@.skip(i as int), host@.skip(i as int)) =~= plan@);
    }
    plan
}

/// Each action of the plan is the decision for the entry at its index; no
/// action but the last is a conflict; a plan shorter than the listing ends in
/// a conflict.
pub proof fn lemma_plan_shape(entries: Seq<ImageEntry>, host: Seq<HostKind>)
    requires
        entries.len() == host.len(),
    ensures
        sync_plan_spec(entries, host).len() <= entries.len(),
        forall|i: int|
            0 <= i < sync_plan_spec(entries, host).len() ==> #[trigger] sync_plan_spec(
                entries,
                host,
            )[i] == sync_decision(entries[i].name@, entries[i].kind, host[i]),
        forall|i: int|
            0 <= i < sync_plan_spec(entries, host).len() - 1 ==> !(#[trigger] sync_plan_spec(
                entries,
                host,
            )[i] is Conflict),
        sync_plan_spec(entries, host).len() < entries.len() ==> sync_plan_spec(entries, host)[
        sync_plan_spec(entries, host).len() - 1] is Conflict,
    decreases entries.len(),
{
    if entries.len() > 0 {
        let a = sync_decision(entries[0].name@, entries[0].kind, host[0]);
        let es = entries.drop_first();
        let hs = host.drop_first();
        lemma_plan_shape(es, hs);
        if !(a is Conflict) {
            let p = sync_plan_spec(entries, host);
            let q = sync_plan_spec(es, hs);
            assert(p == seq![a] + q);
            assert forall|i: int| 0 < i < p.len() implies p[i] == q[i - 1] by {}
            assert forall|i: int| 0 < i < p.len() implies p[i] == sync_decision(
                entries[i].name@,
                entries[i].kind,
                host[i],
            ) by {
                assert(q[i - 1] == sync_decision(es[i - 1].name@, es[i - 1].kind, hs[i - 1]));
            }
        }
    }
}

/// An entry with a reserved name is never written to the host: whatever the
/// image and the host hold, its action is to skip it.
pub proof fn lemma_reserved_untouched(entries: Seq<ImageEntry>, host: Seq<HostKind>, i: int)
    requires
        entries.len() == host.len(),
        0 <= i < sync_plan_spec(entries, host).len(),
        reserved(entries[i].name@),
    ensures
        sync_plan_spec(entries, host)[i] is SkipReserved,
        !sync_plan_spec(entries, host)[i].writes(),
{
    lemma_plan_shape(entries, host);
}

/// When the host holds a non-directory where the image has a directory, the
/// sync stops at that entry: no later sibling gets an action.
pub proof fn lemma_conflict_stops(entries: Seq<ImageEntry>, host: Seq<HostKind>, i: int)
    requires
        entries.len() == host.len(),
        0 <= i < entries.len(),
        !reserved(entries[i].name@),
        entries[i].kind is Dir,
        host[i] is File || host[i] is Symlink || host[i] is Other,
    ensures
        sync_plan_spec(entries, host).len() <= i + 1,
        sync_plan_spec(entries, host).len() == i + 1 ==> sync_plan_spec(entries, host)[i] is Conflict,
{
    lemma_plan_shape(entries, host);
    let p = sync_plan_spec(entries, host);
    if p.len() > i + 1 {
        assert(p[i] == sync_decision(entries[i].name@, entries[i].kind, host[i]));
        assert(p[i] is Conflict);
    }
}

/// A file whose host path is a symlink is skipped, and the entries after it are
/// still planned: the plan stops only at a conflict.
pub proof fn lemma_symlink_skipped(entries: Seq<ImageEntry>, host: Seq<HostKind>, i: int)
    requires
        entries.len() == host.len(),
        0 <= i < entries.len(),
        !reserved(entries[i].name@),
        entries[i].kind is File,
        host[i] is Symlink,
        forall|j: int|
            0 <= j < entries.len() ==> !(sync_decision(
                #[trigger] entries[j].name@,
                entries[j].kind,
                host[j],
            ) is Conflict),
    ensures
        sync_plan_spec(entries, host).len() == entries.len(),
        sync_plan_spec(entries, host)[i] is SkipSymlink,
{
    lemma_plan_shape(entries, host);
    let p = sync_plan_spec(entries, host);
    if p.len() < entries.len() {
        let k = p.len() - 1;
        assert(p[k] == sync_decision(entries[k].name@, entries[k].kind, host[k]));
    }
}

/// The kind of a host directory entry, as the listing reports it (a symlink is
/// not followed).
#[derive(Clone, Copy, Debug, PartialEq, Eq, Structural)]
pub enum HostEntryKind {
    Dir,
    File,
    Symlink,
    Other,
}

/// What the forward mirror does with one host entry.
#[derive(Clone, Copy, Debug, PartialEq, Eq, Structural)]
pub enum MirrorAction {
    /// Create the directory in the image unless it is there, then mirror into it.
    EnsureDir,
    /// Read the file and create or overwrite the same-named image file with it.
    CopyFile,
    /// Resolve the symlink, read its target and create or overwrite the
    /// same-named image file with the target's bytes.
    CopyTarget,
    /// Neither a directory, a file nor a symlink: nothing is copied.
    Ignore,
}

pub open spec fn mirror_decision(kind: HostEntryKind) -> MirrorAction {
    match kind {
        HostEntryKind::Dir => MirrorAction::EnsureDir,
        HostEntryKind::File => MirrorAction::CopyFile,
        HostEntryKind::Symlink => MirrorAction::CopyTarget,
        HostEntryKind::Other => MirrorAction::Ignore,
    }
}

/// What the image holds under the entry's name after the action.
pub open spec fn mirrored_kind(a: MirrorAction) -> Option<ImageKind> {
    match a {
        MirrorAction::EnsureDir => Some(ImageKind::Dir),
        MirrorAction::CopyFile => Some(ImageKind::File),
        MirrorAction::CopyTarget => Some(ImageKind::File),
        MirrorAction::Ignore => None,
    }
}

/// Decides what the forward mirror does with a host entry of kind `kind`.
pub fn mirror_action(kind: HostEntryKind) -> (r: MirrorAction)
    ensures
        r == mirror_decision(kind),
{
    match kind {
        HostEntryKind::Dir => MirrorAction::EnsureDir,
        HostEntryKind::File => MirrorAction::CopyFile,
        HostEntryKind::Symlink => MirrorAction::CopyTarget,
        HostEntryKind::Other => MirrorAction::Ignore,
    }
}

/// A host directory or regular file with a name that is not reserved comes
/// back as the same kind of entry: the mirror puts an entry of the same kind
/// into the image, and syncing it into a host path that is missing creates the
/// directory or writes the file.
pub proof fn lemma_round_trip_entry(name: Seq<char>, kind: HostEntryKind)
    requires
        !reserved(name),
        kind is Dir || kind is File,
    ensures
        kind is Dir ==> mirrored_kind(mirror_decision(kind)) == Some(ImageKind::Dir)
            && sync_decision(name, ImageKind::Dir, HostKind::Missing) is CreateDir,
        kind is File ==> mirrored_kind(mirror_decision(kind)) == Some(ImageKind::File)
            && sync_decision(name, ImageKind::File, HostKind::Missing) is WriteFile,
{
}

/// Syncing a directory listing without reserved names into a host directory
/// where none of its paths exist plans every entry, and restores each one:
/// a directory is created, a file is written.
pub proof fn lemma_round_trip_listing(entries: Seq<ImageEntry>, host: Seq<HostKind>)
    requires
        entries.len() == host.len(),
        forall|i: int| 0 <= i < entries.len() ==> !reserved(#[trigger] entries[i].name@),
        forall|i: int| 0 <= i < host.len() ==> #[trigger] host[i] is Missing,
    ensures
        sync_plan_spec(entries, host).len() == entries.len(),
        forall|i: int|
            0 <= i < entries.len() ==> (#[trigger] entries[i].kind is Dir ==> sync_plan_spec(
                entries,
                host,
            )[i] is CreateDir) && (entries[i].kind is File ==> sync_plan_spec(entries, host)[i] is WriteFile),
{
    lemma_plan_shape(entries, host);
    let p = sync_plan_spec(entries, host);
    if p.len() < entries.len() {
        let k = p.len() - 1;
        assert(p[k] == sync_decision(entries[k].name@, entries[k].kind, host[k]));
        assert(!reserved(entries[k].name@));
        assert(host[k] is Missing);
    }
    assert forall|i: int| 0 <= i < entries.len() implies (#[trigger] entries[i].kind is Dir
        ==> p[i] is CreateDir) && (entries[i].kind is File ==> p[i] is WriteFile) by {
        assert(p[i] == sync_decision(entries[i].name@, entries[i].kind, host[i]));
        assert(!reserved(entries[i].name@));
        assert(host[i] is Missing);
    }
}

} // verus!
