//! The commands the host queues: lock a door, unlock it, save an entity.
//!
//! Locking folds a directory into one encrypted archive file; unlocking
//! unfolds it again. Both are long jobs that run beside the engine and hand
//! back the commands to apply once they are done. What touches the disk is
//! the host's part; here stands what each job computes and decides.
use vstd::prelude::*;
use crate::archive::{
    key_digest, open, seal, spec_key_digest, spec_open_failure, spec_opened, spec_seal_failure,
    spec_sealed, ArchiveError, KEY_LEN,
};
use crate::paths::{
    file_name, file_stem_no_extensions, join, parent, spec_file_name,
    spec_file_stem_no_extensions, spec_join, spec_parent,
};
use crate::payload::components::Relationships;
use crate::payload::{spec_bare_payload, DirworldEntityPayload, PayloadView};
use crate::resources::{DirworldCodecs, DirworldTasks, TaskState};
use crate::text::concat_text;
use crate::utils::{
    entry_codec, extract_entity_payload, spec_entry_codec, spec_extract, CodecError, EntryRead,
};

verus! {

/// A command of the host, to be applied by the engine.
#[derive(Debug)]
pub enum DirworldCommand {
    /// Lock the directory at `path` under `key`.
    LockDoor { path: String, key: Vec<u8> },
    /// Unlock the archive at `path` under `key`.
    UnlockDoor { path: String, key: Vec<u8> },
    /// Write `payload` to the entry at `path`.
    SaveEntity { path: String, payload: DirworldEntityPayload },
}

/// Commands waiting to be applied, oldest first.
#[derive(Debug)]
pub struct CommandQueue(pub Vec<DirworldCommand>);

impl View for CommandQueue {
    type V = Seq<DirworldCommand>;

    open spec fn view(&self) -> Seq<DirworldCommand> {
        self.0@
    }
}

impl CommandQueue {
    /// An empty queue.
    pub fn new() -> (queue: CommandQueue)
        ensures
            queue@.len() == 0,
    {
        CommandQueue(Vec::new())
    }
}

/// Commands for locking, unlocking and saving.
pub trait DirworldCommands {
    /// Lock Door
    fn dirworld_lock_door(&mut self, path: String, key: Vec<u8>);

    /// Unlock Door
    fn dirworld_unlock_door(&mut self, path: String, key: Vec<u8>);

    /// Save entity
    fn dirworld_save_entity(&mut self, path: String, payload: DirworldEntityPayload);
}

impl DirworldCommands for CommandQueue {
    fn dirworld_lock_door(&mut self, path: String, key: Vec<u8>)
        ensures
            final(self)@ == old(self)@.push(DirworldCommand::LockDoor { path, key }),
    {
        self.0.push(DirworldCommand::LockDoor { path, key });
    }

    fn dirworld_unlock_door(&mut self, path: String, key: Vec<u8>)
        ensures
            final(self)@ == old(self)@.push(DirworldCommand::UnlockDoor { path, key }),
    {
        self.0.push(DirworldCommand::UnlockDoor { path, key });
    }

    fn dirworld_save_entity(&mut self, path: String, payload: DirworldEntityPayload)
        ensures
            final(self)@ == old(self)@.push(DirworldCommand::SaveEntity { path, payload }),
    {
        self.0.push(DirworldCommand::SaveEntity { path, payload });
    }
}

/// The label under which a payload records the digest of the key that
/// locked its entry.
pub open spec fn spec_key_label() -> Seq<char> {
    "key"@
}

/// What is put behind the path of a directory to name its archive.
pub open spec fn spec_archive_suffix() -> Seq<char> {
    ".tar.xz.aes"@
}

/// The name of the marker file that holds a folder's payload.
pub open spec fn spec_marker_name() -> Seq<char> {
    ".door"@
}

/// The path of the archive that locking the directory at `path` makes.
pub open spec fn spec_archive_path(path: Seq<char>) -> Seq<char> {
    path + spec_archive_suffix()
}

/// The path of the marker file of the folder at `path`.
pub open spec fn spec_marker_path(path: Seq<char>) -> Seq<char> {
    spec_join(path, spec_marker_name())
}

/// The name by which a job on `path` is known: the name of the entry, or
/// the whole path where it leads to no entry.
pub open spec fn spec_job_subject(path: Seq<char>) -> Seq<char> {
    match spec_file_name(path) {
        Some(name) => name,
        None => path,
    }
}

/// The label of a job: what it does, then its subject in double quotes.
pub open spec fn spec_job_label(verb: Seq<char>, path: Seq<char>) -> Seq<char> {
    verb + seq![' ', '"'] + spec_job_subject(path) + seq!['"']
}

/// The label of the job that locks `path`.
pub open spec fn spec_lock_label(path: Seq<char>) -> Seq<char> {
    spec_job_label("Locking"@, path)
}

/// The label of the job that unlocks `path`.
pub open spec fn spec_unlock_label(path: Seq<char>) -> Seq<char> {
    spec_job_label("Unlocking"@, path)
}

/// Makes the label of a job from what it does and the path it works on.
fn job_label(verb: &str, path: &str) -> (label: String)
    ensures
        label@ == spec_job_label(verb@, path@),
{
    let subject = match file_name(path) {
        Some(name) => name,
        None => path.to_owned(),
    };
    let mut label = concat_text(verb, " \"");
    proof {
        reveal_strlit(" \"");
        reveal_strlit("\"");
        assert(" \""@ =~= seq![' ', '"']);
        assert("\""@ =~= seq!['"']);
    }
    label.append(subject.as_str());
    label.append("\"");
    label
}

/// The path of the archive that locking the directory at `path` makes.
pub fn archive_path(path: &str) -> (archive: String)
    ensures
        archive@ == spec_archive_path(path@),
{
    concat_text(path, ".tar.xz.aes")
}

/// The path of the marker file of the folder at `path`.
pub fn marker_path(path: &str) -> (marker: String)
    ensures
        marker@ == spec_marker_path(path@),
{
    join(path, ".door")
}

/// The relationships of a payload view, or none where it has none.
pub open spec fn spec_relationships(payload: PayloadView) -> Map<Seq<char>, u128> {
    match payload.relationships {
        Some(relationships) => relationships,
        None => Map::empty(),
    }
}

/// The payload of a locked entry: `payload` with `digest` recorded under
/// the key label.
pub open spec fn spec_locked_payload(payload: PayloadView, digest: u128) -> PayloadView {
    PayloadView {
        relationships: Some(spec_relationships(payload).insert(spec_key_label(), digest)),
        ..payload
    }
}

/// The payload of an unlocked entry: `payload` without what is recorded
/// under the key label.
pub open spec fn spec_unlocked_payload(payload: PayloadView) -> PayloadView {
    PayloadView {
        relationships: match payload.relationships {
            Some(relationships) => Some(relationships.remove(spec_key_label())),
            None => None,
        },
        ..payload
    }
}

/// Records `digest` in `payload` under the key label, in place of what was
/// recorded there. Where there is no payload yet, a new one is made, with a
/// randomly drawn identifier.
pub fn lock_payload(payload: Option<DirworldEntityPayload>, digest: u128) -> (locked:
    DirworldEntityPayload)
    requires
        payload.is_some() ==> payload.unwrap().wf(),
    ensures
        locked.wf(),
        locked@ == spec_locked_payload(
            match payload {
                Some(found) => found@,
                None => spec_bare_payload(locked.id),
            },
            digest,
        ),
{
    let mut locked = match payload {
        Some(found) => found,
        None => DirworldEntityPayload::new(),
    };
    let ghost before = locked@;
    let mut relationships = match locked.relationships {
        Some(found) => found,
        None => Relationships::new(),
    };
    let _ = relationships.insert("key".to_owned(), digest);
    locked.relationships = Some(relationships);
    proof {
        assert(locked@.relationships.unwrap() =~= spec_relationships(before).insert(
            spec_key_label(),
            digest,
        ));
    }
    locked
}

/// Takes what is recorded under the key label out of `payload`.
pub fn unlock_payload(payload: DirworldEntityPayload) -> (unlocked: DirworldEntityPayload)
    requires
        payload.wf(),
    ensures
        unlocked.wf(),
        unlocked@ == spec_unlocked_payload(payload@),
{
    let mut unlocked = payload;
    match unlocked.relationships {
        Some(found) => {
            let mut relationships = found;
            let _ = relationships.remove("key");
            unlocked.relationships = Some(relationships);
        },
        None => {
            unlocked.relationships = None;
        },
    }
    unlocked
}

/// Asks for the directory at `path` to be locked under `key`.
#[derive(Debug)]
pub struct DirworldLockDoorCommand {
    pub path: String,
    pub key: Vec<u8>,
}

/// A lock in progress: the label of the job in the ledger, the directory,
/// the key, and the payload the directory had when the lock was asked for.
#[derive(Debug)]
pub struct LockJob {
    pub label: String,
    pub path: String,
    pub key: Vec<u8>,
    pub payload: Option<DirworldEntityPayload>,
}

/// What a finished lock asks the host to do, in this order: write `archive`
/// to `archive_path`, remove the directory tree at `remove`, and hand
/// `commands` to the engine. The host says how each step on disk went, with
/// [`LockedDoor::written`] and [`WrittenDoor::removed`], and learns from
/// them whether to go on.
#[derive(Debug)]
pub struct LockedDoor {
    pub archive_path: String,
    pub archive: Vec<u8>,
    pub remove: String,
    pub commands: Vec<DirworldCommand>,
}

/// A lock whose archive stands on disk: the directory tree to remove, and
/// the commands to hand to the engine once it is gone.
#[derive(Debug)]
pub struct WrittenDoor {
    pub remove: String,
    pub commands: Vec<DirworldCommand>,
}

/// What is left to do of a lock once the host has tried to write the
/// archive: nothing where the write failed, so that the directory stays;
/// else to remove the directory.
pub open spec fn spec_written(door: LockedDoor, ok: bool) -> Option<WrittenDoor> {
    if ok {
        Some(WrittenDoor { remove: door.remove, commands: door.commands })
    } else {
        None
    }
}

/// What a lock hands to the engine once the host has tried to remove the
/// directory: its commands, and none where the removal failed.
pub open spec fn spec_lock_removed(door: WrittenDoor, ok: bool) -> Option<Vec<DirworldCommand>> {
    if ok {
        Some(door.commands)
    } else {
        None
    }
}

/// The directory that a lock asks to be removed, given how its computing
/// part ended and whether the archive could be written.
pub open spec fn spec_lock_removal(run: Result<LockedDoor, ArchiveError>, written: bool) -> Option<
    String,
> {
    match run {
        Ok(door) => match spec_written(door, written) {
            Some(next) => Some(next.remove),
            None => None,
        },
        Err(_) => None,
    }
}

/// The commands that a lock hands to the engine, given how its computing
/// part ended, whether the archive could be written and whether the
/// directory could be removed.
pub open spec fn spec_lock_yield(
    run: Result<LockedDoor, ArchiveError>,
    written: bool,
    removed: bool,
) -> Option<Vec<DirworldCommand>> {
    match run {
        Ok(door) => match spec_written(door, written) {
            Some(next) => spec_lock_removed(next, removed),
            None => None,
        },
        Err(_) => None,
    }
}

impl LockedDoor {
    /// Goes on once the host has tried to write the archive; `ok` says
    /// whether the whole archive is on disk. Only then is the directory to
    /// be removed.
    pub fn written(self, ok: bool) -> (next: Option<WrittenDoor>)
        ensures
            next == spec_written(self, ok),
    {
        if ok {
            Some(WrittenDoor { remove: self.remove, commands: self.commands })
        } else {
            None
        }
    }
}

impl WrittenDoor {
    /// Ends the lock once the host has tried to remove the directory; `ok`
    /// says whether it is gone. Only then are the commands handed on.
    pub fn removed(self, ok: bool) -> (yielded: Option<Vec<DirworldCommand>>)
        ensures
            yielded == spec_lock_removed(self, ok),
    {
        if ok {
            Some(self.commands)
        } else {
            None
        }
    }
}

impl DirworldLockDoorCommand {
    /// Starts the lock: keeps the payload the directory has now, before
    /// anything changes, and enters the job in the ledger under its label.
    /// `read` is what was read of the directory.
    pub fn apply(self, tasks: &mut DirworldTasks<DirworldCommand>, read: EntryRead) -> (job: LockJob)
        requires
            old(tasks).wf(),
            read.wf(),
        ensures
            final(tasks).wf(),
            final(tasks)@ == old(tasks)@.insert(spec_lock_label(self.path@), TaskState::Running),
            job.label@ == spec_lock_label(self.path@),
            job.path == self.path,
            job.key == self.key,
            job.payload == spec_extract(read).0,
            job.wf(),
    {
        let (payload, _) = extract_entity_payload(read);
        let label = job_label("Locking", self.path.as_str());
        tasks.insert(label.clone());
        LockJob { label, path: self.path, key: self.key, payload }
    }
}

impl LockJob {
    /// The invariant: the payload, if there is one, is well formed.
    pub open spec fn wf(&self) -> bool {
        match self.payload {
            Some(payload) => payload.wf(),
            None => true,
        }
    }

    /// Whether `door` is what locking gives for this job and the archive
    /// `tarred` of its directory.
    pub open spec fn spec_locked(&self, tarred: Seq<u8>, door: LockedDoor) -> bool {
        &&& door.archive_path@ == spec_archive_path(self.path@)
        &&& door.archive@ == spec_sealed(tarred, self.key@)
        &&& door.remove@ == self.path@
        &&& door.commands@.len() == 1
        &&& door.commands@[0] is SaveEntity
        &&& door.commands@[0]->SaveEntity_path@ == spec_archive_path(self.path@)
        &&& door.commands@[0]->SaveEntity_payload.wf()
        &&& door.commands@[0]->SaveEntity_payload@ == spec_locked_payload(
            match self.payload {
                Some(found) => found@,
                None => spec_bare_payload(door.commands@[0]->SaveEntity_payload.id),
            },
            spec_key_digest(self.key@),
        )
    }

    /// Does the computing part of the lock on `tarred`, the archive of the
    /// directory's content: seals it under the key, and prepares the command
    /// that saves the payload, with the digest of the key recorded in it,
    /// against the archive file.
    ///
    /// The job succeeds unless the key has fewer than sixteen bytes or the
    /// compressed archive, with a block of padding, would not fit in memory.
    /// A failed job hands back no command and asks for nothing to be written
    /// or removed.
    pub fn run(self, tarred: &Vec<u8>) -> (outcome: Result<LockedDoor, ArchiveError>)
        requires
            self.wf(),
        ensures
            outcome.is_ok() == spec_seal_failure(tarred@, self.key@).is_none(),
            match outcome {
                Ok(door) => self.spec_locked(tarred@, door),
                Err(error) => spec_seal_failure(tarred@, self.key@) == Some(error),
            },
    {
        let digest = match key_digest(&self.key) {
            Some(digest) => digest,
            None => {
                return Err(ArchiveError::KeyTooShort);
            },
        };
        let archive = match seal(tarred, &self.key) {
            Ok(archive) => archive,
            Err(error) => {
                return Err(error);
            },
        };
        let target = archive_path(self.path.as_str());
        let payload = lock_payload(self.payload, digest);
        let mut commands: Vec<DirworldCommand> = Vec::new();
        commands.push(DirworldCommand::SaveEntity { path: target.clone(), payload });
        Ok(LockedDoor { archive_path: target, archive, remove: self.path, commands })
    }
}

/// Asks for the archive at `path` to be unlocked under `key`.
#[derive(Debug)]
pub struct DirworldUnlockDoorCommand {
    pub path: String,
    pub key: Vec<u8>,
}

/// An unlock in progress: the label of the job in the ledger, the archive
/// file, the key, and the payload and sealed bytes the file had when the
/// unlock was asked for.
#[derive(Debug)]
pub struct UnlockJob {
    pub label: String,
    pub path: String,
    pub key: Vec<u8>,
    pub payload: Option<DirworldEntityPayload>,
    pub sealed: Option<Vec<u8>>,
}

/// Why an unlock failed.
#[derive(Clone, Copy, Debug, PartialEq, Eq, Structural)]
pub enum UnlockError {
    /// The archive file gave no bytes to open.
    MissingArchive,
    /// The archive file has no directory above it to unpack into.
    NoParent,
    /// The path of the archive file names no entry to restore.
    NoName,
    /// The archive could not be opened.
    Archive(ArchiveError),
}

/// The directory to restore, with the commands to hand to the engine once
/// it stands.
#[derive(Debug)]
pub struct RestoredDoor {
    pub directory: String,
    pub commands: Vec<DirworldCommand>,
}

/// What a finished unlock asks the host to do, in this order: unpack
/// `archive` into `unpack_into`, remove the file at `remove`, and, where
/// `restored` is given, make sure its directory exists and hand its
/// commands to the engine. The host says how each step on disk went, with
/// [`UnlockedDoor::unpacked`] and [`UnpackedDoor::removed`], and learns
/// from them whether to go on.
#[derive(Debug)]
pub struct UnlockedDoor {
    pub archive: Vec<u8>,
    pub unpack_into: String,
    pub remove: String,
    pub restored: Option<RestoredDoor>,
}

/// An unlock whose archive is unpacked: the archive file to remove, and
/// what to restore once it is gone.
#[derive(Debug)]
pub struct UnpackedDoor {
    pub remove: String,
    pub restored: Option<RestoredDoor>,
}

/// What is left to do of an unlock once the host has tried to unpack the
/// archive: nothing where that failed, so that the archive file stays; else
/// to remove the archive file.
pub open spec fn spec_unpacked(door: UnlockedDoor, ok: bool) -> Option<UnpackedDoor> {
    if ok {
        Some(UnpackedDoor { remove: door.remove, restored: door.restored })
    } else {
        None
    }
}

/// What an unlock restores once the host has tried to remove the archive
/// file: the directory and its commands, where there are any, and nothing
/// where the removal failed.
pub open spec fn spec_unlock_removed(door: UnpackedDoor, ok: bool) -> Option<RestoredDoor> {
    if ok {
        door.restored
    } else {
        None
    }
}

/// What an unlock restores, given how its computing part ended, whether the
/// archive could be unpacked and whether the archive file could be removed.
pub open spec fn spec_unlock_yield(
    run: Result<UnlockedDoor, UnlockError>,
    unpacked: bool,
    removed: bool,
) -> Option<RestoredDoor> {
    match run {
        Ok(door) => match spec_unpacked(door, unpacked) {
            Some(next) => spec_unlock_removed(next, removed),
            None => None,
        },
        Err(_) => None,
    }
}

impl UnlockedDoor {
    /// Goes on once the host has tried to unpack the archive; `ok` says
    /// whether all of it is unpacked. Only then is the archive file to be
    /// removed.
    pub fn unpacked(self, ok: bool) -> (next: Option<UnpackedDoor>)
        ensures
            next == spec_unpacked(self, ok),
    {
        if ok {
            Some(UnpackedDoor { remove: self.remove, restored: self.restored })
        } else {
            None
        }
    }
}

impl UnpackedDoor {
    /// Ends the unlock once the host has tried to remove the archive file;
    /// `ok` says whether it is gone. Only then is the directory restored and
    /// are its commands handed on.
    pub fn removed(self, ok: bool) -> (restored: Option<RestoredDoor>)
        ensures
            restored == spec_unlock_removed(self, ok),
    {
        if ok {
            self.restored
        } else {
            None
        }
    }
}

impl DirworldUnlockDoorCommand {
    /// Starts the unlock: keeps the payload and the sealed bytes the archive
    /// file has now, and enters the job in the ledger under its label.
    /// `read` is what was read of the archive file.
    pub fn apply(self, tasks: &mut DirworldTasks<DirworldCommand>, read: EntryRead) -> (job: UnlockJob)
        requires
            old(tasks).wf(),
            read.wf(),
        ensures
            final(tasks).wf(),
            final(tasks)@ == old(tasks)@.insert(
                spec_unlock_label(self.path@),
                TaskState::Running,
            ),
            job.label@ == spec_unlock_label(self.path@),
            job.path == self.path,
            job.key == self.key,
            job.payload == spec_extract(read).0,
            job.sealed == spec_extract(read).1,
            job.wf(),
    {
        let (payload, sealed) = extract_entity_payload(read);
        let label = job_label("Unlocking", self.path.as_str());
        tasks.insert(label.clone());
        UnlockJob { label, path: self.path, key: self.key, payload, sealed }
    }
}

impl UnlockJob {
    /// The invariant: the payload, if there is one, is well formed.
    pub open spec fn wf(&self) -> bool {
        match self.payload {
            Some(payload) => payload.wf(),
            None => true,
        }
    }

    /// The path of the directory that the unlock restores.
    pub open spec fn spec_restored_path(&self) -> Seq<char> {
        spec_join(
            spec_parent(self.path@).unwrap(),
            spec_file_stem_no_extensions(self.path@).unwrap(),
        )
    }

    /// The failure that stops the unlock before the archive is opened, if
    /// there is one.
    pub open spec fn spec_refusal(&self) -> Option<UnlockError> {
        if self.sealed.is_none() {
            Some(UnlockError::MissingArchive)
        } else if spec_parent(self.path@).is_none() {
            Some(UnlockError::NoParent)
        } else if self.payload.is_some() && spec_file_stem_no_extensions(self.path@).is_none() {
            Some(UnlockError::NoName)
        } else if self.key@.len() < KEY_LEN {
            Some(UnlockError::Archive(ArchiveError::KeyTooShort))
        } else {
            None
        }
    }

    /// Why the unlock fails, where it does: what stops it before the
    /// archive is opened, or why the archive does not open.
    pub open spec fn spec_failure(&self) -> Option<UnlockError> {
        match self.spec_refusal() {
            Some(refusal) => Some(refusal),
            None => match spec_open_failure(self.sealed.unwrap()@, self.key@) {
                Some(error) => Some(UnlockError::Archive(error)),
                None => None,
            },
        }
    }

    /// Whether `door` is what unlocking gives for this job.
    pub open spec fn spec_unlocked(&self, door: UnlockedDoor) -> bool {
        &&& Some(door.archive@) == spec_opened(self.sealed.unwrap()@, self.key@)
        &&& door.unpack_into@ == spec_parent(self.path@).unwrap()
        &&& door.remove@ == self.path@
        &&& match self.payload {
            Some(payload) => {
                &&& door.restored.is_some()
                &&& door.restored.unwrap().directory@ == self.spec_restored_path()
                &&& door.restored.unwrap().commands@.len() == 1
                &&& door.restored.unwrap().commands@[0] is SaveEntity
                &&& door.restored.unwrap().commands@[0]->SaveEntity_path@
                    == self.spec_restored_path()
                &&& door.restored.unwrap().commands@[0]->SaveEntity_payload.wf()
                &&& door.restored.unwrap().commands@[0]->SaveEntity_payload@
                    == spec_unlocked_payload(payload@)
            },
            None => door.restored.is_none(),
        }
    }

    /// Does the computing part of the unlock: opens the sealed bytes under
    /// the key, and, where the archive file had a payload, prepares the
    /// command that saves it, without the digest of the key, against the
    /// restored directory.
    ///
    /// The job fails where the file gave no bytes, has no directory above
    /// it or, having a payload, names no entry; where the key has fewer
    /// than sixteen bytes; where the sealed bytes are not made of whole
    /// blocks or their padding is out of order; and where they hold no xz
    /// stream. It succeeds on everything else, and so on what locking under
    /// the same key made. A failed job hands back no command and asks for
    /// nothing to be written or removed.
    pub fn run(self) -> (outcome: Result<UnlockedDoor, UnlockError>)
        requires
            self.wf(),
        ensures
            outcome.is_ok() == (self.spec_refusal().is_none() && spec_opened(
                self.sealed.unwrap()@,
                self.key@,
            ).is_some()),
            match outcome {
                Ok(door) => self.spec_unlocked(door),
                Err(error) => self.spec_failure() == Some(error),
            },
            forall|tarred: Seq<u8>|
                self.spec_refusal().is_none() && self.sealed.unwrap()@ == #[trigger] spec_sealed(
                    tarred,
                    self.key@,
                ) ==> outcome.is_ok() && outcome.unwrap().archive@ == tarred,
    {
        let sealed = match self.sealed {
            Some(sealed) => sealed,
            None => {
                return Err(UnlockError::MissingArchive);
            },
        };
        let above = match parent(self.path.as_str()) {
            Some(above) => above,
            None => {
                return Err(UnlockError::NoParent);
            },
        };
        let stem = file_stem_no_extensions(self.path.as_str());
        if self.payload.is_some() && stem.is_none() {
            return Err(UnlockError::NoName);
        }
        let archive = match open(&sealed, &self.key) {
            Ok(archive) => archive,
            Err(error) => {
                return Err(UnlockError::Archive(error));
            },
        };
        let restored = match self.payload {
            Some(payload) => {
                let directory = join(above.as_str(), stem.unwrap().as_str());
                let mut commands: Vec<DirworldCommand> = Vec::new();
                commands.push(
                    DirworldCommand::SaveEntity {
                        path: directory.clone(),
                        payload: unlock_payload(payload),
                    },
                );
                Some(RestoredDoor { directory, commands })
            },
            None => None,
        };
        Ok(UnlockedDoor { archive, unpack_into: above, remove: self.path, restored })
    }
}

/// Asks for `payload` to be written to the entry at `path`.
#[derive(Debug)]
pub struct DirworldSaveEntityCommand {
    pub path: String,
    pub payload: DirworldEntityPayload,
}

/// Why a save wrote nothing.
#[derive(Clone, Copy, Debug, PartialEq, Eq, Structural)]
pub enum SaveStop {
    /// No codec is registered for the file's extensions.
    NoCodec,
    /// The payload could not be turned into bytes.
    NotSerializable,
    /// The file could not be read.
    Unreadable,
    /// Something the codec depends on is missing.
    MissingDependency,
    /// The codec could not embed the payload.
    EncodeFailed,
}

/// What a save does next.
#[derive(Debug)]
pub enum SaveStep {
    /// Write `bytes` to the marker file at `path`; the save is done.
    WriteMarker { path: String, bytes: Vec<u8> },
    /// Read the file at `path` and decode it with `codec`; then go on with
    /// [`save_carrier`], and embed `payload` in the carrier it gives.
    ReadCarrier { path: String, codec: u64, payload: Vec<u8> },
    /// Write nothing.
    Stop(SaveStop),
}

impl DirworldSaveEntityCommand {
    /// What the save does first, for the path `path` and the payload turned
    /// into `serialized`.
    pub open spec fn spec_first_step(
        path: Seq<char>,
        folder: bool,
        codecs: DirworldCodecs,
        serialized: Option<Vec<u8>>,
        step: SaveStep,
    ) -> bool {
        if folder {
            match serialized {
                Some(bytes) => step is WriteMarker && step->WriteMarker_path@ == spec_marker_path(
                    path,
                ) && step->WriteMarker_bytes == bytes,
                None => step == SaveStep::Stop(SaveStop::NotSerializable),
            }
        } else {
            match spec_entry_codec(path, codecs) {
                None => step == SaveStep::Stop(SaveStop::NoCodec),
                Some(codec) => match serialized {
                    Some(bytes) => step is ReadCarrier && step->ReadCarrier_path@ == path
                        && step->ReadCarrier_codec == codec && step->ReadCarrier_payload == bytes,
                    None => step == SaveStep::Stop(SaveStop::NotSerializable),
                },
            }
        }
    }

    /// Starts the save. `folder` says whether the entry is a folder, and
    /// `serialized` holds the payload as bytes, or `None` where it could not
    /// be turned into bytes.
    ///
    /// The payload of a folder goes to the folder's marker file. The
    /// payload of a file is embedded by the codec registered for the file's
    /// extensions; without such a codec nothing is written.
    pub fn apply(&self, folder: bool, codecs: &DirworldCodecs, serialized: Option<Vec<u8>>) -> (step:
        SaveStep)
        ensures
            Self::spec_first_step(self.path@, folder, *codecs, serialized, step),
    {
        if folder {
            match serialized {
                Some(bytes) => SaveStep::WriteMarker {
                    path: marker_path(self.path.as_str()),
                    bytes,
                },
                None => SaveStep::Stop(SaveStop::NotSerializable),
            }
        } else {
            match entry_codec(self.path.as_str(), codecs) {
                None => SaveStep::Stop(SaveStop::NoCodec),
                Some(codec) => match serialized {
                    Some(bytes) => SaveStep::ReadCarrier {
                        path: self.path.clone(),
                        codec,
                        payload: bytes,
                    },
                    None => SaveStep::Stop(SaveStop::NotSerializable),
                },
            }
        }
    }
}

/// The carrier to embed a payload in, from what reading and decoding the
/// file gave: the codec's carrier where it decoded the file, the whole file
/// where it reported anything but a missing dependency.
pub open spec fn spec_save_carrier(
    raw: Option<Vec<u8>>,
    decoded: Result<Vec<u8>, CodecError>,
) -> Result<Vec<u8>, SaveStop> {
    match raw {
        None => Err(SaveStop::Unreadable),
        Some(bytes) => match decoded {
            Ok(carrier) => Ok(carrier),
            Err(CodecError::DependencyError) => Err(SaveStop::MissingDependency),
            Err(_) => Ok(bytes),
        },
    }
}

/// Picks the carrier to embed a payload in. `raw` holds the file's bytes,
/// or `None` where it could not be read; `decoded` the carrier the codec
/// found in them, or what it reported.
pub fn save_carrier(raw: Option<Vec<u8>>, decoded: Result<Vec<u8>, CodecError>) -> (carrier:
    Result<Vec<u8>, SaveStop>)
    ensures
        carrier == spec_save_carrier(raw, decoded),
{
    match raw {
        None => Err(SaveStop::Unreadable),
        Some(bytes) => match decoded {
            Ok(carrier) => Ok(carrier),
            Err(error) => match error {
                CodecError::DependencyError => Err(SaveStop::MissingDependency),
                _ => Ok(bytes),
            },
        },
    }
}

/// Ends a save: the bytes to write to the file, from what the codec made of
/// carrier and payload.
pub fn save_encoded(encoded: Result<Vec<u8>, CodecError>) -> (bytes: Result<Vec<u8>, SaveStop>)
    ensures
        bytes == (match encoded {
            Ok(found) => Ok::<Vec<u8>, SaveStop>(found),
            Err(_) => Err::<Vec<u8>, SaveStop>(SaveStop::EncodeFailed),
        }),
{
    match encoded {
        Ok(found) => Ok(found),
        Err(_) => Err(SaveStop::EncodeFailed),
    }
}

} // verus!
