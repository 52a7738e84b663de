//! The state the engine keeps between events.
use vstd::prelude::*;
use crate::payload::DirworldEntityPayload;
use crate::registry::{spec_with_keys, Registry};
use crate::text::concat_text;
use crate::text_map::TextMap;

verus! {

/// Root directory of the world.
#[derive(Debug)]
pub struct DirworldRootDir(pub Option<String>);

/// Current directory of the world.
#[derive(Debug)]
pub struct DirworldCurrentDir {
    /// Path of the current directory.
    pub path: String,
    /// Payload of the current directory's marker file, if present.
    pub payload: Option<DirworldEntityPayload>,
}

impl DirworldCurrentDir {
    /// The invariant: the payload, if there is one, is well formed.
    pub open spec fn wf(&self) -> bool {
        match self.payload {
            Some(payload) => payload.wf(),
            None => true,
        }
    }

    /// Identifier of the current room, where its marker file gave one.
    pub open spec fn spec_room_id(&self) -> Option<u128> {
        match self.payload {
            Some(payload) => Some(payload.id),
            None => None,
        }
    }
}

impl Default for DirworldCurrentDir {
    fn default() -> (current: DirworldCurrentDir)
        ensures
            current.wf(),
            current.path@ == Seq::<char>::empty(),
            current.payload.is_none(),
    {
        DirworldCurrentDir { path: String::new(), payload: None }
    }
}

/// Where a background job stands.
#[derive(Debug)]
pub enum TaskState<C> {
    /// The job is at work.
    Running,
    /// The job is done, and may have commands for the engine.
    Finished(Option<Vec<C>>),
}

/// The background jobs in flight, by label.
#[derive(Debug)]
pub struct DirworldTasks<C>(pub TextMap<TaskState<C>>);

impl<C> View for DirworldTasks<C> {
    type V = Map<Seq<char>, TaskState<C>>;

    open spec fn view(&self) -> Map<Seq<char>, TaskState<C>> {
        self.0@
    }
}

impl<C> DirworldTasks<C> {
    /// The invariant: no label occurs twice.
    pub open spec fn wf(&self) -> bool {
        self.0.wf()
    }

    /// A ledger without jobs.
    pub fn new() -> (tasks: DirworldTasks<C>)
        ensures
            tasks.wf(),
            tasks@ == Map::<Seq<char>, TaskState<C>>::empty(),
            tasks.0.spec_len() == 0,
    {
        DirworldTasks(TextMap::new())
    }

    /// Enters a job that is at work under `label`, in place of a job
    /// entered under that label before.
    pub fn insert(&mut self, label: String)
        requires
            old(self).wf(),
        ensures
            final(self).wf(),
            final(self)@ == old(self)@.insert(label@, TaskState::Running),
    {
        let _ = self.0.insert(label, TaskState::Running);
    }

    /// Records that the job under `label` is done, with the commands it
    /// hands back. Tells whether there is such a job; if not, nothing
    /// changes.
    pub fn finish(&mut self, label: &str, commands: Option<Vec<C>>) -> (known: bool)
        requires
            old(self).wf(),
        ensures
            final(self).wf(),
            known == old(self)@.contains_key(label@),
            known ==> final(self)@ == old(self)@.insert(label@, TaskState::Finished(commands)),
            !known ==> final(self)@ == old(self)@,
    {
        if self.0.contains_key(label) {
            let _ = self.0.insert(label.to_owned(), TaskState::Finished(commands));
            true
        } else {
            false
        }
    }
}

/// Kind of a filesystem entry.
#[derive(Debug, PartialEq, Eq, Hash)]
pub enum EntryType {
    /// A file, with its extensions if it has any.
    File(Option<String>),
    /// A folder.
    Folder,
}

/// What an [`EntryType`] holds.
pub enum EntryTypeView {
    File(Option<Seq<char>>),
    Folder,
}

impl View for EntryType {
    type V = EntryTypeView;

    open spec fn view(&self) -> EntryTypeView {
        match self {
            EntryType::File(Some(extensions)) => EntryTypeView::File(Some(extensions@)),
            EntryType::File(None) => EntryTypeView::File(None),
            EntryType::Folder => EntryTypeView::Folder,
        }
    }
}

impl Clone for EntryType {
    fn clone(&self) -> (copy: EntryType)
        ensures
            copy@ == self@,
    {
        match self {
            EntryType::File(Some(extensions)) => EntryType::File(Some(extensions.clone())),
            EntryType::File(None) => EntryType::File(None),
            EntryType::Folder => EntryType::Folder,
        }
    }
}

/// The key under which a kind of entry is registered: `/` for a folder, the
/// empty text for a file without extensions, and a dot followed by the
/// extensions for any other file.
pub open spec fn spec_kind_key(kind: EntryTypeView) -> Seq<char> {
    match kind {
        EntryTypeView::Folder => seq!['/'],
        EntryTypeView::File(None) => Seq::empty(),
        EntryTypeView::File(Some(extensions)) => seq!['.'] + extensions,
    }
}

/// Two kinds with the same key are the same kind.
pub proof fn lemma_kind_key_injective(left: EntryTypeView, right: EntryTypeView)
    requires
        spec_kind_key(left) == spec_kind_key(right),
    ensures
        left == right,
{
    let a = spec_kind_key(left);
    let b = spec_kind_key(right);
    assert(a.len() == b.len());
    match (left, right) {
        (EntryTypeView::File(Some(x)), EntryTypeView::File(Some(y))) => {
            assert(x =~= a.subrange(1, a.len() as int));
            assert(y =~= b.subrange(1, b.len() as int));
        },
        (EntryTypeView::File(Some(x)), EntryTypeView::Folder) => {
            assert(a[0] == '.');
            assert(b[0] == '/');
        },
        (EntryTypeView::Folder, EntryTypeView::File(Some(y))) => {
            assert(a[0] == '/');
            assert(b[0] == '.');
        },
        _ => {},
    }
}

/// The key under which `kind` is registered.
pub fn kind_key(kind: &EntryType) -> (key: String)
    ensures
        key@ == spec_kind_key(kind@),
{
    match kind {
        EntryType::Folder => {
            proof {
                reveal_strlit("/");
                assert("/"@ =~= seq!['/']);
            }
            "/".to_owned()
        },
        EntryType::File(None) => String::new(),
        EntryType::File(Some(extensions)) => {
            proof {
                reveal_strlit(".");
                assert("."@ =~= seq!['.']);
            }
            concat_text(".", extensions.as_str())
        },
    }
}

/// The keys of a list of kinds, in order.
pub fn kind_keys(kinds: &Vec<EntryType>) -> (keys: Vec<String>)
    ensures
        keys@.len() == kinds@.len(),
        forall|i: int| 0 <= i < kinds@.len() ==> keys@[i]@ == spec_kind_key(kinds@[i]@),
{
    let mut keys: Vec<String> = Vec::new();
    let mut at: usize = 0;
    while at < kinds.len()
        invariant
            at <= kinds@.len(),
            keys@.len() == at,
            forall|i: int| 0 <= i < at ==> keys@[i]@ == spec_kind_key(kinds@[i]@),
        decreases kinds@.len() - at,
    {
        keys.push(kind_key(&kinds[at]));
        at = at + 1;
    }
    keys
}

/// Which observer materialises which kind of entry. An observer is known by
/// the number the host gave it.
pub struct DirworldObservers(pub Registry);

impl DirworldObservers {
    /// The invariant of the registry.
    pub open spec fn wf(&self) -> bool {
        self.0.wf()
    }

    /// The observer registered for `kind`, where there is one.
    pub open spec fn spec_get(&self, kind: EntryTypeView) -> Option<u64> {
        if self.0@.contains_key(spec_kind_key(kind)) {
            Some(self.0@[spec_kind_key(kind)])
        } else {
            None
        }
    }

    /// Whether `kinds` can be registered: they differ from each other and
    /// none of them has an observer yet.
    pub open spec fn spec_accepts(&self, kinds: Seq<EntryType>) -> bool {
        &&& forall|i: int, j: int| 0 <= i < j < kinds.len() ==> kinds[i]@ != kinds[j]@
        &&& forall|i: int| 0 <= i < kinds.len() ==> self.spec_get(kinds[i]@).is_none()
    }

    /// A registry without observers.
    pub fn new() -> (observers: DirworldObservers)
        ensures
            observers.wf(),
            forall|kind: EntryTypeView| observers.spec_get(kind).is_none(),
    {
        DirworldObservers(Registry::new())
    }

    /// The observer registered for `kind`.
    pub fn get(&self, kind: &EntryType) -> (observer: Option<u64>)
        ensures
            observer == self.spec_get(kind@),
    {
        let key = kind_key(kind);
        self.0.get(key.as_str())
    }

    /// Registers `observer` for each of `kinds` and tells whether it did.
    /// Kinds that do not differ from each other, or of which one has an
    /// observer already, are refused as a whole.
    pub fn insert_many(&mut self, kinds: Vec<EntryType>, observer: u64) -> (registered: bool)
        requires
            old(self).wf(),
        ensures
            final(self).wf(),
            registered == old(self).spec_accepts(kinds@),
            forall|kind: EntryTypeView| #[trigger]
                final(self).spec_get(kind) == (if registered && exists|i: int|
                    0 <= i < kinds@.len() && kinds@[i]@ == kind {
                    Some(observer)
                } else {
                    old(self).spec_get(kind)
                }),
    {
        let keys = kind_keys(&kinds);
        let ghost before = self.0;
        proof {
            assert forall|i: int, j: int|
                0 <= i < j < kinds@.len() && keys@[i]@ == keys@[j]@ implies kinds@[i]@
                == kinds@[j]@ by {
                lemma_kind_key_injective(kinds@[i]@, kinds@[j]@);
            }
            if before.spec_accepts(keys@) {
                assert forall|i: int, j: int| 0 <= i < j < kinds@.len() implies kinds@[i]@
                    != kinds@[j]@ by {
                    assert(keys@[i]@ != keys@[j]@);
                }
                assert forall|i: int| 0 <= i < kinds@.len() implies old(self).spec_get(
                    kinds@[i]@,
                ).is_none() by {
                    assert(!before@.contains_key(keys@[i]@));
                }
            }
            if old(self).spec_accepts(kinds@) {
                assert forall|i: int| 0 <= i < keys@.len() implies !before@.contains_key(
                    keys@[i]@,
                ) by {
                    assert(old(self).spec_get(kinds@[i]@).is_none());
                }
            }
        }
        let registered = self.0.insert_many(keys, observer);
        proof {
            assert forall|kind: EntryTypeView| #[trigger]
                self.spec_get(kind) == (if registered && exists|i: int|
                    0 <= i < kinds@.len() && kinds@[i]@ == kind {
                    Some(observer)
                } else {
                    old(self).spec_get(kind)
                }) by {
                let key = spec_kind_key(kind);
                if registered {
                    if exists|i: int| 0 <= i < kinds@.len() && kinds@[i]@ == kind {
                        let i = choose|i: int| 0 <= i < kinds@.len() && kinds@[i]@ == kind;
                        assert(keys@[i]@ == key);
                        assert(crate::registry::spec_key_set(keys@).contains(key));
                    } else {
                        if crate::registry::spec_key_set(keys@).contains(key) {
                            let i = choose|i: int| 0 <= i < keys@.len() && keys@[i]@ == key;
                            lemma_kind_key_injective(kinds@[i]@, kind);
                        }
                    }
                }
            }
        }
        registered
    }
}

/// Which codec reads and writes the payload of files with which extensions.
/// A codec is known by the number the host gave it.
pub struct DirworldCodecs(pub Registry);

impl View for DirworldCodecs {
    type V = Map<Seq<char>, u64>;

    open spec fn view(&self) -> Map<Seq<char>, u64> {
        self.0@
    }
}

impl DirworldCodecs {
    /// The invariant of the registry.
    pub open spec fn wf(&self) -> bool {
        self.0.wf()
    }

    /// The codec registered for `extensions`, where there is one.
    pub open spec fn spec_get(&self, extensions: Seq<char>) -> Option<u64> {
        if self@.contains_key(extensions) {
            Some(self@[extensions])
        } else {
            None
        }
    }

    /// A registry without codecs.
    pub fn new() -> (codecs: DirworldCodecs)
        ensures
            codecs.wf(),
            codecs@ == Map::<Seq<char>, u64>::empty(),
    {
        DirworldCodecs(Registry::new())
    }

    /// The codec registered for `extensions`.
    pub fn get(&self, extensions: &str) -> (codec: Option<u64>)
        ensures
            codec == self.spec_get(extensions@),
    {
        self.0.get(extensions)
    }

    /// Registers `codec` for each of `extensions` and tells whether it did.
    /// Extensions that do not differ from each other, or of which one has a
    /// codec already, are refused as a whole.
    pub fn insert_many(&mut self, extensions: Vec<String>, codec: u64) -> (registered: bool)
        requires
            old(self).wf(),
        ensures
            final(self).wf(),
            registered == old(self).0.spec_accepts(extensions@),
            registered ==> final(self)@ == spec_with_keys(old(self)@, extensions@, codec),
            !registered ==> final(self)@ == old(self)@,
    {
        self.0.insert_many(extensions, codec)
    }
}

} // verus!
