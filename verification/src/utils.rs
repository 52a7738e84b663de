//! Reading an entry's payload, and removing the node of an entry.
use vstd::prelude::*;
use crate::graph::{spec_find_path, spec_without_subtree, LiveGraph};
use crate::paths::{extensions, spec_extensions};
use crate::payload::DirworldEntityPayload;
use crate::resources::{DirworldCodecs, EntryType, EntryTypeView};

verus! {

/// What a codec may report in place of a result.
#[derive(Clone, Copy, Debug, PartialEq, Eq, Structural)]
pub enum CodecError {
    /// The file carries no payload. This is no failure.
    DataNotEncoded,
    /// Something the codec depends on is missing.
    DependencyError,
    /// Any other failure, such as a corrupt embedding.
    Other,
}

/// What reading the marker file of a folder gave.
#[derive(Debug)]
pub enum MarkerRead {
    /// The folder holds no marker file.
    Missing,
    /// The marker file could not be read.
    Unreadable,
    /// The marker file does not hold a payload.
    Malformed,
    /// The payload that the marker file holds.
    Payload(DirworldEntityPayload),
}

/// What a codec made of a file's bytes.
#[derive(Debug)]
pub enum Decoded {
    /// The codec found embedded bytes. `payload` is what they hold, or
    /// `None` where they hold no payload.
    Embedded { carrier: Vec<u8>, payload: Option<DirworldEntityPayload> },
    /// The codec reported an error.
    Refused(CodecError),
}

/// What was read of an entry.
#[derive(Debug)]
pub enum EntryRead {
    /// The entry is a folder; the answer of reading its marker file.
    Folder(MarkerRead),
    /// The entry is a file. `raw` holds its bytes, or `None` where it could
    /// not be read. `decoded` holds what the codec registered for its
    /// extensions made of them, or `None` where none is registered.
    File { raw: Option<Vec<u8>>, decoded: Option<Decoded> },
}

impl EntryRead {
    /// The invariant: a payload in it is well formed.
    pub open spec fn wf(&self) -> bool {
        match self {
            EntryRead::Folder(MarkerRead::Payload(payload)) => payload.wf(),
            EntryRead::File {
                decoded: Some(Decoded::Embedded { payload: Some(payload), .. }),
                ..
            } => payload.wf(),
            _ => true,
        }
    }

    /// Whether the entry is a folder.
    pub open spec fn spec_is_folder(&self) -> bool {
        self is Folder
    }

    /// Tells whether the entry is a folder.
    pub fn is_folder(&self) -> (folder: bool)
        ensures
            folder == self.spec_is_folder(),
    {
        match self {
            EntryRead::Folder(_) => true,
            EntryRead::File { .. } => false,
        }
    }
}

/// The payload and the carrier bytes of an entry, from what was read of it.
///
/// A folder has its marker file's payload and no carrier. A file that could
/// not be read has neither. A file for which no codec is registered, or in
/// which the codec found no payload, is all carrier. Where the codec found
/// embedded bytes, the file has the codec's carrier, and the payload that
/// the embedded bytes hold, if they hold one. Any other answer of the codec
/// leaves neither.
pub open spec fn spec_extract(read: EntryRead) -> (Option<DirworldEntityPayload>, Option<Vec<u8>>) {
    match read {
        EntryRead::Folder(MarkerRead::Payload(payload)) => (Some(payload), None),
        EntryRead::Folder(_) => (None, None),
        EntryRead::File { raw: None, .. } => (None, None),
        EntryRead::File { raw: Some(bytes), decoded: None } => (None, Some(bytes)),
        EntryRead::File {
            raw: Some(bytes),
            decoded: Some(Decoded::Embedded { carrier, payload: Some(payload) }),
        } => (Some(payload), Some(carrier)),
        EntryRead::File {
            raw: Some(bytes),
            decoded: Some(Decoded::Embedded { carrier, payload: None }),
        } => (None, Some(carrier)),
        EntryRead::File {
            raw: Some(bytes),
            decoded: Some(Decoded::Refused(CodecError::DataNotEncoded)),
        } => (None, Some(bytes)),
        EntryRead::File { raw: Some(bytes), decoded: Some(Decoded::Refused(_)) } => (None, None),
    }
}

/// Extracts the payload and the carrier bytes of an entry from what was
/// read of it. No input makes it fail: what cannot be used is left out.
pub fn extract_entity_payload(read: EntryRead) -> (extracted: (
    Option<DirworldEntityPayload>,
    Option<Vec<u8>>,
))
    ensures
        extracted == spec_extract(read),
        read.wf() && extracted.0.is_some() ==> extracted.0.unwrap().wf(),
{
    match read {
        EntryRead::Folder(marker) => match marker {
            MarkerRead::Payload(payload) => (Some(payload), None),
            _ => (None, None),
        },
        EntryRead::File { raw, decoded } => match raw {
            None => (None, None),
            Some(bytes) => match decoded {
                None => (None, Some(bytes)),
                Some(Decoded::Embedded { carrier, payload }) => (payload, Some(carrier)),
                Some(Decoded::Refused(error)) => match error {
                    CodecError::DataNotEncoded => (None, Some(bytes)),
                    _ => (None, None),
                },
            },
        },
    }
}

/// The codec that reads the file at `path`: the one registered for the
/// file's extensions.
pub open spec fn spec_entry_codec(path: Seq<char>, codecs: DirworldCodecs) -> Option<u64> {
    match spec_extensions(path) {
        Some(found) => codecs.spec_get(found),
        None => None,
    }
}

/// Finds the codec that reads the file at `path`.
pub fn entry_codec(path: &str, codecs: &DirworldCodecs) -> (codec: Option<u64>)
    ensures
        codec == spec_entry_codec(path@, *codecs),
{
    match extensions(path) {
        Some(found) => codecs.get(found.as_str()),
        None => None,
    }
}

/// The kind of the entry at `path`.
pub open spec fn spec_entry_type(path: Seq<char>, folder: bool) -> EntryTypeView {
    if folder {
        EntryTypeView::Folder
    } else {
        EntryTypeView::File(spec_extensions(path))
    }
}

/// Tells the kind of the entry at `path`; `folder` says whether it is a
/// folder.
pub fn entry_type(path: &str, folder: bool) -> (kind: EntryType)
    ensures
        kind@ == spec_entry_type(path@, folder),
{
    if folder {
        EntryType::Folder
    } else {
        EntryType::File(extensions(path))
    }
}

/// Removes the first node whose path is `path`, with all that stands below
/// it, and hands back its identity. Where no node has that path, nothing
/// changes and `None` comes back.
pub fn despawn_entity_by_path(graph: &mut LiveGraph, path: &str) -> (despawned: Option<u64>)
    requires
        old(graph).wf(),
    ensures
        final(graph).wf(),
        final(graph).next_id == old(graph).next_id,
        match spec_find_path(old(graph).nodes@, path@) {
            Some(at) => despawned == Some(old(graph).nodes@[at].id) && final(graph).nodes@
                == spec_without_subtree(old(graph).nodes@, old(graph).nodes@[at].id)
                && final(graph).nodes@.len() < old(graph).nodes@.len(),
            None => despawned.is_none() && final(graph).nodes@ == old(graph).nodes@,
        },
{
    match graph.find_path(path) {
        Some(at) => {
            let id = graph.nodes[at].id;
            proof {
                crate::graph::lemma_node_index(graph.nodes@, graph.next_id, at as int);
            }
            let _ = graph.despawn_subtree(id);
            Some(id)
        },
        None => None,
    }
}

} // verus!
