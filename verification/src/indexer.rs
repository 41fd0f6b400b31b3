//! The workspace indexer: a point-in-time manifest of a directory.
//!
//! A scan of the target directory arrives as a vector of entries.  The
//! indexer keeps exactly the regular files, in enumeration order, attaches
//! the configured project name and the resolved provenance, and serializes
//! the manifest.  Persisting replaces the stored document wholesale: the
//! index reflects only the current state, never history.

use vstd::prelude::*;
use vstd::string::StringExecFns;

use crate::jsontext::esc_seq;
use crate::jsontext::escape_json;
use crate::model::EntryKind;
use crate::model::FileEntry;
use crate::model::ScannedEntry;
use crate::model::WorkspaceIndex;
use crate::provenance::resolve_commit;
use crate::provenance::sentinel_commit;

verus! {

/// No two entries of one scan carry the same name.
pub open spec fn distinct_names(entries: Seq<ScannedEntry>) -> bool {
    forall|i: int, j: int|
        0 <= i < j < entries.len() ==> entries[i].name@ != entries[j].name@
}

/// The names of the regular files among `entries`, in enumeration order.
pub open spec fn file_names_of(entries: Seq<ScannedEntry>) -> Seq<Seq<char>>
    decreases entries.len(),
{
    if entries.len() == 0 {
        Seq::empty()
    } else {
        file_names_of(entries.drop_last()) + if entries.last().kind == EntryKind::RegularFile {
            seq![entries.last().name@]
        } else {
            Seq::empty()
        }
    }
}

/// How many regular files a scan observed.
pub open spec fn regular_file_count(entries: Seq<ScannedEntry>) -> nat
    decreases entries.len(),
{
    if entries.len() == 0 {
        0
    } else {
        regular_file_count(entries.drop_last()) + if entries.last().kind
            == EntryKind::RegularFile {
            1nat
        } else {
            0nat
        }
    }
}

/// The listing holds exactly one name per regular file observed.
pub proof fn lemma_file_names_count(entries: Seq<ScannedEntry>)
    ensures
        file_names_of(entries).len() == regular_file_count(entries),
    decreases entries.len(),
{
    if entries.len() > 0 {
        lemma_file_names_count(entries.drop_last());
    }
}

/// Every listed name is the name of some regular-file entry, and there are
/// never more listed names than entries.
pub proof fn lemma_file_names_membership(entries: Seq<ScannedEntry>)
    ensures
        file_names_of(entries).len() <= entries.len(),
        forall|k: int|
            0 <= k < file_names_of(entries).len() ==> exists|j: int|
                0 <= j < entries.len() && entries[j].kind == EntryKind::RegularFile
                    && #[trigger] file_names_of(entries)[k] == entries[j].name@,
    decreases entries.len(),
{
    if entries.len() > 0 {
        lemma_file_names_membership(entries.drop_last());
        let names = file_names_of(entries);
        let prefix = file_names_of(entries.drop_last());
        assert forall|k: int| 0 <= k < names.len() implies exists|j: int|
            0 <= j < entries.len() && entries[j].kind == EntryKind::RegularFile
                && #[trigger] names[k] == entries[j].name@ by {
            if k < prefix.len() {
                assert(names[k] == prefix[k]);
                let j = choose|j: int|
                    0 <= j < entries.drop_last().len() && entries.drop_last()[j].kind
                        == EntryKind::RegularFile && prefix[k] == entries.drop_last()[j].name@;
                assert(entries[j] == entries.drop_last()[j]);
            } else {
                let j = entries.len() - 1;
                assert(entries[j].kind == EntryKind::RegularFile && names[k] == entries[j].name@);
            }
        }
    }
}

/// Distinct entry names give distinct listed names.
pub proof fn lemma_file_names_distinct(entries: Seq<ScannedEntry>)
    requires
        distinct_names(entries),
    ensures
        forall|i: int, j: int|
            0 <= i < j < file_names_of(entries).len() ==> file_names_of(entries)[i]
                != file_names_of(entries)[j],
    decreases entries.len(),
{
    if entries.len() > 0 {
        let names = file_names_of(entries);
        let prefix = file_names_of(entries.drop_last());
        assert(distinct_names(entries.drop_last())) by {
            assert(forall|i: int, j: int|
                0 <= i < j < entries.drop_last().len() ==> entries.drop_last()[i].name@
                    != entries.drop_last()[j].name@);
        }
        lemma_file_names_distinct(entries.drop_last());
        lemma_file_names_membership(entries.drop_last());
        assert forall|i: int, j: int| 0 <= i < j < names.len() implies names[i] != names[j] by {
            if j < prefix.len() {
                assert(names[i] == prefix[i] && names[j] == prefix[j]);
            } else {
                assert(entries.last().kind == EntryKind::RegularFile);
                assert(names[j] == entries.last().name@);
                assert(names[i] == prefix[i]);
                let w = choose|w: int|
                    0 <= w < entries.drop_last().len() && entries.drop_last()[w].kind
                        == EntryKind::RegularFile && prefix[i] == entries.drop_last()[w].name@;
                assert(entries[w].name@ != entries[entries.len() - 1].name@);
            }
        }
    }
}

/// An entry that is not a regular file never lends its name to the listing.
pub proof fn lemma_non_files_absent(entries: Seq<ScannedEntry>, j: int)
    requires
        distinct_names(entries),
        0 <= j < entries.len(),
        entries[j].kind != EntryKind::RegularFile,
    ensures
        !file_names_of(entries).contains(entries[j].name@),
{
    if file_names_of(entries).contains(entries[j].name@) {
        let k = choose|k: int|
            0 <= k < file_names_of(entries).len() && file_names_of(entries)[k]
                == entries[j].name@;
        lemma_file_names_membership(entries);
        let w = choose|w: int|
            0 <= w < entries.len() && entries[w].kind == EntryKind::RegularFile
                && file_names_of(entries)[k] == entries[w].name@;
        assert(w != j);
        assert(entries[w].name@ != entries[j].name@);
    }
}

/// Assembles the manifest for one scan: the regular files in enumeration
/// order, the configured project name, and the resolved provenance (the
/// sentinel when resolution failed or produced nothing).
pub fn build_index(
    entries: Vec<ScannedEntry>,
    project_name: String,
    resolved_commit: Option<String>,
) -> (idx: WorkspaceIndex)
    requires
        distinct_names(entries@),
    ensures
        idx.project_name@ == project_name@,
        idx.file_names() == file_names_of(entries@),
        match resolved_commit {
            Some(s) => idx.last_commit@ == if s@.len() > 0 {
                s@
            } else {
                sentinel_commit()
            },
            None => idx.last_commit@ == sentinel_commit(),
        },
        idx.well_formed(),
{
    let mut files: Vec<FileEntry> = Vec::new();
    let n = entries.len();
    let mut i: usize = 0;
    while i < n
        invariant
            n == entries@.len(),
            i <= n,
            files@.map_values(|e: FileEntry| e.name@) == file_names_of(entries@.take(i as int)),
        decreases n - i,
    {
        let is_file = entries[i].kind == EntryKind::RegularFile;
        if is_file {
            let name = entries[i].name.clone();
            files.push(FileEntry { name });
        }
        proof {
            let t = entries@.take(i + 1 as int);
            assert(t.drop_last() =~= entries@.take(i as int));
            assert(t.last() == entries@[i as int]);
            assert(files@.map_values(|e: FileEntry| e.name@) =~= file_names_of(t));
        }
        i = i + 1;
    }
    proof {
        assert(entries@.take(n as int) =~= entries@);
    }
    let last_commit = resolve_commit(resolved_commit);
    let idx = WorkspaceIndex { project_name, files, last_commit };
    proof {
        lemma_file_names_distinct(entries@);
    }
    idx
}

/// One manifest entry as a JSON object.
pub open spec fn entry_json(name: Seq<char>) -> Seq<char> {
    "{\"name\":\""@ + esc_seq(name) + "\"}"@
}

/// The manifest's file array: entry objects joined by commas.
pub open spec fn files_json(names: Seq<Seq<char>>) -> Seq<char>
    decreases names.len(),
{
    if names.len() == 0 {
        Seq::empty()
    } else if names.len() == 1 {
        entry_json(names[0])
    } else {
        files_json(names.drop_last()) + ","@ + entry_json(names.last())
    }
}

/// The whole manifest as one JSON object.
pub open spec fn index_json(pn: Seq<char>, names: Seq<Seq<char>>, lc: Seq<char>) -> Seq<char> {
    "{\"project_name\":\""@ + esc_seq(pn) + "\",\"files\":["@ + files_json(names)
        + "],\"last_commit\":\""@ + esc_seq(lc) + "\"}"@
}

/// The persisted manifest document: the JSON object, newline-terminated.
pub open spec fn index_doc(idx: WorkspaceIndex) -> Seq<char> {
    index_json(idx.project_name@, idx.file_names(), idx.last_commit@) + seq!['\n']
}

/// Serializes the manifest to its JSON object form.
pub fn serialize_workspace_index(idx: &WorkspaceIndex) -> (r: String)
    ensures
        r@ == index_json(idx.project_name@, idx.file_names(), idx.last_commit@),
{
    let ghost names = idx.file_names();
    let mut arr = String::new();
    let n = idx.files.len();
    let mut i: usize = 0;
    while i < n
        invariant
            n == idx.files@.len(),
            i <= n,
            names == idx.file_names(),
            arr@ == files_json(names.take(i as int)),
        decreases n - i,
    {
        if i > 0 {
            arr.append(",");
        }
        arr.append("{\"name\":\"");
        let esc = escape_json(idx.files[i].name.as_str());
        arr.append(esc.as_str());
        arr.append("\"}");
        proof {
            let t = names.take(i + 1 as int);
            assert(t.drop_last() =~= names.take(i as int));
            assert(t.last() == names[i as int]);
            assert(names[i as int] == idx.files@[i as int].name@);
            if i == 0 {
                assert(t.len() == 1);
                assert(t[0] == names[0]);
                assert(arr@ =~= files_json(t));
            } else {
                assert(arr@ =~= files_json(t));
            }
        }
        i = i + 1;
    }
    proof {
        assert(names.take(n as int) =~= names);
    }
    let mut out = String::new();
    out.append("{\"project_name\":\"");
    let pn = escape_json(idx.project_name.as_str());
    out.append(pn.as_str());
    out.append("\",\"files\":[");
    out.append(arr.as_str());
    out.append("],\"last_commit\":\"");
    let lc = escape_json(idx.last_commit.as_str());
    out.append(lc.as_str());
    out.append("\"}");
    out
}

/// The stored manifest document, modelled by the text it holds.  Unlike
/// the logs, persisting replaces the content wholesale.
pub struct IndexStore {
    pub content: String,
}

impl IndexStore {
    /// An empty store.
    pub fn new() -> (r: Self)
        ensures
            r.content@ == Seq::<char>::empty(),
    {
        IndexStore { content: String::new() }
    }

    /// Replaces the stored document with the serialized manifest and
    /// returns exactly the bytes stored.  The outcome does not depend on
    /// what the store held before: persisting truncates, never appends.
    pub fn persist_index(&mut self, idx: &WorkspaceIndex) -> (doc: String)
        ensures
            doc@ == index_doc(*idx),
            final(self).content@ == index_doc(*idx),
    {
        let mut doc = serialize_workspace_index(idx);
        doc.append("\n");
        proof {
            reveal_strlit("\n");
            assert("\n"@ =~= seq!['\n']);
            assert(doc@ =~= index_doc(*idx));
        }
        let stored = doc.clone();
        self.content = stored;
        doc
    }
}

/// Builds the manifest for one scan and persists it, replacing any prior
/// document.  Returns the manifest and the exact bytes persisted.
pub fn build_and_persist_index(
    store: &mut IndexStore,
    entries: Vec<ScannedEntry>,
    project_name: String,
    resolved_commit: Option<String>,
) -> (r: (WorkspaceIndex, String))
    requires
        distinct_names(entries@),
    ensures
        r.0.project_name@ == project_name@,
        r.0.file_names() == file_names_of(entries@),
        match resolved_commit {
            Some(s) => r.0.last_commit@ == if s@.len() > 0 {
                s@
            } else {
                sentinel_commit()
            },
            None => r.0.last_commit@ == sentinel_commit(),
        },
        r.0.well_formed(),
        r.1@ == index_doc(r.0),
        final(store).content@ == index_doc(r.0),
{
    let idx = build_index(entries, project_name, resolved_commit);
    let doc = store.persist_index(&idx);
    (idx, doc)
}

} // verus!
