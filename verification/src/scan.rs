use vstd::prelude::*;

use crate::text::ends_with_ci;
use crate::text::ends_with_ignore_ascii_case;
use crate::text::lemma_lex_le_total;
use crate::text::lemma_lex_le_trans;
use crate::text::lex_le;
use crate::text::str_lex_le;

verus! {

/// One directory entry as the filesystem reports it: the entry's bare name,
/// its full path, and whether it is a regular file.
pub struct FolderEntry {
    pub name: String,
    pub path: String,
    pub is_file: bool,
}

/// A word-processor document found by the scan: the file's name and its
/// absolute path.
pub struct DocumentRef {
    pub name: String,
    pub path: String,
}

/// The mathematical content of a [`DocumentRef`].
pub struct DocView {
    pub name: Seq<char>,
    pub path: Seq<char>,
}

impl View for DocumentRef {
    type V = DocView;

    open spec fn view(&self) -> DocView {
        DocView { name: self.name@, path: self.path@ }
    }
}

/// A name of a word-processor document: it ends, case-insensitively, with
/// ".docx" or ".doc".
pub open spec fn is_word_name(s: Seq<char>) -> bool {
    ends_with_ci(s, ".docx"@) || ends_with_ci(s, ".doc"@)
}

/// Decides [`is_word_name`].
pub fn name_has_word_extension(name: &str) -> (r: bool)
    ensures
        r == is_word_name(name@),
{
    ends_with_ignore_ascii_case(name, ".docx") || ends_with_ignore_ascii_case(name, ".doc")
}

/// Whether the scan keeps a directory entry: regular files with a
/// word-processor name.
pub open spec fn keeps_entry(e: FolderEntry) -> bool {
    e.is_file && is_word_name(e.name@)
}

/// The documents the scan keeps, in directory order.
pub open spec fn word_docs(entries: Seq<FolderEntry>) -> Seq<DocView>
    decreases entries.len(),
{
    if entries.len() == 0 {
        Seq::empty()
    } else if keeps_entry(entries.last()) {
        word_docs(entries.drop_last()).push(
            DocView { name: entries.last().name@, path: entries.last().path@ },
        )
    } else {
        word_docs(entries.drop_last())
    }
}

/// The views of a sequence of documents.
pub open spec fn doc_views(s: Seq<DocumentRef>) -> Seq<DocView> {
    s.map_values(|d: DocumentRef| d@)
}

/// Sorted lexicographically by file name.
pub open spec fn sorted_by_name(s: Seq<DocView>) -> bool {
    forall|i: int, j: int| 0 <= i < j < s.len() ==> lex_le(s[i].name, s[j].name)
}

/// Where a newly arrived document goes among the already sorted ones: past
/// every document whose name does not come after its own, so that equal
/// names keep earlier arrivals first.
pub open spec fn insert_position(s: Seq<DocView>, d: DocView) -> int
    decreases s.len(),
{
    if s.len() == 0 {
        0
    } else if lex_le(s[0].name, d.name) {
        1 + insert_position(s.drop_first(), d)
    } else {
        0
    }
}

/// Stable insertion sort of the documents by name: each document, in arrival
/// order, placed at its [`insert_position`].
pub open spec fn sorted_docs(s: Seq<DocView>) -> Seq<DocView>
    decreases s.len(),
{
    if s.len() == 0 {
        Seq::empty()
    } else {
        let rest = sorted_docs(s.drop_last());
        rest.insert(insert_position(rest, s.last()), s.last())
    }
}

/// The position that scanning for the first name that comes after `d`'s
/// finds is the [`insert_position`].
proof fn lemma_insert_position_is(s: Seq<DocView>, d: DocView, j: int)
    requires
        0 <= j <= s.len(),
        forall|k: int| 0 <= k < j ==> lex_le(s[k].name, d.name),
        j < s.len() ==> !lex_le(s[j].name, d.name),
    ensures
        insert_position(s, d) == j,
    decreases s.len(),
{
    if s.len() > 0 && j > 0 {
        assert(lex_le(s[0].name, d.name));
        assert forall|k: int| 0 <= k < j - 1 implies lex_le(
            s.drop_first()[k].name,
            d.name,
        ) by {
            assert(s.drop_first()[k] == s[k + 1]);
        }
        if j - 1 < s.len() - 1 {
            assert(s.drop_first()[j - 1] == s[j]);
        }
        lemma_insert_position_is(s.drop_first(), d, j - 1);
    }
}

/// Keeps exactly the word-processor files among `entries`, in directory
/// order.
fn filter_word_entries(entries: &Vec<FolderEntry>) -> (docs: Vec<DocumentRef>)
    ensures
        doc_views(docs@) == word_docs(entries@),
{
    let mut docs: Vec<DocumentRef> = Vec::new();
    let mut i: usize = 0;
    proof {
        assert(doc_views(docs@) =~= word_docs(entries@.take(0)));
    }
    while i < entries.len()
        invariant
            i <= entries@.len(),
            doc_views(docs@) == word_docs(entries@.take(i as int)),
        decreases entries@.len() - i,
    {
        let ghost prev = docs@;
        let e = &entries[i];
        if e.is_file && name_has_word_extension(e.name.as_str()) {
            docs.push(DocumentRef { name: e.name.clone(), path: e.path.clone() });
        }
        proof {
            assert(entries@.take(i as int + 1).drop_last() =~= entries@.take(i as int));
            assert(entries@.take(i as int + 1).last() == entries@[i as int]);
            if keeps_entry(entries@[i as int]) {
                assert(doc_views(docs@) =~= doc_views(prev).push(
                    DocView { name: entries@[i as int].name@, path: entries@[i as int].path@ },
                ));
            }
        }
        i += 1;
    }
    proof {
        assert(entries@.take(entries@.len() as int) =~= entries@);
    }
    docs
}

/// Sorts the documents by file name, lexicographically; the collection of
/// documents is kept as it is.
fn sort_documents(docs: Vec<DocumentRef>) -> (r: Vec<DocumentRef>)
    ensures
        doc_views(r@) == sorted_docs(doc_views(docs@)),
        doc_views(r@).to_multiset() == doc_views(docs@).to_multiset(),
        sorted_by_name(doc_views(r@)),
{
    broadcast use vstd::seq_lib::group_to_multiset_ensures;

    let mut out: Vec<DocumentRef> = Vec::new();
    let mut i: usize = 0;
    proof {
        assert(doc_views(out@) =~= Seq::<DocView>::empty());
        assert(doc_views(docs@.take(0)) =~= Seq::<DocView>::empty());
    }
    while i < docs.len()
        invariant
            i <= docs@.len(),
            doc_views(out@) == sorted_docs(doc_views(docs@.take(i as int))),
            doc_views(out@).to_multiset() == doc_views(docs@.take(i as int)).to_multiset(),
            sorted_by_name(doc_views(out@)),
        decreases docs@.len() - i,
    {
        let d = DocumentRef { name: docs[i].name.clone(), path: docs[i].path.clone() };
        let ghost dval = d;
        let ghost dv = dval@;
        let ghost prev = out@;
        let ghost pv = doc_views(prev);
        proof {
            assert(dv == docs@[i as int]@);
        }
        let mut j: usize = 0;
        while j < out.len() && str_lex_le(out[j].name.as_str(), d.name.as_str())
            invariant
                j <= out@.len(),
                out@ == prev,
                d@ == dv,
                forall|k: int| 0 <= k < j ==> lex_le(doc_views(out@)[k].name, dv.name),
            decreases out@.len() - j,
        {
            j += 1;
        }
        proof {
            if (j as int) < pv.len() {
                lemma_lex_le_total(pv[j as int].name, dv.name);
                assert(lex_le(dv.name, pv[j as int].name));
            }
            lemma_insert_position_is(pv, dv, j as int);
        }
        out.insert(j, d);
        proof {
            prev.insert_ensures(j as int, dval);
            pv.insert_ensures(j as int, dv);
            assert(out@ == prev.insert(j as int, dval));
            let newv = doc_views(out@);
            assert(newv =~= pv.insert(j as int, dv));
            // the collection is unchanged up to the one insertion
            vstd::seq_lib::to_multiset_insert(pv, j as int, dv);
            assert(newv.to_multiset() == pv.to_multiset().insert(dv));
            assert(doc_views(docs@.take(i as int + 1)) =~= doc_views(docs@.take(i as int)).push(
                dv,
            )) by {
                assert(docs@.take(i as int + 1).drop_last() =~= docs@.take(i as int));
            }
            vstd::seq_lib::to_multiset_build(doc_views(docs@.take(i as int)), dv);
            assert(doc_views(docs@.take(i as int + 1)).to_multiset() == doc_views(
                docs@.take(i as int),
            ).to_multiset().insert(dv));
            // the spec's stable insertion lands at the same position
            assert(doc_views(docs@.take(i as int + 1)).drop_last() =~= doc_views(
                docs@.take(i as int),
            ));
            assert(doc_views(docs@.take(i as int + 1)).last() == dv);
            assert(sorted_docs(doc_views(docs@.take(i as int + 1))) == pv.insert(j as int, dv));
            // the new document stands at its place in the order
            assert forall|x: int, y: int| 0 <= x < y < newv.len() implies lex_le(
                newv[x].name,
                newv[y].name,
            ) by {
                if y < j {
                    assert(lex_le(pv[x].name, pv[y].name));
                } else if x < j && y == j {
                    assert(lex_le(pv[x].name, dv.name));
                } else if x < j && y > j {
                    assert(lex_le(pv[x].name, pv[y - 1].name));
                } else if x == j && y > j {
                    assert(lex_le(dv.name, pv[j as int].name));
                    if y - 1 > j {
                        lemma_lex_le_trans(dv.name, pv[j as int].name, pv[y - 1].name);
                    }
                } else {
                    assert(lex_le(pv[x - 1].name, pv[y - 1].name));
                }
            }
        }
        i += 1;
    }
    proof {
        assert(docs@.take(docs@.len() as int) =~= docs@);
    }
    out
}

/// Why a folder could not be scanned.
pub enum ScanError {
    /// The folder itself could not be enumerated.
    Folder { detail: String },
    /// One of the folder's entries could not be read.
    Entry { detail: String },
}

/// The outcome of the folder scan: either the folder's path with the
/// documents found, or a single error message — never a partial listing.
pub enum ScanOutcome {
    Listing { folder_path: String, word_files: Vec<DocumentRef> },
    Error { message: String },
}

/// Builds the scan's outcome from the folder's path and the enumeration the
/// filesystem produced. A successful read yields exactly the word-processor
/// files, case-insensitively matched, sorted lexically by name, and no
/// others; any read failure yields an error message embedding the failure's
/// text, and no file list.
pub fn scan_outcome(folder_path: String, read: Result<Vec<FolderEntry>, ScanError>) -> (r:
    ScanOutcome)
    ensures
        match read {
            Ok(entries) => r matches ScanOutcome::Listing { folder_path: fp, word_files: docs }
                && fp@ == folder_path@ && doc_views(docs@) == sorted_docs(word_docs(entries@))
                && doc_views(docs@).to_multiset() == word_docs(entries@).to_multiset()
                && sorted_by_name(doc_views(docs@)),
            Err(ScanError::Folder { detail }) => r matches ScanOutcome::Error { message } && message@
                == "failed to read folder: "@ + detail@,
            Err(ScanError::Entry { detail }) => r matches ScanOutcome::Error { message } && message@
                == "failed to read directory entry: "@ + detail@,
        },
{
    match read {
        Ok(entries) => {
            let docs = sort_documents(filter_word_entries(&entries));
            ScanOutcome::Listing { folder_path, word_files: docs }
        },
        Err(ScanError::Folder { detail }) => ScanOutcome::Error {
            message: String::from_str("failed to read folder: ").concat(detail.as_str()),
        },
        Err(ScanError::Entry { detail }) => ScanOutcome::Error {
            message: String::from_str("failed to read directory entry: ").concat(detail.as_str()),
        },
    }
}

/// The outcome when the user dismisses the folder-selection prompt.
pub fn cancelled_scan() -> (r: ScanOutcome)
    ensures
        r matches ScanOutcome::Error { message } && message@ == "user cancelled selection"@,
{
    ScanOutcome::Error { message: String::from_str("user cancelled selection") }
}

} // verus!
