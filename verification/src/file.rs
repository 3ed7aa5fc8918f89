//! The in-memory document: its rows, its optional backing path, and its
//! save state.
//!
//! A document is *registered* once it has a backing path (it was saved to or
//! opened from one).  `saved` is meaningful only while registered; an
//! unregistered document counts as changed exactly when it is non-empty,
//! since it has nothing to be saved to yet.  A generation counter ticks on
//! every content mutation, so that a save that finished after further edits
//! is not mistaken for having saved them.
//!
//! Reading and writing the container file itself is the application layer's
//! task: this module turns a document into container bytes and back.

use vstd::prelude::*;
use vstd::utf8::{decode_utf8, encode_utf8, valid_utf8};

use crate::crypt::{decrypt_bytes, encrypt_bytes, unwrap_of, IoKind, StoreError};
use crate::csv::{
    spec_decode_doc, spec_encode_doc, spec_parse_error_message, Csv, CsvRow, ParseError, RowModel,
};
use crate::text::string_from_utf8;

verus! {

/// Why opening or saving a document failed.
#[derive(Clone, Copy, Debug, PartialEq, Eq, Structural)]
pub enum FileError {
    /// The encrypted store failed (also covers the underlying read/write).
    Crypto(StoreError),
    /// The decrypted text is no well-formed document.
    CsvParse(ParseError),
}

/// The message shown for each file error.
pub open spec fn spec_file_error_message(e: FileError) -> Seq<char> {
    match e {
        FileError::Crypto(se) => crate::crypt::spec_store_error_message(se),
        FileError::CsvParse(pe) => "Failed to parse csv: "@ + spec_parse_error_message(pe),
    }
}

impl FileError {
    /// A human-readable description of the error.
    pub fn message(&self) -> (r: String)
        ensures
            r@ == spec_file_error_message(*self),
    {
        match self {
            FileError::Crypto(se) => String::from_str(se.message()),
            FileError::CsvParse(pe) => {
                let mut out = String::from_str("Failed to parse csv: ");
                out.append(pe.message());
                out
            },
        }
    }
}

/// The mathematical model of a document's full state.
pub ghost struct FileModel {
    pub path: Option<Seq<char>>,
    pub rows: Seq<RowModel>,
    pub saved: bool,
    pub generation: int,
}

/// The document under edit, with its registration and save state.
#[derive(Debug)]
pub struct File {
    /// Path to the backing file; `None` while unregistered.
    path: Option<String>,
    /// Contents of the document.
    contents: Csv,
    /// Whether the backing file holds the current contents.
    saved: bool,
    /// Ticks on every content mutation.
    generation: u64,
}

impl View for File {
    type V = FileModel;

    closed spec fn view(&self) -> FileModel {
        FileModel {
            path: match self.path {
                Some(p) => Some(p@),
                None => None,
            },
            rows: self.contents@,
            saved: self.saved,
            generation: self.generation as int,
        }
    }
}

/// Whether a document in state `m` counts as changed: registered and not
/// saved, or unregistered and non-empty.
pub open spec fn spec_is_changed(m: FileModel) -> bool {
    if m.path is Some {
        !m.saved
    } else {
        m.rows.len() != 0
    }
}

impl Default for File {
    /// A fresh, empty, unregistered document.
    fn default() -> (r: Self)
        ensures
            r@.path is None,
            r@.rows == Seq::<RowModel>::empty(),
            !r@.saved,
            r@.generation == 0,
    {
        File { path: None, contents: Csv::default(), saved: false, generation: 0 }
    }
}

impl File {
    /// A fresh, empty, unregistered document.
    pub fn new_empty() -> (r: Self)
        ensures
            r@.path is None,
            r@.rows == Seq::<RowModel>::empty(),
            !r@.saved,
            r@.generation == 0,
    {
        File::default()
    }

    /// A document in a chosen state (generation starts at zero).
    pub fn from_parts(path: Option<String>, contents: Csv, saved: bool) -> (r: Self)
        ensures
            r@.path == (match path {
                Some(p) => Some::<Seq<char>>(p@),
                None => None::<Seq<char>>,
            }),
            r@.rows == contents@,
            r@.saved == saved,
            r@.generation == 0,
    {
        File { path, contents, saved, generation: 0 }
    }

    /// True exactly when the document is registered.
    fn is_registered(&self) -> (r: bool)
        ensures
            r == (self@.path is Some),
    {
        self.path.is_some()
    }

    /// True exactly when the document is registered and saved.
    pub fn is_registered_and_saved(&self) -> (r: bool)
        ensures
            r == (self@.path is Some && self@.saved),
    {
        self.is_registered() && self.saved
    }

    /// True exactly when the document is unregistered and empty.
    pub fn is_unregistered_and_unchanged(&self) -> (r: bool)
        ensures
            r == (self@.path is None && self@.rows.len() == 0),
    {
        !self.is_registered() && self.contents.rows.len() == 0
    }

    /// True exactly when the document has changes that no save holds:
    /// registered and not saved, or unregistered and non-empty.
    pub fn is_changed(&self) -> (r: bool)
        ensures
            r == spec_is_changed(self@),
    {
        if self.is_registered() {
            !self.saved
        } else {
            self.contents.rows.len() != 0
        }
    }

    /// The document contents, read-only.
    pub fn contents(&self) -> (r: &Csv)
        ensures
            r@ == self@.rows,
    {
        &self.contents
    }

    /// The document contents, for direct mutation.  Pair every mutation
    /// through this with a call to [`File::mark_as_unsaved`]; the editing
    /// methods below do both in one step.
    pub fn contents_mut(&mut self) -> (r: &mut Csv)
        ensures
            r@ == old(self)@.rows,
            final(self)@ == (FileModel { rows: final(r)@, ..old(self)@ }),
    {
        &mut self.contents
    }

    /// The generation of the current contents.
    pub fn generation(&self) -> (r: u64)
        ensures
            r == self@.generation,
    {
        self.generation
    }

    /// Records a content mutation: drops `saved` when the document was
    /// registered and saved (a no-op otherwise), and always advances the
    /// generation.
    pub fn mark_as_unsaved(&mut self)
        ensures
            final(self)@.path == old(self)@.path,
            final(self)@.rows == old(self)@.rows,
            final(self)@.saved == (if old(self)@.path is Some {
                false
            } else {
                old(self)@.saved
            }),
            final(self)@.generation != old(self)@.generation,
            final(self)@.generation == (if old(self)@.generation == u64::MAX as int {
                0int
            } else {
                old(self)@.generation + 1
            }),
    {
        // An unregistered document's dirtiness is derived from its
        // contents, not stored, so only the registered-and-saved state
        // changes here.
        if self.is_registered_and_saved() {
            self.saved = false;
        }
        self.generation = if self.generation == u64::MAX {
            0
        } else {
            self.generation + 1
        };
    }

    /// Marks the document saved.  To be called only once a write of the
    /// current contents truly completed; the coordinator does so for
    /// background saves.
    pub fn force_set_saved(&mut self)
        ensures
            final(self)@ == (FileModel { saved: true, ..old(self)@ }),
    {
        self.saved = true;
    }

    /// The backing path; `None` while unregistered.
    pub fn path(&self) -> (r: Option<&String>)
        ensures
            match r {
                Some(p) => self@.path == Some(p@),
                None => self@.path is None,
            },
    {
        self.path.as_ref()
    }

    /// Registers the document at `path`.
    pub fn set_path(&mut self, path: String)
        ensures
            final(self)@ == (FileModel { path: Some(path@), ..old(self)@ }),
    {
        self.path = Some(path);
    }

    /// Appends a row at the bottom and records the mutation.
    pub fn push_row(&mut self, row: CsvRow)
        ensures
            final(self)@.rows == old(self)@.rows.push(row@),
            final(self)@.path == old(self)@.path,
            final(self)@.saved == (if old(self)@.path is Some {
                false
            } else {
                old(self)@.saved
            }),
            final(self)@.generation != old(self)@.generation,
    {
        self.contents.rows.push(row);
        proof {
            assert(self.contents@ =~= old(self).contents@.push(self.contents.rows@.last()@));
        }
        self.mark_as_unsaved();
    }

    /// Inserts a row at position `i` and records the mutation.
    pub fn insert_row(&mut self, i: usize, row: CsvRow)
        requires
            i <= old(self)@.rows.len(),
        ensures
            final(self)@.rows == old(self)@.rows.insert(i as int, row@),
            final(self)@.path == old(self)@.path,
            final(self)@.saved == (if old(self)@.path is Some {
                false
            } else {
                old(self)@.saved
            }),
            final(self)@.generation != old(self)@.generation,
    {
        self.contents.rows.insert(i, row);
        proof {
            assert(self.contents@ =~= old(self).contents@.insert(i as int, row@));
        }
        self.mark_as_unsaved();
    }

    /// Removes the row at position `i` and records the mutation.
    pub fn remove_row(&mut self, i: usize) -> (r: CsvRow)
        requires
            i < old(self)@.rows.len(),
        ensures
            final(self)@.rows == old(self)@.rows.remove(i as int),
            r@ == old(self)@.rows[i as int],
            final(self)@.path == old(self)@.path,
            final(self)@.saved == (if old(self)@.path is Some {
                false
            } else {
                old(self)@.saved
            }),
            final(self)@.generation != old(self)@.generation,
    {
        let row = self.contents.rows.remove(i);
        proof {
            assert(self.contents@ =~= old(self).contents@.remove(i as int));
        }
        self.mark_as_unsaved();
        row
    }

    /// Replaces the row at position `i` and records the mutation.
    pub fn replace_row(&mut self, i: usize, row: CsvRow)
        requires
            i < old(self)@.rows.len(),
        ensures
            final(self)@.rows == old(self)@.rows.update(i as int, row@),
            final(self)@.path == old(self)@.path,
            final(self)@.saved == (if old(self)@.path is Some {
                false
            } else {
                old(self)@.saved
            }),
            final(self)@.generation != old(self)@.generation,
    {
        self.contents.rows.set(i, row);
        proof {
            assert(self.contents@ =~= old(self).contents@.update(i as int, row@));
        }
        self.mark_as_unsaved();
    }

    /// Serializes the current contents and encrypts them under `key`: the
    /// container bytes to be written to the backing file.  Whatever
    /// container comes back, decrypting it under the same key yields
    /// exactly the serialized document.
    pub fn encode_encrypted(&self, key: &str) -> (r: Result<Vec<u8>, FileError>)
        ensures
            match r {
                Ok(c) => unwrap_of(c@, encode_utf8(key@)) == Some(
                    encode_utf8(spec_encode_doc(self@.rows)),
                ),
                Err(e) => e is Crypto,
            },
    {
        let text = self.contents.encode();
        let bytes = text.as_str().as_bytes_vec();
        match encrypt_bytes(bytes.as_slice(), key.as_bytes()) {
            Ok(c) => Ok(c),
            Err(se) => Err(FileError::Crypto(se)),
        }
    }

    /// Decrypts container bytes under `key` and parses them: the document
    /// registered at `path` and marked saved, exactly when the container
    /// authenticates, holds text, and the text parses; the precise error
    /// otherwise.
    pub fn open_decrypted(path: String, container: &[u8], key: &str) -> (r: Result<File, FileError>)
        ensures
            match unwrap_of(container@, encode_utf8(key@)) {
                Some(p) => {
                    if !valid_utf8(p) {
                        r == Err::<File, FileError>(
                            FileError::Crypto(StoreError::Io(IoKind::InvalidData)),
                        )
                    } else {
                        match spec_decode_doc(decode_utf8(p)) {
                            Ok(rows) => match r {
                                Ok(f) => f@ == FileModel {
                                    path: Some(path@),
                                    rows,
                                    saved: true,
                                    generation: 0,
                                },
                                Err(_) => false,
                            },
                            Err(pe) => r == Err::<File, FileError>(FileError::CsvParse(pe)),
                        }
                    }
                },
                None => match r {
                    Err(FileError::Crypto(_)) => true,
                    _ => false,
                },
            },
    {
        let plain = match decrypt_bytes(container, key.as_bytes()) {
            Ok(p) => p,
            Err(se) => {
                return Err(FileError::Crypto(se));
            },
        };
        let text = match string_from_utf8(plain.as_slice()) {
            Some(t) => t,
            None => {
                return Err(FileError::Crypto(StoreError::Io(IoKind::InvalidData)));
            },
        };
        let contents = match Csv::decode(text.as_str()) {
            Ok(c) => c,
            Err(pe) => {
                return Err(FileError::CsvParse(pe));
            },
        };
        Ok(File { path: Some(path), contents, saved: true, generation: 0 })
    }
}

/// Saving and re-opening loses nothing: a container produced by
/// [`File::encode_encrypted`] from a document of clean rows holds, once
/// decrypted under the same key, text that decodes to exactly those rows.
/// Together with the contract of [`File::open_decrypted`] this says that
/// such a container opens to an equal document, registered and saved.
pub proof fn lemma_save_open_round_trip(rows: Seq<RowModel>)
    requires
        forall|k: int| 0 <= k < rows.len() ==> crate::csv::row_clean(#[trigger] rows[k]),
    ensures
        ({
            let plain = encode_utf8(spec_encode_doc(rows));
            &&& valid_utf8(plain)
            &&& spec_decode_doc(decode_utf8(plain)) == Ok::<Seq<RowModel>, ParseError>(rows)
        }),
{
    vstd::utf8::encode_utf8_valid_utf8(spec_encode_doc(rows));
    vstd::utf8::encode_utf8_decode_utf8(spec_encode_doc(rows));
    crate::csv::lemma_doc_round_trip(rows);
}

} // verus!
