//! The domain types: one navigation entry, the in-memory shape of a scanned
//! tree (documents and directory listings), and the run configuration.
use vstd::prelude::*;

verus! {

/// Mathematical model of one navigation entry: the root-relative path as a
/// sequence of components (each a sequence of characters) and the title.
pub ghost struct EntryModel {
    pub path: Seq<Seq<char>>,
    pub title: Seq<char>,
}

/// One (path, title) pair: a navigable node of the generated index.
/// `path` holds the root-relative path, one component per element, never the
/// root prefix itself.
pub struct SummaryEntry {
    pub path: Vec<String>,
    pub title: String,
}

impl View for SummaryEntry {
    type V = EntryModel;

    open spec fn view(&self) -> EntryModel {
        EntryModel { path: self.path.deep_view(), title: self.title@ }
    }
}

impl DeepView for SummaryEntry {
    type V = EntryModel;

    open spec fn deep_view(&self) -> EntryModel {
        self.view()
    }
}

/// Mathematical model of one document handed to the library.
pub ghost struct DocModel {
    /// Absolute path (the configured root is still a prefix of it).
    pub path: Seq<Seq<char>>,
    /// The document's lines, or `None` when the file could not be read.
    pub lines: Option<Seq<Seq<char>>>,
}

/// One document of the scanned tree: its path, split into components, and its
/// content as lines (`None` when the file could not be opened). The caller
/// enumerates and reads files; this library never touches the filesystem.
pub struct Document {
    pub path: Vec<String>,
    pub lines: Option<Vec<String>>,
}

impl View for Document {
    type V = DocModel;

    open spec fn view(&self) -> DocModel {
        DocModel { path: self.path.deep_view(), lines: self.lines.deep_view() }
    }
}

impl DeepView for Document {
    type V = DocModel;

    open spec fn deep_view(&self) -> DocModel {
        self.view()
    }
}

/// Mathematical model of one directory listing.
pub ghost struct DirModel {
    pub path: Seq<Seq<char>>,
    pub docs: Seq<DocModel>,
    pub has_readme: bool,
}

/// One directory of the scanned tree: its own path, the documents directly
/// inside it (one level, non-recursive), and whether it already contains the
/// reserved index document (`README.md`).
pub struct DirListing {
    pub path: Vec<String>,
    pub docs: Vec<Document>,
    pub has_readme: bool,
}

impl View for DirListing {
    type V = DirModel;

    open spec fn view(&self) -> DirModel {
        DirModel { path: self.path.deep_view(), docs: self.docs.deep_view(), has_readme: self.has_readme }
    }
}

impl DeepView for DirListing {
    type V = DirModel;

    open spec fn deep_view(&self) -> DirModel {
        self.view()
    }
}

/// The run configuration, built once at startup and passed in explicitly.
pub struct Config {
    /// Root directory of the documentation tree, split into components.
    pub base_path: Vec<String>,
    /// Echo each rendered line as it is written.
    pub verbose: bool,
    /// Marker prefix that introduces a title line inside a document.
    pub trim_str: String,
    /// Derive every title from the file name instead of the content.
    pub title_from_name: bool,
    /// Walk directories and synthesize missing index entries.
    pub create_readmes: bool,
}

/// The base path handed to a relative-path computation was not actually a
/// prefix of the path: a caller-side configuration error, reported so the run
/// can be aborted with a clear message.
#[derive(Clone, Copy, Debug, PartialEq, Eq, Structural)]
pub struct NotABasePathError;

} // verus!
