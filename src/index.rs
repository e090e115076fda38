//! What the indexer reports about source files: languages, symbols,
//! dependencies and detected code patterns.
use crate::text::{chars_of, is_text, lower_of, to_lowercase};
use vstd::prelude::*;

verus! {

/// Supported programming languages.
#[derive(Debug, Clone, Copy, PartialEq, Eq, Hash, Structural)]
pub enum Language {
    Rust,
    JavaScript,
    TypeScript,
    Python,
    Go,
    Unknown,
}

/// The language of a lowercase file extension.
pub open spec fn language_of(ext: Seq<char>) -> Language {
    if ext == "rs"@ {
        Language::Rust
    } else if ext == "js"@ || ext == "jsx"@ || ext == "mjs"@ || ext == "cjs"@ {
        Language::JavaScript
    } else if ext == "ts"@ || ext == "tsx"@ {
        Language::TypeScript
    } else if ext == "py"@ || ext == "pyi"@ {
        Language::Python
    } else if ext == "go"@ {
        Language::Go
    } else {
        Language::Unknown
    }
}

impl Language {
    /// The language of a file extension, compared without regard to case.
    pub fn from_extension(ext: &str) -> (r: Language)
        ensures
            r == language_of(lower_of(ext@)),
    {
        let lowered = to_lowercase(ext);
        Language::from_lowered_extension(lowered.as_str())
    }

    /// The language of an extension already in lowercase.
    pub fn from_lowered_extension(ext: &str) -> (r: Language)
        ensures
            r == language_of(ext@),
    {
        let e = chars_of(ext);
        if is_text(&e, "rs") {
            Language::Rust
        } else if is_text(&e, "js") || is_text(&e, "jsx") || is_text(&e, "mjs") || is_text(&e, "cjs") {
            Language::JavaScript
        } else if is_text(&e, "ts") || is_text(&e, "tsx") {
            Language::TypeScript
        } else if is_text(&e, "py") || is_text(&e, "pyi") {
            Language::Python
        } else if is_text(&e, "go") {
            Language::Go
        } else {
            Language::Unknown
        }
    }

    /// A two-letter tag for the language.
    pub fn icon(&self) -> (r: &'static str)
        ensures
            r@ == match self {
                Language::Rust => "rs"@,
                Language::JavaScript => "js"@,
                Language::TypeScript => "ts"@,
                Language::Python => "py"@,
                Language::Go => "go"@,
                Language::Unknown => "??"@,
            },
    {
        match self {
            Language::Rust => "rs",
            Language::JavaScript => "js",
            Language::TypeScript => "ts",
            Language::Python => "py",
            Language::Go => "go",
            Language::Unknown => "??",
        }
    }
}

/// Kinds of symbols extracted from source.
#[derive(Debug, Clone, Copy, PartialEq, Eq, Structural)]
pub enum SymbolKind {
    Function,
    Method,
    Struct,
    Class,
    Enum,
    Interface,
    Trait,
    Module,
    Constant,
    Variable,
}

impl SymbolKind {
    /// A one-letter tag for the kind.
    pub fn icon(&self) -> (r: char)
        ensures
            r == match self {
                SymbolKind::Function | SymbolKind::Method => 'f',
                SymbolKind::Struct | SymbolKind::Class => 'S',
                SymbolKind::Enum => 'E',
                SymbolKind::Interface | SymbolKind::Trait => 'T',
                SymbolKind::Module => 'M',
                SymbolKind::Constant => 'C',
                SymbolKind::Variable => 'v',
            },
    {
        match self {
            SymbolKind::Function | SymbolKind::Method => 'f',
            SymbolKind::Struct | SymbolKind::Class => 'S',
            SymbolKind::Enum => 'E',
            SymbolKind::Interface | SymbolKind::Trait => 'T',
            SymbolKind::Module => 'M',
            SymbolKind::Constant => 'C',
            SymbolKind::Variable => 'v',
        }
    }
}

#[derive(Debug, Clone, Copy, PartialEq, Eq, Structural)]
pub enum Visibility {
    Public,
    Private,
    Internal,
}

/// A dependency or import found in the code.
#[derive(Debug, Clone)]
pub struct Dependency {
    pub from_file: String,
    pub import_path: String,
    pub line: usize,
    pub is_external: bool,
}

/// A code pattern detected in a file.
#[derive(Debug, Clone)]
pub struct Pattern {
    pub kind: PatternKind,
    pub file: String,
    pub line: usize,
    pub description: String,
}

/// Recognized code patterns.
#[derive(Debug, Clone, Copy, PartialEq, Eq, Structural)]
pub enum PatternKind {
    /// A function longer than fifty lines.
    LongFunction,
    /// Code nested more than four levels deep.
    DeepNesting,
    /// A function with more than five parameters.
    ManyParameters,
    /// A file longer than five hundred lines.
    GodModule,
    /// A repeated code pattern.
    DuplicatePattern,
    /// Error handling that may be missing.
    MissingErrorHandling,
    /// An import that appears unused.
    UnusedImport,
    /// A TODO or FIXME marker.
    TodoMarker,
}

/// How serious a pattern is, least serious first.
#[derive(Debug, Clone, Copy, PartialEq, Eq, PartialOrd, Ord, Structural)]
pub enum PatternSeverity {
    Info,
    Low,
    Medium,
    High,
}

pub open spec fn severity_of(k: PatternKind) -> PatternSeverity {
    match k {
        PatternKind::LongFunction => PatternSeverity::Medium,
        PatternKind::DeepNesting => PatternSeverity::High,
        PatternKind::ManyParameters => PatternSeverity::Low,
        PatternKind::GodModule => PatternSeverity::High,
        PatternKind::DuplicatePattern => PatternSeverity::Medium,
        PatternKind::MissingErrorHandling => PatternSeverity::High,
        PatternKind::UnusedImport => PatternSeverity::Low,
        PatternKind::TodoMarker => PatternSeverity::Info,
    }
}

pub open spec fn pattern_description(k: PatternKind) -> Seq<char> {
    match k {
        PatternKind::LongFunction => "Function exceeds 50 lines"@,
        PatternKind::DeepNesting => "Code nesting exceeds 4 levels"@,
        PatternKind::ManyParameters => "Function has more than 5 parameters"@,
        PatternKind::GodModule => "File exceeds 500 lines"@,
        PatternKind::DuplicatePattern => "Similar code pattern detected"@,
        PatternKind::MissingErrorHandling => "Error handling may be missing"@,
        PatternKind::UnusedImport => "Import appears unused"@,
        PatternKind::TodoMarker => "TODO/FIXME marker found"@,
    }
}

impl PatternKind {
    /// How serious the pattern is.
    pub fn severity(&self) -> (r: PatternSeverity)
        ensures
            r == severity_of(*self),
    {
        match self {
            PatternKind::LongFunction => PatternSeverity::Medium,
            PatternKind::DeepNesting => PatternSeverity::High,
            PatternKind::ManyParameters => PatternSeverity::Low,
            PatternKind::GodModule => PatternSeverity::High,
            PatternKind::DuplicatePattern => PatternSeverity::Medium,
            PatternKind::MissingErrorHandling => PatternSeverity::High,
            PatternKind::UnusedImport => PatternSeverity::Low,
            PatternKind::TodoMarker => PatternSeverity::Info,
        }
    }

    /// A one-line description of the pattern.
    pub fn description(&self) -> (r: &'static str)
        ensures
            r@ == pattern_description(*self),
    {
        match self {
            PatternKind::LongFunction => "Function exceeds 50 lines",
            PatternKind::DeepNesting => "Code nesting exceeds 4 levels",
            PatternKind::ManyParameters => "Function has more than 5 parameters",
            PatternKind::GodModule => "File exceeds 500 lines",
            PatternKind::DuplicatePattern => "Similar code pattern detected",
            PatternKind::MissingErrorHandling => "Error handling may be missing",
            PatternKind::UnusedImport => "Import appears unused",
            PatternKind::TodoMarker => "TODO/FIXME marker found",
        }
    }
}

/// Totals over an index.
#[derive(Debug, Clone)]
pub struct IndexStats {
    pub file_count: usize,
    pub total_loc: usize,
    pub total_sloc: usize,
    pub symbol_count: usize,
    pub pattern_count: usize,
    pub high_priority_patterns: usize,
}

/// Directory names never descended into while indexing.
pub open spec fn is_ignored_name(name: Seq<char>) -> bool {
    name == "target"@ || name == "node_modules"@ || name == ".git"@ || name == ".svn"@ || name
        == ".hg"@ || name == "dist"@ || name == "build"@ || name == "__pycache__"@ || name
        == ".pytest_cache"@ || name == "vendor"@ || name == ".idea"@ || name == ".vscode"@ || name
        == ".cosmos"@ || (name.len() > 0 && name[0] == '.')
}

/// Whether a file or directory with this name is left out of the index:
/// build output, dependency and tool directories, and hidden entries.
pub fn is_ignored(name: &str) -> (r: bool)
    ensures
        r == is_ignored_name(name@),
{
    let n = chars_of(name);
    is_text(&n, "target") || is_text(&n, "node_modules") || is_text(&n, ".git") || is_text(&n, ".svn")
        || is_text(&n, ".hg") || is_text(&n, "dist") || is_text(&n, "build") || is_text(
        &n,
        "__pycache__",
    ) || is_text(&n, ".pytest_cache") || is_text(&n, "vendor") || is_text(&n, ".idea") || is_text(
        &n,
        ".vscode",
    ) || is_text(&n, ".cosmos") || (n.len() > 0 && n[0] == '.')
}

/// A file tree for display.
#[derive(Debug, Default)]
pub struct FileTree {
    pub entries: Vec<FileTreeEntry>,
}

/// A node of the file tree.
#[derive(Debug)]
pub struct FileTreeEntry {
    pub name: String,
    pub path: String,
    pub is_dir: bool,
    pub depth: usize,
    pub priority: char,
    pub expanded: bool,
    pub children: Vec<FileTreeEntry>,
}

/// A row of the flattened tree.
#[derive(Debug, Clone)]
pub struct FlatTreeEntry {
    pub name: String,
    pub path: String,
    pub is_dir: bool,
    pub depth: usize,
    pub priority: char,
}

/// A row as a value.
pub struct FlatRow {
    pub name: Seq<char>,
    pub path: Seq<char>,
    pub is_dir: bool,
    pub depth: usize,
    pub priority: char,
}

pub open spec fn row_of(e: FileTreeEntry) -> FlatRow {
    FlatRow { name: e.name@, path: e.path@, is_dir: e.is_dir, depth: e.depth, priority: e.priority }
}

/// The rows of `es` in pre-order, descending only into expanded entries.
pub open spec fn flat_rows(es: Seq<FileTreeEntry>) -> Seq<FlatRow>
    decreases es, 1nat,
{
    if es.len() == 0 {
        seq![]
    } else {
        entry_rows(es[0]) + flat_rows(es.skip(1))
    }
}

/// The rows of one entry: itself, then its children's when expanded.
pub open spec fn entry_rows(e: FileTreeEntry) -> Seq<FlatRow>
    decreases e, 0nat,
{
    seq![row_of(e)] + if e.expanded {
        flat_rows(e.children@)
    } else {
        seq![]
    }
}

impl FileTree {
    /// An empty tree.
    pub fn new() -> (r: FileTree)
        ensures
            r.entries@.len() == 0,
    {
        FileTree { entries: Vec::new() }
    }

    /// The rows of the tree in display order: each entry, followed by the
    /// rows of its children when it is expanded.
    pub fn flatten(&self) -> (r: Vec<FlatTreeEntry>)
        ensures
            Seq::new(r@.len(), |i: int| flat_view(r@[i])) == flat_rows(self.entries@),
    {
        let mut result: Vec<FlatTreeEntry> = Vec::new();
        assert(rows_of(result@) =~= seq![]);
        flatten_into(&self.entries, &mut result);
        assert(seq![] + flat_rows(self.entries@) =~= flat_rows(self.entries@));
        result
    }
}

pub open spec fn flat_view(f: FlatTreeEntry) -> FlatRow {
    FlatRow { name: f.name@, path: f.path@, is_dir: f.is_dir, depth: f.depth, priority: f.priority }
}

pub open spec fn rows_of(v: Seq<FlatTreeEntry>) -> Seq<FlatRow> {
    Seq::new(v.len(), |i: int| flat_view(v[i]))
}

fn flatten_into(entries: &Vec<FileTreeEntry>, out: &mut Vec<FlatTreeEntry>)
    ensures
        rows_of(final(out)@) == rows_of(old(out)@) + flat_rows(entries@),
    decreases entries@,
{
    let ghost es = entries@;
    let ghost start = rows_of(out@);
    let mut i: usize = 0;
    assert(es.skip(0) =~= es);
    assert(start + flat_rows(es) =~= rows_of(out@) + flat_rows(es.skip(0)));
    while i < entries.len()
        invariant
            i <= es.len(),
            es == entries@,
            start + flat_rows(es) == rows_of(out@) + flat_rows(es.skip(i as int)),
        decreases es.len() - i,
    {
        let e = &entries[i];
        assert(es.skip(i as int)[0] == es[i as int]);
        assert(es.skip(i as int).skip(1) =~= es.skip(i + 1));
        assert(flat_rows(es.skip(i as int)) == entry_rows(*e) + flat_rows(es.skip(i + 1)));
        let ghost before = rows_of(out@);
        out.push(FlatTreeEntry {
            name: e.name.clone(),
            path: e.path.clone(),
            is_dir: e.is_dir,
            depth: e.depth,
            priority: e.priority,
        });
        assert(rows_of(out@) =~= before.push(row_of(*e)));
        if e.expanded {
            let ghost mid = rows_of(out@);
            flatten_into(&e.children, out);
            assert(rows_of(out@) =~= mid + flat_rows(e.children@));
        }
        assert(rows_of(out@) =~= before + entry_rows(*e));
        assert(start + flat_rows(es) =~= rows_of(out@) + flat_rows(es.skip(i + 1)));
        i = i + 1;
    }
    assert(es.skip(es.len() as int) =~= seq![]);
    assert(rows_of(out@) + flat_rows(seq![]) =~= rows_of(out@));
}

} // verus!
