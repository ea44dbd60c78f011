//! The parsed document and its parts, as the cache and the orchestrator see them.
use vstd::prelude::*;
use crate::clock::now_secs;

verus! {

/// A parsed source file. Times are whole seconds since the Unix epoch.
#[derive(Debug, Clone)]
pub struct Document {
    pub source_path: String,
    pub output_path: String,
    pub title: String,
    pub content: DocumentContent,
    pub metadata: DocumentMetadata,
    pub html: String,
    pub source_mtime: i64,
    pub build_time: i64,
    pub cross_refs: Vec<CrossReference>,
    pub toc: Vec<TocEntry>,
}

/// The parsed body of a document, by markup language.
#[derive(Debug, Clone)]
pub enum DocumentContent {
    RestructuredText(RstContent),
    Markdown(MarkdownContent),
    PlainText(String),
}

#[derive(Debug, Clone)]
pub struct RstContent {
    pub raw: String,
    pub ast: Vec<RstNode>,
    pub directives: Vec<RstDirective>,
}

/// Markdown body; the front matter is kept as its YAML text.
#[derive(Debug, Clone)]
pub struct MarkdownContent {
    pub raw: String,
    pub ast: Vec<MarkdownNode>,
    pub front_matter: Option<String>,
}

/// Descriptive fields of a document; custom fields map a name to JSON text.
#[derive(Debug, Clone)]
pub struct DocumentMetadata {
    pub authors: Vec<String>,
    pub created: Option<i64>,
    pub modified: Option<i64>,
    pub tags: Vec<String>,
    pub category: Option<String>,
    pub custom: Vec<(String, String)>,
}

#[derive(Debug, Clone)]
pub struct CrossReference {
    pub ref_type: String,
    pub target: String,
    pub text: Option<String>,
    pub line_number: usize,
}

#[derive(Debug)]
pub struct TocEntry {
    pub title: String,
    pub level: usize,
    pub anchor: String,
    pub line_number: usize,
    pub children: Vec<TocEntry>,
}

/// A node of a reStructuredText body. Options keep their source order.
#[derive(Debug, Clone)]
pub enum RstNode {
    Title { text: String, level: usize, line: usize },
    Paragraph { content: String, line: usize },
    CodeBlock { language: Option<String>, content: String, line: usize },
    List { items: Vec<String>, ordered: bool, line: usize },
    Table { headers: Vec<String>, rows: Vec<Vec<String>>, line: usize },
    Directive {
        name: String,
        args: Vec<String>,
        options: Vec<(String, String)>,
        content: String,
        line: usize,
    },
}

#[derive(Debug, Clone)]
pub enum MarkdownNode {
    Heading { text: String, level: usize, line: usize },
    Paragraph { content: String, line: usize },
    CodeBlock { language: Option<String>, content: String, line: usize },
    List { items: Vec<String>, ordered: bool, line: usize },
    Table { headers: Vec<String>, rows: Vec<Vec<String>>, line: usize },
}

#[derive(Debug, Clone)]
pub struct RstDirective {
    pub name: String,
    pub args: Vec<String>,
    pub options: Vec<(String, String)>,
    pub content: String,
    pub line: usize,
}

impl DocumentMetadata {
    pub fn new() -> (r: Self)
        ensures
            r.authors@.len() == 0,
            r.created.is_none(),
            r.modified.is_none(),
            r.tags@.len() == 0,
            r.category.is_none(),
            r.custom@.len() == 0,
    {
        DocumentMetadata {
            authors: Vec::new(),
            created: None,
            modified: None,
            tags: Vec::new(),
            category: None,
            custom: Vec::new(),
        }
    }
}

impl Document {
    /// An empty plain-text document whose times are both `now`.
    pub fn new_at(source_path: String, output_path: String, now: i64) -> (r: Self)
        ensures
            r.source_path == source_path,
            r.output_path == output_path,
            r.title@.len() == 0,
            r.content matches DocumentContent::PlainText(t) && t@.len() == 0,
            r.html@.len() == 0,
            r.source_mtime == now,
            r.build_time == now,
            r.cross_refs@.len() == 0,
            r.toc@.len() == 0,
    {
        Document {
            source_path,
            output_path,
            title: String::new(),
            content: DocumentContent::PlainText(String::new()),
            metadata: DocumentMetadata::new(),
            html: String::new(),
            source_mtime: now,
            build_time: now,
            cross_refs: Vec::new(),
            toc: Vec::new(),
        }
    }

    /// An empty plain-text document whose times are both the current time.
    pub fn new(source_path: String, output_path: String) -> (r: Self)
        ensures
            r.source_path == source_path,
            r.output_path == output_path,
            r.title@.len() == 0,
            r.content matches DocumentContent::PlainText(t) && t@.len() == 0,
            r.html@.len() == 0,
            r.source_mtime == r.build_time,
            r.cross_refs@.len() == 0,
            r.toc@.len() == 0,
    {
        let now = now_secs();
        Self::new_at(source_path, output_path, now)
    }

    /// Sets the rendered HTML, stamping the build time with the current time.
    pub fn set_html(&mut self, html: String)
        ensures
            *final(self) == (Document { html, build_time: final(self).build_time, ..*old(self) }),
    {
        let now = now_secs();
        self.set_html_at(html, now);
    }

    pub fn set_title(&mut self, title: String)
        ensures
            *final(self) == (Document { title, ..*old(self) }),
    {
        self.title = title;
    }

    pub fn add_cross_ref(&mut self, cross_ref: CrossReference)
        ensures
            final(self).cross_refs@ == old(self).cross_refs@.push(cross_ref),
            *final(self) == (Document { cross_refs: final(self).cross_refs, ..*old(self) }),
    {
        self.cross_refs.push(cross_ref);
    }

    pub fn add_toc_entry(&mut self, entry: TocEntry)
        ensures
            final(self).toc@ == old(self).toc@.push(entry),
            *final(self) == (Document { toc: final(self).toc, ..*old(self) }),
    {
        self.toc.push(entry);
    }

    /// Sets the rendered HTML, stamping the build time with `now`.
    pub fn set_html_at(&mut self, html: String, now: i64)
        ensures
            *final(self) == (Document { html, build_time: now, ..*old(self) }),
    {
        self.html = html;
        self.build_time = now;
    }
}

/// A deep copy of `e`, its children included.
fn copy_toc_entry(e: &TocEntry) -> (r: TocEntry)
    ensures
        r.title == e.title,
        r.level == e.level,
        r.anchor == e.anchor,
        r.line_number == e.line_number,
        r.children@.len() == e.children@.len(),
    decreases e,
{
    let mut children: Vec<TocEntry> = Vec::new();
    let mut i: usize = 0;
    while i < e.children.len()
        invariant
            i <= e.children@.len(),
            children@.len() == i,
        decreases e.children@.len() - i,
    {
        proof {
            vstd::std_specs::vec::axiom_vec_index_decreases(e.children, i as int);
        }
        children.push(copy_toc_entry(&e.children[i]));
        i += 1;
    }
    TocEntry {
        title: e.title.clone(),
        level: e.level,
        anchor: e.anchor.clone(),
        line_number: e.line_number,
        children,
    }
}

impl Clone for TocEntry {
    fn clone(&self) -> Self {
        copy_toc_entry(self)
    }
}

impl TocEntry {
    pub fn new(title: String, level: usize, anchor: String, line_number: usize) -> (r: Self)
        ensures
            r.title == title,
            r.level == level,
            r.anchor == anchor,
            r.line_number == line_number,
            r.children@.len() == 0,
    {
        TocEntry { title, level, anchor, line_number, children: Vec::new() }
    }

    pub fn add_child(&mut self, child: TocEntry)
        ensures
            final(self).children@ == old(self).children@.push(child),
            *final(self) == (TocEntry { children: final(self).children, ..*old(self) }),
    {
        self.children.push(child);
    }
}

} // verus!
