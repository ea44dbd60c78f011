//! Page assets and navigation records of the HTML output.
use vstd::prelude::*;
use crate::text::{concat, contains_str, has_infix};

verus! {

/// A stylesheet linked from every page.
#[derive(Debug, Clone)]
pub struct CSSFile {
    pub filename: String,
    pub priority: i32,
    pub media: Option<String>,
    pub id: Option<String>,
    pub rel: String,
    pub type_: String,
}

/// A script loaded by every page.
#[derive(Debug, Clone)]
pub struct JSFile {
    pub filename: String,
    pub priority: i32,
    pub loading_method: String,
    pub async_: bool,
    pub defer: bool,
}

/// A page's neighbours in reading order.
#[derive(Debug, Clone)]
pub struct DocumentRelation {
    pub parent: Option<String>,
    pub prev: Option<String>,
    pub next: Option<String>,
}

/// An index page as the HTML output lays it out.
#[derive(Debug, Clone)]
pub struct DomainIndex {
    pub name: String,
    pub localname: String,
    pub shortname: Option<String>,
    pub content: Vec<IndexEntry>,
    pub collapse: bool,
}

/// An entry of an index page, with its nested entries.
#[derive(Debug)]
pub struct IndexEntry {
    pub name: String,
    pub subentries: Vec<IndexEntry>,
    pub uri: String,
    pub display_name: String,
}

/// A deep copy of `e`, its nested entries included.
fn copy_entry(e: &IndexEntry) -> (r: IndexEntry)
    ensures
        r.name == e.name,
        r.uri == e.uri,
        r.display_name == e.display_name,
        r.subentries@.len() == e.subentries@.len(),
    decreases e,
{
    let mut subentries: Vec<IndexEntry> = Vec::new();
    let mut i: usize = 0;
    while i < e.subentries.len()
        invariant
            i <= e.subentries@.len(),
            subentries@.len() == i,
        decreases e.subentries@.len() - i,
    {
        proof {
            vstd::std_specs::vec::axiom_vec_index_decreases(e.subentries, i as int);
        }
        subentries.push(copy_entry(&e.subentries[i]));
        i += 1;
    }
    IndexEntry { name: e.name.clone(), subentries, uri: e.uri.clone(), display_name: e.display_name.clone() }
}

impl Clone for IndexEntry {
    fn clone(&self) -> Self {
        copy_entry(self)
    }
}

/// Where an asset is served from: under `_static/` unless it is a URL.
pub open spec fn asset_path(filename: Seq<char>) -> Seq<char> {
    if has_infix(filename, "://"@) {
        filename
    } else {
        "_static/"@ + filename
    }
}

fn static_path(filename: &str) -> (r: String)
    ensures
        r@ == asset_path(filename@),
{
    if contains_str(filename, "://") {
        String::from_str(filename)
    } else {
        concat("_static/", filename)
    }
}

impl CSSFile {
    /// A stylesheet, served from `_static/` unless `filename` is a URL.
    pub fn new(filename: &str, priority: i32, media: Option<String>, id: Option<String>) -> (r: Self)
        ensures
            r.filename@ == asset_path(filename@),
            r.priority == priority,
            r.media == media,
            r.id == id,
            r.rel@ == "stylesheet"@,
            r.type_@ == "text/css"@,
    {
        CSSFile {
            filename: static_path(filename),
            priority,
            media,
            id,
            rel: String::from_str("stylesheet"),
            type_: String::from_str("text/css"),
        }
    }
}

impl JSFile {
    /// A script loaded normally, served from `_static/` unless `filename`
    /// is empty or a URL.
    pub fn new(filename: &str, priority: i32, async_: bool, defer: bool) -> (r: Self)
        ensures
            filename@.len() > 0 ==> r.filename@ == asset_path(filename@),
            filename@.len() == 0 ==> r.filename@.len() == 0,
            r.priority == priority,
            r.loading_method@ == "normal"@,
            r.async_ == async_,
            r.defer == defer,
    {
        let path = if filename.unicode_len() > 0 {
            static_path(filename)
        } else {
            String::new()
        };
        JSFile { filename: path, priority, loading_method: String::from_str("normal"), async_, defer }
    }
}

} // verus!
