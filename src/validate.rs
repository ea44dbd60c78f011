//! Post-pass validation: dangling navigation entries and orphaned documents.
use vstd::prelude::*;
use crate::document::{Document, DocumentContent, RstNode};
use crate::error::{missing_ref_message, orphan_message, BuildWarning, WarningType};
use crate::text::{
    concat, has_prefix, split_lines, split_lines_str, starts_with, str_eq, trim, trim_str, views,
};

verus! {

/// Whether a trimmed line of a navigation block names a target.
pub open spec fn is_entry_line(t: Seq<char>) -> bool {
    t.len() > 0 && !has_prefix(t, ":"@) && !has_prefix(t, ".."@)
}

/// The targets named by the lines of a navigation block, in order.
pub open spec fn entries_of_lines(lines: Seq<Seq<char>>) -> Seq<Seq<char>>
    decreases lines.len(),
{
    if lines.len() == 0 {
        Seq::empty()
    } else {
        let prev = entries_of_lines(lines.drop_last());
        let t = trim(lines.last());
        if is_entry_line(t) {
            prev.push(t)
        } else {
            prev
        }
    }
}

/// The targets of every navigation block among `nodes`, in order.
pub open spec fn entries_of_nodes(nodes: Seq<RstNode>) -> Seq<Seq<char>>
    decreases nodes.len(),
{
    if nodes.len() == 0 {
        Seq::empty()
    } else {
        let prev = entries_of_nodes(nodes.drop_last());
        match nodes.last() {
            RstNode::Directive { name, content, .. } => if name@ == "toctree"@ {
                prev + entries_of_lines(split_lines(content@))
            } else {
                prev
            },
            _ => prev,
        }
    }
}

/// The navigation targets of a document: only reStructuredText has them.
pub open spec fn toctree_entries(doc: Document) -> Seq<Seq<char>> {
    match doc.content {
        DocumentContent::RestructuredText(rst) => entries_of_nodes(rst.ast@),
        _ => Seq::empty(),
    }
}

fn entries_in_block(content: &str, out: &mut Vec<String>)
    ensures
        views(final(out)@) == views(old(out)@) + entries_of_lines(split_lines(content@)),
{
    let lines = split_lines_str(content);
    let ghost start = views(out@);
    let mut i: usize = 0;
    while i < lines.len()
        invariant
            i <= lines@.len(),
            views(lines@) == split_lines(content@),
            views(out@) == start + entries_of_lines(views(lines@).take(i as int)),
        decreases lines@.len() - i,
    {
        let t = trim_str(lines[i].as_str());
        let ghost tk = views(lines@).take(i + 1);
        assert(tk.drop_last() =~= views(lines@).take(i as int));
        assert(tk.last() == lines@[i as int]@);
        if t.unicode_len() > 0 && !starts_with(t.as_str(), ":") && !starts_with(t.as_str(), "..") {
            proof {
                assert(views(out@.push(t)) =~= views(out@).push(t@));
            }
            out.push(t);
        }
        i += 1;
    }
    assert(views(lines@).take(lines@.len() as int) =~= views(lines@));
}

/// The targets listed by the document's navigation blocks, or `None` when
/// it lists none.
pub fn extract_toctree_references(doc: &Document) -> (r: Option<Vec<String>>)
    ensures
        toctree_entries(*doc).len() == 0 ==> r.is_none(),
        toctree_entries(*doc).len() > 0 ==> (r matches Some(v) && views(v@) == toctree_entries(*doc)),
{
    let mut refs: Vec<String> = Vec::new();
    match &doc.content {
        DocumentContent::RestructuredText(rst) => {
            let mut i: usize = 0;
            while i < rst.ast.len()
                invariant
                    i <= rst.ast@.len(),
                    views(refs@) == entries_of_nodes(rst.ast@.take(i as int)),
                decreases rst.ast@.len() - i,
            {
                let ghost tk = rst.ast@.take(i + 1);
                assert(tk.drop_last() =~= rst.ast@.take(i as int));
                match &rst.ast[i] {
                    RstNode::Directive { name, content, .. } => {
                        if str_eq(name.as_str(), "toctree") {
                            entries_in_block(content.as_str(), &mut refs);
                        }
                    },
                    _ => {},
                }
                i += 1;
            }
            assert(rst.ast@.take(rst.ast@.len() as int) =~= rst.ast@);
        },
        _ => {
            assert(views(refs@) =~= Seq::<Seq<char>>::empty());
        },
    }
    if refs.len() == 0 {
        None
    } else {
        Some(refs)
    }
}


/// A produced document as validation sees it: its source path, its name
/// (relative to the source root, without extension) and its navigation targets.
#[derive(Debug, Clone)]
pub struct NamedDocument {
    pub source_path: String,
    pub name: String,
    pub references: Vec<String>,
}

/// The views of a vector of string pairs.
pub open spec fn pair_views(v: Seq<(String, String)>) -> Seq<(Seq<char>, Seq<char>)> {
    v.map_values(|p: (String, String)| (p.0@, p.1@))
}

/// Each navigation target of `d`, paired with the path of `d`.
pub open spec fn doc_pairs(d: NamedDocument) -> Seq<(Seq<char>, Seq<char>)> {
    views(d.references@).map_values(|r: Seq<char>| (d.source_path@, r))
}

/// Every (referencing file, target) pair of `docs`, in order.
pub open spec fn all_pairs(docs: Seq<NamedDocument>) -> Seq<(Seq<char>, Seq<char>)>
    decreases docs.len(),
{
    if docs.len() == 0 {
        Seq::empty()
    } else {
        all_pairs(docs.drop_last()) + doc_pairs(docs.last())
    }
}

/// `s` with later repetitions of an element left out.
pub open spec fn dedup<T>(s: Seq<T>) -> Seq<T>
    decreases s.len(),
{
    if s.len() == 0 {
        s
    } else {
        let d = dedup(s.drop_last());
        if d.contains(s.last()) {
            d
        } else {
            d.push(s.last())
        }
    }
}

/// The names of `docs`.
pub open spec fn doc_names(docs: Seq<NamedDocument>) -> Seq<Seq<char>> {
    docs.map_values(|d: NamedDocument| d.name@)
}

/// Whether a navigation target resolves among the produced names.
pub open spec fn resolves(target: Seq<char>, names: Seq<Seq<char>>) -> bool {
    names.contains(target + "/index"@) || names.contains(target)
}

/// The pairs of `pairs` whose target does not resolve.
pub open spec fn unresolved(pairs: Seq<(Seq<char>, Seq<char>)>, names: Seq<Seq<char>>) -> Seq<
    (Seq<char>, Seq<char>),
>
    decreases pairs.len(),
{
    if pairs.len() == 0 {
        pairs
    } else {
        let prev = unresolved(pairs.drop_last(), names);
        if resolves(pairs.last().1, names) {
            prev
        } else {
            prev.push(pairs.last())
        }
    }
}

/// Whether target `r` reaches the document named `name`: exactly, as its
/// `index` child, or as an ancestor directory.
pub open spec fn reaches(r: Seq<char>, name: Seq<char>) -> bool {
    r == name || r == name + "/index"@ || has_prefix(name, r + "/"@)
}

/// Whether some navigation target among `pairs` reaches `name`.
pub open spec fn is_reached(name: Seq<char>, pairs: Seq<(Seq<char>, Seq<char>)>) -> bool {
    exists|k: int| 0 <= k < pairs.len() && reaches(pairs[k].1, name)
}

/// The source paths of the documents that nothing reaches, the root excepted.
pub open spec fn orphans(
    docs: Seq<NamedDocument>,
    pairs: Seq<(Seq<char>, Seq<char>)>,
    root: Seq<char>,
) -> Seq<Seq<char>>
    decreases docs.len(),
{
    if docs.len() == 0 {
        Seq::empty()
    } else {
        let prev = orphans(docs.drop_last(), pairs, root);
        let d = docs.last();
        if d.name@ == root || is_reached(d.name@, pairs) {
            prev
        } else {
            prev.push(d.source_path@)
        }
    }
}

/// What a warning says: file, line, message and kind.
pub open spec fn warning_view(w: BuildWarning) -> (Seq<char>, Option<usize>, Seq<char>, WarningType) {
    (w.file@, w.line, w.message@, w.warning_type)
}

pub open spec fn warning_views(ws: Seq<BuildWarning>) -> Seq<(Seq<char>, Option<usize>, Seq<char>, WarningType)> {
    ws.map_values(|w: BuildWarning| warning_view(w))
}

/// The findings of validation: one per distinct dangling (file, target) pair,
/// in order of first appearance, then one per orphaned document, in order.
pub open spec fn expected_warnings(docs: Seq<NamedDocument>, root: Seq<char>) -> Seq<
    (Seq<char>, Option<usize>, Seq<char>, WarningType),
> {
    missing_views(unresolved(dedup(all_pairs(docs)), doc_names(docs))) + orphan_views(
        orphans(docs, all_pairs(docs), root),
    )
}

/// The warning for a dangling (file, target) pair.
pub open spec fn missing_view(p: (Seq<char>, Seq<char>)) -> (Seq<char>, Option<usize>, Seq<char>, WarningType) {
    (p.0, None, missing_ref_message(p.1), WarningType::MissingToctreeRef)
}

pub open spec fn missing_views(ps: Seq<(Seq<char>, Seq<char>)>) -> Seq<(Seq<char>, Option<usize>, Seq<char>, WarningType)> {
    ps.map_values(|p: (Seq<char>, Seq<char>)| missing_view(p))
}

/// The warning for an orphaned document at `f`.
pub open spec fn orphan_view(f: Seq<char>) -> (Seq<char>, Option<usize>, Seq<char>, WarningType) {
    (f, None, orphan_message(), WarningType::OrphanedDocument)
}

pub open spec fn orphan_views(fs: Seq<Seq<char>>) -> Seq<(Seq<char>, Option<usize>, Seq<char>, WarningType)> {
    fs.map_values(|f: Seq<char>| orphan_view(f))
}

fn contains_str(v: &Vec<String>, s: &str) -> (r: bool)
    ensures
        r == views(v@).contains(s@),
{
    let mut i: usize = 0;
    while i < v.len()
        invariant
            i <= v@.len(),
            forall|j: int| 0 <= j < i ==> v@[j]@ != s@,
        decreases v@.len() - i,
    {
        if str_eq(v[i].as_str(), s) {
            assert(views(v@)[i as int] == s@);
            return true;
        }
        i += 1;
    }
    assert(!views(v@).contains(s@)) by {
        if views(v@).contains(s@) {
            let j = choose|j: int| 0 <= j < views(v@).len() && views(v@)[j] == s@;
            assert(v@[j]@ == s@);
        }
    }
    false
}

fn contains_pair(v: &Vec<(String, String)>, a: &str, b: &str) -> (r: bool)
    ensures
        r == pair_views(v@).contains((a@, b@)),
{
    let mut i: usize = 0;
    while i < v.len()
        invariant
            i <= v@.len(),
            forall|j: int| 0 <= j < i ==> (v@[j].0@, v@[j].1@) != (a@, b@),
        decreases v@.len() - i,
    {
        if str_eq(v[i].0.as_str(), a) && str_eq(v[i].1.as_str(), b) {
            assert(pair_views(v@)[i as int] == (a@, b@));
            return true;
        }
        i += 1;
    }
    assert(!pair_views(v@).contains((a@, b@))) by {
        if pair_views(v@).contains((a@, b@)) {
            let j = choose|j: int| 0 <= j < pair_views(v@).len() && pair_views(v@)[j] == (a@, b@);
            assert((v@[j].0@, v@[j].1@) == (a@, b@));
        }
    }
    false
}

/// Every (file, target) pair of `docs`, in order.
fn flatten_pairs(docs: &Vec<NamedDocument>) -> (r: Vec<(String, String)>)
    ensures
        pair_views(r@) == all_pairs(docs@),
{
    let mut out: Vec<(String, String)> = Vec::new();
    let mut i: usize = 0;
    assert(pair_views(out@) =~= all_pairs(docs@.take(0)));
    while i < docs.len()
        invariant
            i <= docs@.len(),
            pair_views(out@) == all_pairs(docs@.take(i as int)),
        decreases docs@.len() - i,
    {
        let d = &docs[i];
        let ghost base = pair_views(out@);
        let mut j: usize = 0;
        assert(doc_pairs(*d).take(0) =~= Seq::<(Seq<char>, Seq<char>)>::empty());
        assert(base + doc_pairs(*d).take(0) =~= base);
        while j < d.references.len()
            invariant
                j <= d.references@.len(),
                pair_views(out@) == base + doc_pairs(*d).take(j as int),
            decreases d.references@.len() - j,
        {
            let pair = (d.source_path.clone(), d.references[j].clone());
            proof {
                assert(pair_views(out@.push(pair)) =~= pair_views(out@).push((pair.0@, pair.1@)));
                assert(doc_pairs(*d).take(j + 1) =~= doc_pairs(*d).take(j as int).push(
                    (d.source_path@, d.references@[j as int]@),
                ));
                assert(base + doc_pairs(*d).take(j + 1) =~= (base + doc_pairs(*d).take(j as int)).push(
                    (d.source_path@, d.references@[j as int]@),
                ));
            }
            out.push(pair);
            j += 1;
        }
        proof {
            assert(doc_pairs(*d).take(j as int) =~= doc_pairs(*d));
            assert(docs@.take(i + 1).drop_last() =~= docs@.take(i as int));
        }
        i += 1;
    }
    assert(docs@.take(docs@.len() as int) =~= docs@);
    out
}

/// Validation over named documents: a warning against the referencing file
/// for each distinct navigation target that resolves to no produced document
/// (neither `<target>/index` nor `<target>`), then a warning against each
/// document other than `root` that no navigation target reaches.
pub fn check_references(docs: &Vec<NamedDocument>, root: &str) -> (r: Vec<BuildWarning>)
    ensures
        warning_views(r@) == expected_warnings(docs@, root@),
{
    let pairs = flatten_pairs(docs);
    let mut names: Vec<String> = Vec::new();
    let mut i: usize = 0;
    while i < docs.len()
        invariant
            i <= docs@.len(),
            views(names@) == doc_names(docs@.take(i as int)),
        decreases docs@.len() - i,
    {
        proof {
            assert(views(names@.push(docs@[i as int].name)) =~= views(names@).push(docs@[i as int].name@));
            assert(doc_names(docs@.take(i + 1)) =~= doc_names(docs@.take(i as int)).push(docs@[i as int].name@));
        }
        names.push(docs[i].name.clone());
        i += 1;
    }
    assert(docs@.take(docs@.len() as int) =~= docs@);
    // distinct pairs, in order of first appearance
    let mut seen: Vec<(String, String)> = Vec::new();
    let mut k: usize = 0;
    assert(pair_views(pairs@).take(0) =~= Seq::<(Seq<char>, Seq<char>)>::empty());
    assert(pair_views(seen@) =~= Seq::<(Seq<char>, Seq<char>)>::empty());
    while k < pairs.len()
        invariant
            k <= pairs@.len(),
            pair_views(seen@) == dedup(pair_views(pairs@).take(k as int)),
        decreases pairs@.len() - k,
    {
        let ghost tk = pair_views(pairs@).take(k + 1);
        assert(tk.drop_last() =~= pair_views(pairs@).take(k as int));
        assert(tk.last() == (pairs@[k as int].0@, pairs@[k as int].1@));
        if !contains_pair(&seen, pairs[k].0.as_str(), pairs[k].1.as_str()) {
            let p = (pairs[k].0.clone(), pairs[k].1.clone());
            proof {
                assert(pair_views(seen@.push(p)) =~= pair_views(seen@).push((p.0@, p.1@)));
            }
            seen.push(p);
        }
        k += 1;
    }
    assert(pair_views(pairs@).take(pairs@.len() as int) =~= pair_views(pairs@));
    let ghost missing_spec = unresolved(dedup(all_pairs(docs@)), doc_names(docs@));
    let mut out: Vec<BuildWarning> = Vec::new();
    let mut m: usize = 0;
    assert(warning_views(out@) =~= missing_views(unresolved(pair_views(seen@).take(0), doc_names(docs@))));
    while m < seen.len()
        invariant
            m <= seen@.len(),
            views(names@) == doc_names(docs@),
            warning_views(out@) == missing_views(unresolved(pair_views(seen@).take(m as int), doc_names(docs@))),
        decreases seen@.len() - m,
    {
        let ghost tk = pair_views(seen@).take(m + 1);
        assert(tk.drop_last() =~= pair_views(seen@).take(m as int));
        assert(tk.last() == (seen@[m as int].0@, seen@[m as int].1@));
        let target = seen[m].1.as_str();
        let with_index = concat(target, "/index");
        let found = contains_str(&names, with_index.as_str()) || contains_str(&names, target);
        assert(found == resolves(tk.last().1, doc_names(docs@)));
        if !found {
            let w = BuildWarning::missing_toctree_ref(seen[m].0.clone(), None, target);
            proof {
                assert(warning_views(out@.push(w)) =~= warning_views(out@).push(warning_view(w)));
                assert(unresolved(tk, doc_names(docs@)) == unresolved(pair_views(seen@).take(m as int), doc_names(docs@)).push(tk.last()));
                assert(warning_view(w) == missing_view(tk.last()));
                assert(missing_views(unresolved(tk, doc_names(docs@))) =~=
                    missing_views(unresolved(pair_views(seen@).take(m as int), doc_names(docs@))).push(missing_view(tk.last())));
            }
            out.push(w);
        } else {
            assert(unresolved(tk, doc_names(docs@)) == unresolved(pair_views(seen@).take(m as int), doc_names(docs@)));
        }
        m += 1;
    }
    assert(pair_views(seen@).take(seen@.len() as int) =~= pair_views(seen@));
    let ghost n_missing = out@.len();
    let mut d: usize = 0;
    assert(orphan_views(orphans(docs@.take(0), all_pairs(docs@), root@)) =~= Seq::empty());
    assert(warning_views(out@) =~= missing_views(missing_spec) + orphan_views(orphans(docs@.take(0), all_pairs(docs@), root@)));
    while d < docs.len()
        invariant
            d <= docs@.len(),
            pair_views(pairs@) == all_pairs(docs@),
            warning_views(out@) == missing_views(missing_spec) + orphan_views(orphans(docs@.take(d as int), all_pairs(docs@), root@)),
        decreases docs@.len() - d,
    {
        let ghost tk = docs@.take(d + 1);
        assert(tk.drop_last() =~= docs@.take(d as int));
        assert(tk.last() == docs@[d as int]);
        let doc = &docs[d];
        if !str_eq(doc.name.as_str(), root) {
            let reached = reached_by(doc.name.as_str(), &pairs);
            if !reached {
                let w = BuildWarning::orphaned_document(doc.source_path.clone());
                proof {
                    assert(warning_views(out@.push(w)) =~= warning_views(out@).push(warning_view(w)));
                    assert(orphan_views(orphans(tk, all_pairs(docs@), root@)) =~=
                        orphan_views(orphans(docs@.take(d as int), all_pairs(docs@), root@)).push(orphan_view(doc.source_path@)));
                    assert(warning_view(w) == orphan_view(doc.source_path@));
                    assert(missing_views(missing_spec) + orphan_views(orphans(tk, all_pairs(docs@), root@)) =~=
                        (missing_views(missing_spec) + orphan_views(orphans(docs@.take(d as int), all_pairs(docs@), root@))).push(orphan_view(doc.source_path@)));
                }
                out.push(w);
            }
        }
        d += 1;
    }
    assert(docs@.take(docs@.len() as int) =~= docs@);
    out
}

/// Whether some target among `pairs` reaches the document named `name`.
fn reached_by(name: &str, pairs: &Vec<(String, String)>) -> (r: bool)
    ensures
        r == is_reached(name@, pair_views(pairs@)),
{
    let with_index = concat(name, "/index");
    let mut k: usize = 0;
    while k < pairs.len()
        invariant
            k <= pairs@.len(),
            with_index@ == name@ + "/index"@,
            forall|j: int| 0 <= j < k ==> !reaches(pairs@[j].1@, name@),
        decreases pairs@.len() - k,
    {
        let r = pairs[k].1.as_str();
        let dir = concat(r, "/");
        if str_eq(r, name) || str_eq(r, with_index.as_str()) || starts_with(name, dir.as_str()) {
            assert(reaches(pair_views(pairs@)[k as int].1, name@));
            return true;
        }
        k += 1;
    }
    assert(!is_reached(name@, pair_views(pairs@))) by {
        if is_reached(name@, pair_views(pairs@)) {
            let j = choose|j: int| 0 <= j < pair_views(pairs@).len() && reaches(pair_views(pairs@)[j].1, name@);
            assert(pair_views(pairs@)[j].1 == pairs@[j].1@);
        }
    }
    false
}

} // verus!
