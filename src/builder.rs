//! Build orchestration: discovery rules, per-file cache decisions, output
//! paths, validation of the produced set, and the final report. Reading,
//! writing and the worker pool are the caller's; every decision is here.
use vstd::prelude::*;
use crate::cache::{is_hit, stored, BuildCache};
use crate::config::BuildConfig;
use crate::document::Document;
use crate::error::{BuildError, BuildErrorReport, BuildWarning};
use crate::paths::{
    file_name_of, join_of, path_file_name, path_join, path_strip_prefix, path_with_extension, strip_prefix_of,
    with_extension_of,
};
use crate::text::{has_prefix, starts_with, str_eq, views};
use crate::validate::{
    check_references, expected_warnings, extract_toctree_references, toctree_entries, warning_views,
    NamedDocument,
};

verus! {

/// What one build reports. Times are in milliseconds, sizes in bytes.
#[derive(Debug, Clone)]
pub struct BuildStats {
    pub files_processed: usize,
    pub files_skipped: usize,
    pub build_time_ms: u64,
    pub output_size_bytes: u64,
    pub cache_hits: usize,
    pub errors: usize,
    pub warnings: usize,
    pub warning_details: Vec<BuildWarning>,
    pub error_details: Vec<BuildErrorReport>,
}

/// Whether discovery skips a directory of this name: hidden directories and
/// build artifacts.
pub open spec fn skips_dir(name: Seq<char>) -> bool {
    has_prefix(name, "."@) || name == "_build"@ || name == "__pycache__"@
}

/// Whether discovery skips the directory at `path`.
pub open spec fn skips_dir_path(path: Seq<char>) -> bool {
    path_file_name(path) matches Some(n) && skips_dir(n)
}

/// Whether discovery descends into the directory at `path`.
pub fn should_descend(path: &str) -> (r: bool)
    ensures
        r == !skips_dir_path(path@),
{
    match file_name_of(path) {
        Some(name) => !(starts_with(name.as_str(), ".") || str_eq(name.as_str(), "_build") || str_eq(
            name.as_str(),
            "__pycache__",
        )),
        None => true,
    }
}

/// The name of a document: its path relative to the source root (the path
/// itself when it lies elsewhere), without extension.
pub open spec fn docname_of(source_dir: Seq<char>, source_path: Seq<char>) -> Seq<char> {
    let rel = match path_strip_prefix(source_path, source_dir) {
        Some(r) => r,
        None => source_path,
    };
    path_with_extension(rel, Seq::empty())
}

pub fn document_name(source_dir: &str, source_path: &str) -> (r: String)
    ensures
        r@ == docname_of(source_dir@, source_path@),
{
    let rel = match strip_prefix_of(source_path, source_dir) {
        Some(r) => r,
        None => String::from_str(source_path),
    };
    proof {
        reveal_strlit("");
    }
    let r = with_extension_of(rel.as_str(), "");
    assert(""@ =~= Seq::<char>::empty());
    r
}

/// The dependency graph of the discovered files: each file, in order, with
/// the files it depends on. No edges are drawn yet, so every file is
/// independent of the others.
pub fn build_dependency_graph(files: &Vec<String>) -> (r: Vec<(String, Vec<String>)>)
    ensures
        r@.len() == files@.len(),
        forall|i: int| 0 <= i < files@.len() ==> (#[trigger] r@[i]).0 == files@[i] && r@[i].1@.len() == 0,
{
    let mut graph: Vec<(String, Vec<String>)> = Vec::new();
    let mut i: usize = 0;
    while i < files.len()
        invariant
            i <= files@.len(),
            graph@.len() == i,
            forall|j: int| 0 <= j < i ==> (#[trigger] graph@[j]).0 == files@[j] && graph@[j].1@.len() == 0,
        decreases files@.len() - i,
    {
        graph.push((files[i].clone(), Vec::new()));
        i += 1;
    }
    graph
}

fn copy_warning(w: &BuildWarning) -> (r: BuildWarning)
    ensures
        r == *w,
{
    BuildWarning { file: w.file.clone(), line: w.line, message: w.message.clone(), warning_type: w.warning_type }
}

fn copy_error(e: &BuildErrorReport) -> (r: BuildErrorReport)
    ensures
        r == *e,
{
    BuildErrorReport { file: e.file.clone(), line: e.line, message: e.message.clone(), error_type: e.error_type }
}

fn copy_warnings(v: &Vec<BuildWarning>) -> (r: Vec<BuildWarning>)
    ensures
        r@ == v@,
{
    let mut out: Vec<BuildWarning> = Vec::new();
    let mut i: usize = 0;
    while i < v.len()
        invariant
            i <= v@.len(),
            out@ == v@.take(i as int),
        decreases v@.len() - i,
    {
        out.push(copy_warning(&v[i]));
        i += 1;
        assert(out@ =~= v@.take(i as int));
    }
    assert(v@.take(v@.len() as int) =~= v@);
    out
}

fn copy_errors(v: &Vec<BuildErrorReport>) -> (r: Vec<BuildErrorReport>)
    ensures
        r@ == v@,
{
    let mut out: Vec<BuildErrorReport> = Vec::new();
    let mut i: usize = 0;
    while i < v.len()
        invariant
            i <= v@.len(),
            out@ == v@.take(i as int),
        decreases v@.len() - i,
    {
        out.push(copy_error(&v[i]));
        i += 1;
        assert(out@ =~= v@.take(i as int));
    }
    assert(v@.take(v@.len() as int) =~= v@);
    out
}

/// Bytes in one mebibyte.
pub const BYTES_PER_MB: usize = 1048576;

/// Seconds in one hour.
pub const SECS_PER_HOUR: u64 = 3600;

/// Drives one build's decisions over a source root and an output root.
pub struct SphinxBuilder {
    config: BuildConfig,
    source_dir: String,
    output_dir: String,
    cache: BuildCache,
    parallel_jobs: usize,
    incremental: bool,
    warnings: Vec<BuildWarning>,
    errors: Vec<BuildErrorReport>,
    reused: usize,
}

impl SphinxBuilder {
    /// How many documents were served from the cache instead of re-parsed.
    pub closed spec fn reused_count(&self) -> usize {
        self.reused
    }

    pub closed spec fn cache_state(&self) -> BuildCache {
        self.cache
    }

    pub closed spec fn source_root(&self) -> Seq<char> {
        self.source_dir@
    }

    pub closed spec fn output_root(&self) -> Seq<char> {
        self.output_dir@
    }

    pub closed spec fn jobs(&self) -> usize {
        self.parallel_jobs
    }

    pub closed spec fn is_incremental(&self) -> bool {
        self.incremental
    }

    pub closed spec fn warning_list(&self) -> Seq<BuildWarning> {
        self.warnings@
    }

    pub closed spec fn error_list(&self) -> Seq<BuildErrorReport> {
        self.errors@
    }

    pub closed spec fn settings(&self) -> BuildConfig {
        self.config
    }

    pub open spec fn wf(&self) -> bool {
        self.cache_state().wf()
    }

    /// A builder with an empty cache under `<output_dir>/.sphinx-ultra-cache`,
    /// sized and aged as `config` says, and `config.parallel_jobs` workers
    /// (`default_jobs` when unset). Incremental mode starts off.
    pub fn new(config: BuildConfig, source_dir: String, output_dir: String, default_jobs: usize) -> (r: Self)
        ensures
            r.wf(),
            r.cache_state().entries().len() == 0,
            r.cache_state().hits() == 0,
            r.cache_state().misses() == 0,
            r.cache_state().dir() == path_join(output_dir@, ".sphinx-ultra-cache"@),
            r.source_root() == source_dir@,
            r.output_root() == output_dir@,
            r.jobs() == match config.parallel_jobs {
                Some(n) => n,
                None => default_jobs,
            },
            !r.is_incremental(),
            r.warning_list().len() == 0,
            r.error_list().len() == 0,
            r.settings() == config,
            r.reused_count() == 0,
    {
        let cache_dir = join_of(output_dir.as_str(), ".sphinx-ultra-cache");
        let budget: usize = if config.max_cache_size_mb <= usize::MAX / BYTES_PER_MB {
            config.max_cache_size_mb * BYTES_PER_MB
        } else {
            usize::MAX
        };
        let window: u64 = if config.cache_expiration_hours <= u64::MAX / SECS_PER_HOUR {
            config.cache_expiration_hours * SECS_PER_HOUR
        } else {
            u64::MAX
        };
        let cache = BuildCache::with_limits(cache_dir, budget, window);
        proof {
            cache.lemma_wf_keys();
            assert(cache.entries() =~= Map::<Seq<char>, crate::cache::CachedDocument>::empty());
        }
        let parallel_jobs = match config.parallel_jobs {
            Some(n) => n,
            None => default_jobs,
        };
        SphinxBuilder {
            config,
            source_dir,
            output_dir,
            cache,
            parallel_jobs,
            incremental: false,
            warnings: Vec::new(),
            errors: Vec::new(),
            reused: 0,
        }
    }

    pub fn set_parallel_jobs(&mut self, jobs: usize)
        ensures
            final(self).jobs() == jobs,
            final(self).cache_state() == old(self).cache_state(),
            final(self).is_incremental() == old(self).is_incremental(),
            final(self).warning_list() == old(self).warning_list(),
            final(self).error_list() == old(self).error_list(),
    {
        self.parallel_jobs = jobs;
    }

    pub fn enable_incremental(&mut self)
        ensures
            final(self).is_incremental(),
            final(self).jobs() == old(self).jobs(),
            final(self).cache_state() == old(self).cache_state(),
            final(self).warning_list() == old(self).warning_list(),
            final(self).error_list() == old(self).error_list(),
    {
        self.incremental = true;
    }

    /// Whether discovery descends into the directory at `dir`: not into the
    /// output root, hidden directories or build artifacts.
    pub fn descends_into(&self, dir: &str) -> (r: bool)
        ensures
            r == (dir@ != self.output_root() && !skips_dir_path(dir@)),
    {
        !str_eq(dir, self.output_dir.as_str()) && should_descend(dir)
    }

    pub fn parallel_jobs(&self) -> (r: usize)
        ensures
            r == self.jobs(),
    {
        self.parallel_jobs
    }

    pub fn incremental(&self) -> (r: bool)
        ensures
            r == self.is_incremental(),
    {
        self.incremental
    }

    pub fn source_dir(&self) -> (r: &str)
        ensures
            r@ == self.source_root(),
    {
        self.source_dir.as_str()
    }

    pub fn output_dir(&self) -> (r: &str)
        ensures
            r@ == self.output_root(),
    {
        self.output_dir.as_str()
    }

    pub fn cache(&self) -> (r: &BuildCache)
        ensures
            *r == self.cache_state(),
    {
        &self.cache
    }

    /// The cache, for restoring persisted entries before a build.
    pub fn cache_mut(&mut self) -> (r: &mut BuildCache)
        ensures
            *r == old(self).cache_state(),
            final(self).cache_state() == *final(r),
            final(self).jobs() == old(self).jobs(),
            final(self).is_incremental() == old(self).is_incremental(),
            final(self).warning_list() == old(self).warning_list(),
            final(self).error_list() == old(self).error_list(),
            final(self).source_root() == old(self).source_root(),
            final(self).output_root() == old(self).output_root(),
            final(self).settings() == old(self).settings(),
    {
        &mut self.cache
    }

    pub fn add_warning(&mut self, warning: BuildWarning)
        ensures
            final(self).warning_list() == old(self).warning_list().push(warning),
            final(self).error_list() == old(self).error_list(),
            final(self).cache_state() == old(self).cache_state(),
            final(self).is_incremental() == old(self).is_incremental(),
    {
        self.warnings.push(warning);
    }

    pub fn add_error(&mut self, error: BuildErrorReport)
        ensures
            final(self).error_list() == old(self).error_list().push(error),
            final(self).warning_list() == old(self).warning_list(),
            final(self).cache_state() == old(self).cache_state(),
            final(self).is_incremental() == old(self).is_incremental(),
    {
        self.errors.push(error);
    }

    pub fn should_fail_on_warning(&self) -> (r: bool)
        ensures
            r == self.settings().fail_on_warning,
    {
        self.config.fail_on_warning
    }

    /// The output file of a source file: its path under the source root,
    /// placed under the output root, with the `html` extension. A source
    /// outside the source root is refused.
    pub fn get_output_path(&self, source_path: &str) -> (r: Result<String, BuildError>)
        ensures
            path_strip_prefix(source_path@, self.source_root()) matches Some(rel) ==> (r matches Ok(o)
                && o@ == path_with_extension(path_join(self.output_root(), rel), "html"@)),
            path_strip_prefix(source_path@, self.source_root()).is_none() ==> (r matches Err(
                BuildError::InvalidFormat(p),
            ) && p@ == source_path@),
    {
        match strip_prefix_of(source_path, self.source_dir.as_str()) {
            Some(rel) => {
                let joined = join_of(self.output_dir.as_str(), rel.as_str());
                proof {
                    reveal_strlit("html");
                }
                Ok(with_extension_of(joined.as_str(), "html"))
            },
            None => Err(BuildError::InvalidFormat(String::from_str(source_path))),
        }
    }

    /// The cache's answer for one source file at time `now`, given its
    /// current fingerprint and modification time. Only in incremental mode
    /// is the cache consulted; a cached document is used only when it is at
    /// least as new as the file.
    pub fn cached_document_at(&mut self, file_path: &str, current_hash: &str, file_mtime: i64, now: i64) -> (r: Option<Document>)
        requires
            old(self).wf(),
        ensures
            final(self).wf(),
            final(self).is_incremental() == old(self).is_incremental(),
            final(self).warning_list() == old(self).warning_list(),
            final(self).error_list() == old(self).error_list(),
            final(self).source_root() == old(self).source_root(),
            final(self).output_root() == old(self).output_root(),
            final(self).settings() == old(self).settings(),
            !old(self).is_incremental() ==> r.is_none() && final(self).cache_state() == old(self).cache_state(),
            r.is_some() ==> final(self).reused_count() == crate::cache::bump(old(self).reused_count()),
            r.is_none() ==> final(self).reused_count() == old(self).reused_count(),
            old(self).is_incremental() ==> final(self).cache_state().hits() + final(self).cache_state().misses()
                == old(self).cache_state().hits() + old(self).cache_state().misses() + 1
                || old(self).cache_state().hits() == usize::MAX || old(self).cache_state().misses() == usize::MAX,
            old(self).is_incremental() && is_hit(
                old(self).cache_state().entries(),
                file_path@,
                current_hash@,
                now,
                old(self).cache_state().window(),
            ) && old(self).cache_state().entries()[file_path@].document.source_mtime >= file_mtime
                ==> r == Some(old(self).cache_state().entries()[file_path@].document),
            !(old(self).is_incremental() && is_hit(
                old(self).cache_state().entries(),
                file_path@,
                current_hash@,
                now,
                old(self).cache_state().window(),
            ) && old(self).cache_state().entries()[file_path@].document.source_mtime >= file_mtime)
                ==> r.is_none(),
    {
        if !self.incremental {
            return None;
        }
        match self.cache.get_document_at(file_path, current_hash, now) {
            Ok(doc) => {
                if doc.source_mtime >= file_mtime {
                    if self.reused < usize::MAX {
                        self.reused = self.reused + 1;
                    }
                    Some(doc)
                } else {
                    None
                }
            },
            Err(_) => None,
        }
    }

    /// Hands a freshly parsed document to the cache, in incremental mode.
    pub fn record_document_at(&mut self, file_path: &str, document: Document, hash: String, now: i64)
        requires
            old(self).wf(),
        ensures
            final(self).wf(),
            final(self).is_incremental() == old(self).is_incremental(),
            final(self).warning_list() == old(self).warning_list(),
            final(self).error_list() == old(self).error_list(),
            final(self).source_root() == old(self).source_root(),
            final(self).output_root() == old(self).output_root(),
            final(self).settings() == old(self).settings(),
            !old(self).is_incremental() ==> final(self).cache_state() == old(self).cache_state(),
            old(self).is_incremental() ==> stored(
                old(self).cache_state(),
                final(self).cache_state(),
                file_path@,
                document,
                hash,
                now,
            ),
            final(self).reused_count() == old(self).reused_count(),
    {
        if self.incremental {
            self.cache.store_document_at(file_path, document, hash, now);
        }
    }

    /// The documents as validation sees them.
    fn name_documents(&self, docs: &Vec<Document>) -> (r: Vec<NamedDocument>)
        ensures
            r@.len() == docs@.len(),
            forall|i: int| 0 <= i < docs@.len() ==> (#[trigger] r@[i]).source_path == docs@[i].source_path
                && r@[i].name@ == docname_of(self.source_root(), docs@[i].source_path@)
                && views(r@[i].references@) == toctree_entries(docs@[i]),
    {
        let mut out: Vec<NamedDocument> = Vec::new();
        let mut i: usize = 0;
        while i < docs.len()
            invariant
                i <= docs@.len(),
                out@.len() == i,
                forall|j: int| 0 <= j < i ==> (#[trigger] out@[j]).source_path == docs@[j].source_path
                    && out@[j].name@ == docname_of(self.source_root(), docs@[j].source_path@)
                    && views(out@[j].references@) == toctree_entries(docs@[j]),
            decreases docs@.len() - i,
        {
            let d = &docs[i];
            let references = match extract_toctree_references(d) {
                Some(v) => v,
                None => {
                    let v: Vec<String> = Vec::new();
                    assert(views(v@) =~= toctree_entries(*d));
                    v
                },
            };
            let name = document_name(self.source_dir.as_str(), d.source_path.as_str());
            out.push(NamedDocument { source_path: d.source_path.clone(), name, references });
            i += 1;
        }
        out
    }

    /// Validates the produced set and adds its findings to the warnings: a
    /// warning against the referencing file for each distinct navigation
    /// target that names no produced document, then one against each
    /// document other than the root document that no navigation target
    /// reaches. The root document is `config.root_doc`, `index` when unset.
    pub fn validate_documents(&mut self, docs: &Vec<Document>)
        ensures
            exists|named: Seq<NamedDocument>, root: Seq<char>| {
                &&& named.len() == docs@.len()
                &&& forall|i: int| 0 <= i < docs@.len() ==> (#[trigger] named[i]).source_path == docs@[i].source_path
                    && named[i].name@ == docname_of(old(self).source_root(), docs@[i].source_path@)
                    && views(named[i].references@) == toctree_entries(docs@[i])
                &&& (old(self).settings().root_doc matches Some(d) ==> root == d@)
                &&& (old(self).settings().root_doc.is_none() ==> root == "index"@)
                &&& warning_views(final(self).warning_list()) == warning_views(old(self).warning_list())
                    + expected_warnings(named, root)
            },
            final(self).error_list() == old(self).error_list(),
            final(self).cache_state() == old(self).cache_state(),
            final(self).is_incremental() == old(self).is_incremental(),
            final(self).source_root() == old(self).source_root(),
            final(self).output_root() == old(self).output_root(),
            final(self).settings() == old(self).settings(),
    {
        let named = self.name_documents(docs);
        let found = match &self.config.root_doc {
            Some(d) => check_references(&named, d.as_str()),
            None => check_references(&named, "index"),
        };
        let ghost before = self.warnings@;
        let mut i: usize = 0;
        while i < found.len()
            invariant
                i <= found@.len(),
                self.warnings@ == before + found@.take(i as int),
                self.errors == old(self).errors,
                self.cache == old(self).cache,
                self.incremental == old(self).incremental,
                self.source_dir == old(self).source_dir,
                self.output_dir == old(self).output_dir,
                self.config == old(self).config,
            decreases found@.len() - i,
        {
            self.warnings.push(copy_warning(&found[i]));
            i += 1;
            assert(self.warnings@ =~= before + found@.take(i as int));
        }
        assert(found@.take(found@.len() as int) =~= found@);
        assert(warning_views(before + found@) =~= warning_views(before) + warning_views(found@));
    }

    /// The report of a build that produced `processed` documents in
    /// `build_time_ms` milliseconds and `output_size_bytes` bytes of output;
    /// the skipped files are those served from the cache without re-parsing.
    pub fn build_stats(&self, processed: usize, build_time_ms: u64, output_size_bytes: u64) -> (r: BuildStats)
        ensures
            r.files_processed == processed,
            r.files_skipped == self.reused_count(),
            r.build_time_ms == build_time_ms,
            r.output_size_bytes == output_size_bytes,
            r.cache_hits == self.cache_state().hits(),
            r.warnings == self.warning_list().len(),
            r.errors == self.error_list().len(),
            r.warning_details@ == self.warning_list(),
            r.error_details@ == self.error_list(),
    {
        BuildStats {
            files_processed: processed,
            files_skipped: self.reused,
            build_time_ms,
            output_size_bytes,
            cache_hits: self.cache.hit_count(),
            errors: self.errors.len(),
            warnings: self.warnings.len(),
            warning_details: copy_warnings(&self.warnings),
            error_details: copy_errors(&self.errors),
        }
    }
}

/// An unchanged file is served from the cache: once its document is
/// recorded (no larger than the budget, and at least as new as the file),
/// a lookup at the same time with the same fingerprint is a hit whose
/// document is used, so the file is not parsed again.
pub proof fn lemma_unchanged_file_is_reused(
    c0: BuildCache,
    c1: BuildCache,
    path: Seq<char>,
    document: Document,
    hash: String,
    file_mtime: i64,
    now: i64,
)
    requires
        stored(c0, c1, path, document, hash, now),
        crate::cache::estimated_size(document) <= c0.budget(),
        document.source_mtime >= file_mtime,
    ensures
        is_hit(c1.entries(), path, hash@, now, c1.window()),
        c1.entries()[path].document == document,
        c1.entries()[path].document.source_mtime >= file_mtime,
{
    assert(c1.entries().contains_key(path));
}

} // verus!
