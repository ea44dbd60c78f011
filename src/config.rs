//! Build configuration. Paths are held as strings; theme options as JSON text.
use vstd::prelude::*;

verus! {

#[derive(Debug, Clone)]
pub struct BuildConfig {
    pub parallel_jobs: Option<usize>,
    pub max_cache_size_mb: usize,
    pub cache_expiration_hours: u64,
    pub output: OutputConfig,
    pub theme: ThemeConfig,
    pub extensions: Vec<String>,
    pub template_dirs: Vec<String>,
    pub static_dirs: Vec<String>,
    pub optimization: OptimizationConfig,
    pub project: String,
    pub version: Option<String>,
    pub release: Option<String>,
    pub copyright: Option<String>,
    pub language: Option<String>,
    pub root_doc: Option<String>,
    pub html_style: Vec<String>,
    pub html_css_files: Vec<String>,
    pub html_js_files: Vec<String>,
    pub html_static_path: Vec<String>,
    pub html_logo: Option<String>,
    pub html_favicon: Option<String>,
    pub html_title: Option<String>,
    pub html_short_title: Option<String>,
    pub html_show_copyright: Option<bool>,
    pub html_show_sphinx: Option<bool>,
    pub html_copy_source: Option<bool>,
    pub html_show_sourcelink: Option<bool>,
    pub html_sourcelink_suffix: Option<String>,
    pub html_use_index: Option<bool>,
    pub html_use_opensearch: Option<bool>,
    pub html_last_updated_fmt: Option<String>,
    pub templates_path: Vec<String>,
    pub fail_on_warning: bool,
}

#[derive(Debug, Clone)]
pub struct OutputConfig {
    pub html_theme: String,
    pub syntax_highlighting: bool,
    pub highlight_theme: String,
    pub search_index: bool,
    pub minify_html: bool,
    pub compress_output: bool,
}

/// Theme settings; `options` is the theme's option object as JSON text.
#[derive(Debug, Clone)]
pub struct ThemeConfig {
    pub name: String,
    pub options: String,
    pub custom_css: Vec<String>,
    pub custom_js: Vec<String>,
}

#[derive(Debug, Clone, Copy, PartialEq, Eq, Structural)]
pub struct OptimizationConfig {
    pub parallel_processing: bool,
    pub incremental_builds: bool,
    pub document_caching: bool,
    pub image_optimization: bool,
    pub asset_bundling: bool,
}

fn strings(items: &[&str]) -> (r: Vec<String>)
    ensures
        r@.len() == items@.len(),
        forall|i: int| 0 <= i < items@.len() ==> r@[i]@ == items@[i]@,
{
    let mut out: Vec<String> = Vec::new();
    let mut i: usize = 0;
    while i < items.len()
        invariant
            i <= items@.len(),
            out@.len() == i,
            forall|j: int| 0 <= j < i ==> out@[j]@ == items@[j]@,
        decreases items@.len() - i,
    {
        out.push(String::from_str(items[i]));
        i += 1;
    }
    out
}

impl Default for OutputConfig {
    fn default() -> (r: Self)
        ensures
            r.html_theme@ == "sphinx_rtd_theme"@,
            r.syntax_highlighting,
            r.highlight_theme@ == "github"@,
            r.search_index,
            !r.minify_html,
            !r.compress_output,
    {
        OutputConfig {
            html_theme: String::from_str("sphinx_rtd_theme"),
            syntax_highlighting: true,
            highlight_theme: String::from_str("github"),
            search_index: true,
            minify_html: false,
            compress_output: false,
        }
    }
}

impl Default for ThemeConfig {
    fn default() -> (r: Self)
        ensures
            r.name@ == "sphinx_rtd_theme"@,
            r.options@ == "{}"@,
            r.custom_css@.len() == 0,
            r.custom_js@.len() == 0,
    {
        ThemeConfig {
            name: String::from_str("sphinx_rtd_theme"),
            options: String::from_str("{}"),
            custom_css: Vec::new(),
            custom_js: Vec::new(),
        }
    }
}

impl Default for OptimizationConfig {
    fn default() -> (r: Self)
        ensures
            r.parallel_processing,
            r.incremental_builds,
            r.document_caching,
            !r.image_optimization,
            !r.asset_bundling,
    {
        OptimizationConfig {
            parallel_processing: true,
            incremental_builds: true,
            document_caching: true,
            image_optimization: false,
            asset_bundling: false,
        }
    }
}

impl Default for BuildConfig {
    fn default() -> (r: Self)
        ensures
            r.parallel_jobs.is_none(),
            r.max_cache_size_mb == 500,
            r.cache_expiration_hours == 24,
            r.project@ == "Sphinx Ultra Project"@,
            r.root_doc matches Some(d) && d@ == "index"@,
            r.extensions@.len() == 3,
            !r.fail_on_warning,
    {
        BuildConfig {
            parallel_jobs: None,
            max_cache_size_mb: 500,
            cache_expiration_hours: 24,
            output: OutputConfig::default(),
            theme: ThemeConfig::default(),
            extensions: strings(&["sphinx.ext.autodoc", "sphinx.ext.viewcode", "sphinx.ext.intersphinx"]),
            template_dirs: Vec::new(),
            static_dirs: Vec::new(),
            optimization: OptimizationConfig::default(),
            project: String::from_str("Sphinx Ultra Project"),
            version: Some(String::from_str("1.0.0")),
            release: Some(String::from_str("1.0.0")),
            copyright: Some(String::from_str("2024, Sphinx Ultra")),
            language: Some(String::from_str("en")),
            root_doc: Some(String::from_str("index")),
            html_style: strings(&["sphinx_rtd_theme.css"]),
            html_css_files: Vec::new(),
            html_js_files: Vec::new(),
            html_static_path: strings(&["_static"]),
            html_logo: None,
            html_favicon: None,
            html_title: None,
            html_short_title: None,
            html_show_copyright: Some(true),
            html_show_sphinx: Some(true),
            html_copy_source: Some(true),
            html_show_sourcelink: Some(true),
            html_sourcelink_suffix: Some(String::from_str(".txt")),
            html_use_index: Some(true),
            html_use_opensearch: Some(false),
            html_last_updated_fmt: Some(String::from_str("%b %d, %Y")),
            templates_path: strings(&["_templates"]),
            fail_on_warning: false,
        }
    }
}

} // verus!
