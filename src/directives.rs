//! Block directives (`.. name:: arguments`) and the HTML they render to.
use vstd::prelude::*;
use crate::error::BuildError;
use crate::inventory::{split_words, words};
use crate::namemap::NameMap;
use crate::paths::{extension_of, path_extension};
use crate::render::{encode_text, html_text};
use crate::text::{
    concat, concat3, concat5, has_char, has_prefix, is_space_char, join_lines, join_lines_from,
    starts_with, str_eq, trim_start, views,
};

verus! {

/// A directive found in reStructuredText source; its options keep their
/// names and values as written.
#[derive(Debug, Clone)]
pub struct Directive {
    pub name: String,
    pub arguments: Vec<String>,
    pub options: NameMap<String>,
    pub content: Vec<String>,
    pub line_number: usize,
    pub source_file: String,
}

/// How a directive option's value is read.
#[derive(Debug, Clone)]
pub enum DirectiveOptionType {
    Flag,
    String,
    Integer,
    Float,
    Choice(Vec<String>),
    Unchanged,
    UnchangedRequired,
    Path,
    Percentage,
    LengthOrPercentage,
    Class,
    ClassOption,
    Encoding,
}

/// Renders a directive to HTML.
pub trait DirectiveProcessor {
    fn process(&self, directive: &Directive) -> Result<String, BuildError>;

    fn get_name(&self) -> &str;

    fn get_option_spec(&self) -> Vec<(String, DirectiveOptionType)>;
}

/// The directives that come with the builder. An admonition carries its
/// name; a placeholder directive, which renders to a comment, carries its name.
#[derive(Debug, Clone)]
pub enum BuiltinDirective {
    Admonition(String),
    GenericAdmonition,
    CodeBlock,
    LiteralInclude,
    Highlight,
    Placeholder(String),
}

/// The default title of the admonition `name`.
pub open spec fn admonition_title(name: Seq<char>) -> Seq<char> {
    if name == "note"@ {
        "Note"@
    } else if name == "warning"@ {
        "Warning"@
    } else if name == "important"@ {
        "Important"@
    } else if name == "tip"@ {
        "Tip"@
    } else if name == "caution"@ {
        "Caution"@
    } else if name == "danger"@ {
        "Danger"@
    } else if name == "error"@ {
        "Error"@
    } else if name == "hint"@ {
        "Hint"@
    } else if name == "attention"@ {
        "Attention"@
    } else if name == "seealso"@ {
        "See also"@
    } else {
        name
    }
}

fn admonition_title_of(name: &str) -> (r: &str)
    ensures
        r@ == admonition_title(name@),
{
    if str_eq(name, "note") {
        "Note"
    } else if str_eq(name, "warning") {
        "Warning"
    } else if str_eq(name, "important") {
        "Important"
    } else if str_eq(name, "tip") {
        "Tip"
    } else if str_eq(name, "caution") {
        "Caution"
    } else if str_eq(name, "danger") {
        "Danger"
    } else if str_eq(name, "error") {
        "Error"
    } else if str_eq(name, "hint") {
        "Hint"
    } else if str_eq(name, "attention") {
        "Attention"
    } else if str_eq(name, "seealso") {
        "See also"
    } else {
        name
    }
}

/// The highlighting language for a file extension.
pub open spec fn language_for(e: Seq<char>) -> Seq<char> {
    if e == "py"@ {
        "python"@
    } else if e == "rs"@ {
        "rust"@
    } else if e == "js"@ {
        "javascript"@
    } else if e == "ts"@ {
        "typescript"@
    } else if e == "cpp"@ || e == "cc"@ || e == "cxx"@ {
        "cpp"@
    } else if e == "c"@ {
        "c"@
    } else if e == "h"@ || e == "hpp"@ {
        "cpp"@
    } else if e == "java"@ {
        "java"@
    } else if e == "go"@ {
        "go"@
    } else if e == "php"@ {
        "php"@
    } else if e == "rb"@ {
        "ruby"@
    } else if e == "sh"@ || e == "bash"@ {
        "bash"@
    } else if e == "ps1"@ {
        "powershell"@
    } else if e == "sql"@ {
        "sql"@
    } else if e == "xml"@ {
        "xml"@
    } else if e == "html"@ {
        "html"@
    } else if e == "css"@ {
        "css"@
    } else if e == "json"@ {
        "json"@
    } else if e == "yaml"@ || e == "yml"@ {
        "yaml"@
    } else if e == "toml"@ {
        "toml"@
    } else if e == "ini"@ {
        "ini"@
    } else if e == "md"@ {
        "markdown"@
    } else if e == "rst"@ {
        "rst"@
    } else if e == "tex"@ {
        "latex"@
    } else {
        "text"@
    }
}

fn language_for_ext(e: &str) -> (r: &str)
    ensures
        r@ == language_for(e@),
{
    if str_eq(e, "py") {
        "python"
    } else if str_eq(e, "rs") {
        "rust"
    } else if str_eq(e, "js") {
        "javascript"
    } else if str_eq(e, "ts") {
        "typescript"
    } else if str_eq(e, "cpp") || str_eq(e, "cc") || str_eq(e, "cxx") {
        "cpp"
    } else if str_eq(e, "c") {
        "c"
    } else if str_eq(e, "h") || str_eq(e, "hpp") {
        "cpp"
    } else if str_eq(e, "java") {
        "java"
    } else if str_eq(e, "go") {
        "go"
    } else if str_eq(e, "php") {
        "php"
    } else if str_eq(e, "rb") {
        "ruby"
    } else if str_eq(e, "sh") || str_eq(e, "bash") {
        "bash"
    } else if str_eq(e, "ps1") {
        "powershell"
    } else if str_eq(e, "sql") {
        "sql"
    } else if str_eq(e, "xml") {
        "xml"
    } else if str_eq(e, "html") {
        "html"
    } else if str_eq(e, "css") {
        "css"
    } else if str_eq(e, "json") {
        "json"
    } else if str_eq(e, "yaml") || str_eq(e, "yml") {
        "yaml"
    } else if str_eq(e, "toml") {
        "toml"
    } else if str_eq(e, "ini") {
        "ini"
    } else if str_eq(e, "md") {
        "markdown"
    } else if str_eq(e, "rst") {
        "rst"
    } else if str_eq(e, "tex") {
        "latex"
    } else {
        "text"
    }
}

/// The words of `ws` joined by single spaces.
pub open spec fn join_words(ws: Seq<Seq<char>>) -> Seq<char>
    decreases ws.len(),
{
    if ws.len() == 0 {
        Seq::empty()
    } else if ws.len() == 1 {
        ws[0]
    } else {
        join_words(ws.drop_last()) + " "@ + ws.last()
    }
}

fn join_words_str(ws: &Vec<String>) -> (r: String)
    ensures
        r@ == join_words(views(ws@)),
{
    let mut out = String::new();
    let mut i: usize = 0;
    assert(views(ws@).take(0) =~= Seq::<Seq<char>>::empty());
    while i < ws.len()
        invariant
            i <= ws@.len(),
            out@ == join_words(views(ws@).take(i as int)),
        decreases ws@.len() - i,
    {
        let ghost tk = views(ws@).take(i + 1);
        assert(tk.drop_last() =~= views(ws@).take(i as int));
        assert(tk.last() == ws@[i as int]@);
        if i > 0 {
            out.append(" ");
        } else {
            assert(out@ =~= Seq::<char>::empty());
        }
        out.append(ws[i].as_str());
        proof {
            if i == 0 {
                assert(out@ =~= tk[0]);
            }
        }
        i += 1;
    }
    assert(views(ws@).take(ws@.len() as int) =~= views(ws@));
    out
}

/// The first argument, or `default`.
pub open spec fn first_or(args: Seq<String>, default: Seq<char>) -> Seq<char> {
    if args.len() > 0 {
        args[0]@
    } else {
        default
    }
}

/// The language of a literal include: its `language` option, else the one
/// its file's extension suggests, else `text`.
pub open spec fn include_language(d: Directive, filename: Seq<char>) -> Seq<char> {
    if d.options@.contains_key("language"@) {
        d.options@["language"@]@
    } else {
        match path_extension(filename) {
            Some(e) => language_for(e),
            None => "text"@,
        }
    }
}

/// The registered name of a built-in directive.
pub open spec fn directive_name(p: BuiltinDirective) -> Seq<char> {
    match p {
        BuiltinDirective::Admonition(n) => n@,
        BuiltinDirective::GenericAdmonition => "admonition"@,
        BuiltinDirective::CodeBlock => "code-block"@,
        BuiltinDirective::LiteralInclude => "literalinclude"@,
        BuiltinDirective::Highlight => "highlight"@,
        BuiltinDirective::Placeholder(n) => n@,
    }
}

/// What the built-in processor `p` makes of `d`.
pub open spec fn directive_result(p: BuiltinDirective, d: Directive) -> Result<Seq<char>, Seq<char>> {
    let body = join_lines(views(d.content@));
    match p {
        BuiltinDirective::Admonition(n) => Ok(
            "<div class=\"admonition "@ + n@ + "\"><p class=\"admonition-title\">"@ + first_or(
                d.arguments@,
                admonition_title(n@),
            ) + "</p>"@ + body + "</div>"@,
        ),
        BuiltinDirective::GenericAdmonition => Ok(
            "<div class=\"admonition admonition-generic\"><p class=\"admonition-title\">"@ + first_or(
                d.arguments@,
                "Admonition"@,
            ) + "</p>"@ + body + "</div>"@,
        ),
        BuiltinDirective::CodeBlock => {
            let lang = first_or(d.arguments@, "text"@);
            let caption = if d.options@.contains_key("caption"@) {
                "<div class=\"code-block-caption\">"@ + d.options@["caption"@]@ + "</div>"@
            } else {
                Seq::empty()
            };
            Ok(caption + "<div class=\"highlight-"@ + lang + "\"><pre><code class=\"language-"@ + lang + "\">"@
                + html_text(body) + "</code></pre></div>"@)
        },
        BuiltinDirective::LiteralInclude => if d.arguments@.len() == 0 {
            Err("literalinclude directive requires a filename"@)
        } else {
            let f = d.arguments@[0]@;
            let lang = include_language(d, f);
            Ok("<div class=\"literal-include\"><div class=\"highlight-"@ + lang
                + "\"><pre><code class=\"language-"@ + lang + "\"><!-- Content of "@ + f
                + " would be included here --></code></pre></div></div>"@)
        },
        BuiltinDirective::Highlight => Ok(
            "<!-- highlight language set to "@ + first_or(d.arguments@, "text"@) + " -->"@,
        ),
        BuiltinDirective::Placeholder(n) => Ok(
            "<!-- "@ + n@ + " directive: "@ + join_words(views(d.arguments@)) + " -->"@,
        ),
    }
}

/// Whether an outcome matches the expected text or error message.
pub open spec fn outcome_is(r: Result<String, BuildError>, e: Result<Seq<char>, Seq<char>>) -> bool {
    match e {
        Ok(h) => r matches Ok(x) && x@ == h,
        Err(m) => r matches Err(BuildError::InvalidFormat(x)) && x@ == m,
    }
}

/// The option names and kinds a built-in directive accepts.
pub open spec fn option_spec_of(p: BuiltinDirective) -> Seq<(Seq<char>, DirectiveOptionType)> {
    match p {
        BuiltinDirective::Admonition(_) => seq![
            ("class"@, DirectiveOptionType::ClassOption),
            ("name"@, DirectiveOptionType::String),
        ],
        BuiltinDirective::GenericAdmonition => seq![
            ("class"@, DirectiveOptionType::ClassOption),
            ("name"@, DirectiveOptionType::String),
        ],
        BuiltinDirective::CodeBlock => seq![
            ("linenos"@, DirectiveOptionType::Flag),
            ("lineno-start"@, DirectiveOptionType::Integer),
            ("emphasize-lines"@, DirectiveOptionType::String),
            ("caption"@, DirectiveOptionType::String),
            ("name"@, DirectiveOptionType::String),
            ("dedent"@, DirectiveOptionType::Integer),
            ("force"@, DirectiveOptionType::Flag),
        ],
        BuiltinDirective::LiteralInclude => seq![
            ("language"@, DirectiveOptionType::String),
            ("linenos"@, DirectiveOptionType::Flag),
            ("lineno-start"@, DirectiveOptionType::Integer),
            ("emphasize-lines"@, DirectiveOptionType::String),
            ("lines"@, DirectiveOptionType::String),
            ("start-line"@, DirectiveOptionType::Integer),
            ("end-line"@, DirectiveOptionType::Integer),
            ("start-after"@, DirectiveOptionType::String),
            ("end-before"@, DirectiveOptionType::String),
            ("prepend"@, DirectiveOptionType::String),
            ("append"@, DirectiveOptionType::String),
            ("dedent"@, DirectiveOptionType::Integer),
            ("tab-width"@, DirectiveOptionType::Integer),
            ("encoding"@, DirectiveOptionType::Encoding),
            ("pyobject"@, DirectiveOptionType::String),
            ("caption"@, DirectiveOptionType::String),
            ("name"@, DirectiveOptionType::String),
            ("class"@, DirectiveOptionType::ClassOption),
            ("diff"@, DirectiveOptionType::String),
        ],
        BuiltinDirective::Highlight => seq![
            ("linenothreshold"@, DirectiveOptionType::Integer),
            ("force"@, DirectiveOptionType::Flag),
        ],
        BuiltinDirective::Placeholder(_) => Seq::empty(),
    }
}

pub open spec fn option_views(v: Seq<(String, DirectiveOptionType)>) -> Seq<(Seq<char>, DirectiveOptionType)> {
    v.map_values(|p: (String, DirectiveOptionType)| (p.0@, p.1))
}

fn first_or_str<'a>(args: &'a Vec<String>, default: &'a str) -> (r: &'a str)
    ensures
        r@ == first_or(args@, default@),
{
    if args.len() > 0 {
        args[0].as_str()
    } else {
        default
    }
}

impl BuiltinDirective {
    pub fn admonition(name: &str) -> (r: Self)
        ensures
            r matches BuiltinDirective::Admonition(n) && n@ == name@,
    {
        BuiltinDirective::Admonition(String::from_str(name))
    }

    pub fn stub(name: &str) -> (r: Self)
        ensures
            r matches BuiltinDirective::Placeholder(n) && n@ == name@,
    {
        BuiltinDirective::Placeholder(String::from_str(name))
    }

    pub fn name(&self) -> (r: &str)
        ensures
            r@ == directive_name(*self),
    {
        match self {
            BuiltinDirective::Admonition(n) => n.as_str(),
            BuiltinDirective::GenericAdmonition => "admonition",
            BuiltinDirective::CodeBlock => "code-block",
            BuiltinDirective::LiteralInclude => "literalinclude",
            BuiltinDirective::Highlight => "highlight",
            BuiltinDirective::Placeholder(n) => n.as_str(),
        }
    }

    /// The HTML of `d`, or why it cannot be rendered.
    pub fn render(&self, d: &Directive) -> (r: Result<String, BuildError>)
        requires
            d.options.wf(),
        ensures
            outcome_is(r, directive_result(*self, *d)),
    {
        match self {
            BuiltinDirective::Admonition(n) => {
                let title = first_or_str(&d.arguments, admonition_title_of(n.as_str()));
                let body = join_lines_from(&d.content, 0);
                proof {
                    assert(views(d.content@).subrange(0, d.content@.len() as int) =~= views(d.content@));
                }
                let head = concat3("<div class=\"admonition ", n.as_str(), "\"><p class=\"admonition-title\">");
                Ok(concat5(head.as_str(), title, "</p>", body.as_str(), "</div>"))
            },
            BuiltinDirective::GenericAdmonition => {
                let title = first_or_str(&d.arguments, "Admonition");
                let body = join_lines_from(&d.content, 0);
                proof {
                    assert(views(d.content@).subrange(0, d.content@.len() as int) =~= views(d.content@));
                }
                Ok(concat5(
                    "<div class=\"admonition admonition-generic\"><p class=\"admonition-title\">",
                    title,
                    "</p>",
                    body.as_str(),
                    "</div>",
                ))
            },
            BuiltinDirective::CodeBlock => {
                let lang = first_or_str(&d.arguments, "text");
                let body = join_lines_from(&d.content, 0);
                proof {
                    assert(views(d.content@).subrange(0, d.content@.len() as int) =~= views(d.content@));
                }
                let caption = match d.options.get("caption") {
                    Some(c) => concat3("<div class=\"code-block-caption\">", c.as_str(), "</div>"),
                    None => String::new(),
                };
                let escaped = encode_text(body.as_str());
                let open = concat5(caption.as_str(), "<div class=\"highlight-", lang, "\"><pre><code class=\"language-", lang);
                let r = concat3(open.as_str(), "\">", escaped.as_str());
                let r = concat(r.as_str(), "</code></pre></div>");
                proof {
                    assert(d.options@.contains_key("caption"@) ==> caption@ == "<div class=\"code-block-caption\">"@
                        + d.options@["caption"@]@ + "</div>"@);
                    assert(!d.options@.contains_key("caption"@) ==> caption@ =~= Seq::<char>::empty());
                }
                Ok(r)
            },
            BuiltinDirective::LiteralInclude => {
                if d.arguments.len() == 0 {
                    return Err(BuildError::InvalidFormat(String::from_str("literalinclude directive requires a filename")));
                }
                let filename = d.arguments[0].as_str();
                let lang: String = match d.options.get("language") {
                    Some(l) => l.clone(),
                    None => match extension_of(filename) {
                        Some(e) => String::from_str(language_for_ext(e.as_str())),
                        None => String::from_str("text"),
                    },
                };
                let open = concat5(
                    "<div class=\"literal-include\"><div class=\"highlight-",
                    lang.as_str(),
                    "\"><pre><code class=\"language-",
                    lang.as_str(),
                    "\"><!-- Content of ",
                );
                Ok(concat3(open.as_str(), filename, " would be included here --></code></pre></div></div>"))
            },
            BuiltinDirective::Highlight => {
                let lang = first_or_str(&d.arguments, "text");
                Ok(concat3("<!-- highlight language set to ", lang, " -->"))
            },
            BuiltinDirective::Placeholder(n) => {
                let args = join_words_str(&d.arguments);
                Ok(concat5("<!-- ", n.as_str(), " directive: ", args.as_str(), " -->"))
            },
        }
    }

    /// The option names and kinds this directive accepts.
    pub fn option_spec(&self) -> (r: Vec<(String, DirectiveOptionType)>)
        ensures
            option_views(r@) == option_spec_of(*self),
    {
        let mut out: Vec<(String, DirectiveOptionType)> = Vec::new();
        match self {
            BuiltinDirective::Admonition(_) => {
                out.push((String::from_str("class"), DirectiveOptionType::ClassOption));
                out.push((String::from_str("name"), DirectiveOptionType::String));
            },
            BuiltinDirective::GenericAdmonition => {
                out.push((String::from_str("class"), DirectiveOptionType::ClassOption));
                out.push((String::from_str("name"), DirectiveOptionType::String));
            },
            BuiltinDirective::CodeBlock => {
                out.push((String::from_str("linenos"), DirectiveOptionType::Flag));
                out.push((String::from_str("lineno-start"), DirectiveOptionType::Integer));
                out.push((String::from_str("emphasize-lines"), DirectiveOptionType::String));
                out.push((String::from_str("caption"), DirectiveOptionType::String));
                out.push((String::from_str("name"), DirectiveOptionType::String));
                out.push((String::from_str("dedent"), DirectiveOptionType::Integer));
                out.push((String::from_str("force"), DirectiveOptionType::Flag));
            },
            BuiltinDirective::LiteralInclude => {
                out.push((String::from_str("language"), DirectiveOptionType::String));
                out.push((String::from_str("linenos"), DirectiveOptionType::Flag));
                out.push((String::from_str("lineno-start"), DirectiveOptionType::Integer));
                out.push((String::from_str("emphasize-lines"), DirectiveOptionType::String));
                out.push((String::from_str("lines"), DirectiveOptionType::String));
                out.push((String::from_str("start-line"), DirectiveOptionType::Integer));
                out.push((String::from_str("end-line"), DirectiveOptionType::Integer));
                out.push((String::from_str("start-after"), DirectiveOptionType::String));
                out.push((String::from_str("end-before"), DirectiveOptionType::String));
                out.push((String::from_str("prepend"), DirectiveOptionType::String));
                out.push((String::from_str("append"), DirectiveOptionType::String));
                out.push((String::from_str("dedent"), DirectiveOptionType::Integer));
                out.push((String::from_str("tab-width"), DirectiveOptionType::Integer));
                out.push((String::from_str("encoding"), DirectiveOptionType::Encoding));
                out.push((String::from_str("pyobject"), DirectiveOptionType::String));
                out.push((String::from_str("caption"), DirectiveOptionType::String));
                out.push((String::from_str("name"), DirectiveOptionType::String));
                out.push((String::from_str("class"), DirectiveOptionType::ClassOption));
                out.push((String::from_str("diff"), DirectiveOptionType::String));
            },
            BuiltinDirective::Highlight => {
                out.push((String::from_str("linenothreshold"), DirectiveOptionType::Integer));
                out.push((String::from_str("force"), DirectiveOptionType::Flag));
            },
            BuiltinDirective::Placeholder(_) => {},
        }
        assert(option_views(out@) =~= option_spec_of(*self));
        out
    }
}

impl DirectiveProcessor for BuiltinDirective {
    fn process(&self, directive: &Directive) -> Result<String, BuildError> {
        if directive.options.names_distinct() {
            self.render(directive)
        } else {
            Err(BuildError::InvalidFormat(String::from_str("directive options repeat a name")))
        }
    }

    fn get_name(&self) -> &str {
        self.name()
    }

    fn get_option_spec(&self) -> Vec<(String, DirectiveOptionType)> {
        self.option_spec()
    }
}

/// The HTML left for a directive that no processor handles.
pub open spec fn unknown_directive_html(name: Seq<char>) -> Seq<char> {
    "<!-- Unknown directive: "@ + name + " -->"@
}

/// The names under which the built-in directives are registered.
pub open spec fn is_builtin_directive_name(k: Seq<char>) -> bool {
    k == "note"@
        || k == "warning"@
        || k == "important"@
        || k == "tip"@
        || k == "caution"@
        || k == "danger"@
        || k == "error"@
        || k == "hint"@
        || k == "attention"@
        || k == "seealso"@
        || k == "admonition"@
        || k == "code-block"@
        || k == "literalinclude"@
        || k == "highlight"@
        || k == "toctree"@
        || k == "index"@
        || k == "only"@
        || k == "ifconfig"@
        || k == "image"@
        || k == "figure"@
        || k == "table"@
        || k == "csv-table"@
        || k == "list-table"@
        || k == "include"@
        || k == "raw"@
        || k == "math"@
        || k == "autodoc"@
        || k == "automodule"@
        || k == "autoclass"@
        || k == "autofunction"@
        || k == "meta"@
        || k == "sidebar"@
        || k == "topic"@
        || k == "rubric"@
        || k == "epigraph"@
        || k == "highlights"@
        || k == "pull-quote"@
        || k == "compound"@
        || k == "container"@
        || k == "versionadded"@
        || k == "versionchanged"@
        || k == "deprecated"@
}

/// The directives known by name.
pub struct DirectiveRegistry {
    processors: NameMap<BuiltinDirective>,
}

impl DirectiveRegistry {
    /// The registered processors, by name.
    pub closed spec fn view(&self) -> Map<Seq<char>, BuiltinDirective> {
        self.processors@
    }

    pub closed spec fn wf(&self) -> bool {
        self.processors.wf() && forall|k: Seq<char>| #[trigger] self.processors@.contains_key(k) ==> directive_name(
            self.processors@[k],
        ) == k
    }

    /// A registry holding the built-in directives.
    pub fn new() -> (r: Self)
        ensures
            r.wf(),
            forall|k: Seq<char>| #[trigger] r@.contains_key(k) <==> is_builtin_directive_name(k),
            forall|k: Seq<char>| #[trigger] r@.contains_key(k) ==> directive_name(r@[k]) == k,
    {
        let mut r = DirectiveRegistry { processors: NameMap::new() };
        assert(r@ =~= Map::<Seq<char>, BuiltinDirective>::empty());
        r.register_builtin_directives();
        r
    }

    /// Registers `processor` under its name, replacing one of the same name.
    pub fn register(&mut self, processor: BuiltinDirective)
        requires
            old(self).wf(),
        ensures
            final(self).wf(),
            final(self)@ == old(self)@.insert(directive_name(processor), processor),
    {
        let name = String::from_str(processor.name());
        self.processors.insert(name, processor);
    }

    pub fn get(&self, name: &str) -> (r: Option<&BuiltinDirective>)
        requires
            self.wf(),
        ensures
            self@.contains_key(name@) ==> r == Some(&self@[name@]),
            !self@.contains_key(name@) ==> r.is_none(),
    {
        self.processors.get(name)
    }

    /// The HTML of `directive`: its processor's, or a comment naming an
    /// unknown directive.
    pub fn process_directive(&self, directive: &Directive) -> (r: Result<String, BuildError>)
        requires
            self.wf(),
            directive.options.wf(),
        ensures
            self@.contains_key(directive.name@) ==> outcome_is(r, directive_result(self@[directive.name@], *directive)),
            !self@.contains_key(directive.name@) ==> (r matches Ok(h) && h@ == unknown_directive_html(directive.name@)),
    {
        match self.get(directive.name.as_str()) {
            Some(p) => p.render(directive),
            None => Ok(concat3("<!-- Unknown directive: ", directive.name.as_str(), " -->")),
        }
    }

    fn register_builtin_directives(&mut self)
        requires
            old(self).wf(),
            old(self)@ == Map::<Seq<char>, BuiltinDirective>::empty(),
        ensures
            final(self).wf(),
            forall|k: Seq<char>| #[trigger] final(self)@.contains_key(k) <==> is_builtin_directive_name(k),
    {
        proof {
            reveal_strlit("note");
            reveal_strlit("warning");
            reveal_strlit("important");
            reveal_strlit("tip");
            reveal_strlit("caution");
            reveal_strlit("danger");
            reveal_strlit("error");
            reveal_strlit("hint");
            reveal_strlit("attention");
            reveal_strlit("seealso");
            reveal_strlit("admonition");
            reveal_strlit("code-block");
            reveal_strlit("literalinclude");
            reveal_strlit("highlight");
            reveal_strlit("toctree");
            reveal_strlit("index");
            reveal_strlit("only");
            reveal_strlit("ifconfig");
            reveal_strlit("image");
            reveal_strlit("figure");
            reveal_strlit("table");
            reveal_strlit("csv-table");
            reveal_strlit("list-table");
            reveal_strlit("include");
            reveal_strlit("raw");
            reveal_strlit("math");
            reveal_strlit("autodoc");
            reveal_strlit("automodule");
            reveal_strlit("autoclass");
            reveal_strlit("autofunction");
            reveal_strlit("meta");
            reveal_strlit("sidebar");
            reveal_strlit("topic");
            reveal_strlit("rubric");
            reveal_strlit("epigraph");
            reveal_strlit("highlights");
            reveal_strlit("pull-quote");
            reveal_strlit("compound");
            reveal_strlit("container");
            reveal_strlit("versionadded");
            reveal_strlit("versionchanged");
            reveal_strlit("deprecated");
        }
        self.register(BuiltinDirective::admonition("note"));
        self.register(BuiltinDirective::admonition("warning"));
        self.register(BuiltinDirective::admonition("important"));
        self.register(BuiltinDirective::admonition("tip"));
        self.register(BuiltinDirective::admonition("caution"));
        self.register(BuiltinDirective::admonition("danger"));
        self.register(BuiltinDirective::admonition("error"));
        self.register(BuiltinDirective::admonition("hint"));
        self.register(BuiltinDirective::admonition("attention"));
        self.register(BuiltinDirective::admonition("seealso"));
        self.register(BuiltinDirective::GenericAdmonition);
        self.register(BuiltinDirective::CodeBlock);
        self.register(BuiltinDirective::LiteralInclude);
        self.register(BuiltinDirective::Highlight);
        self.register(BuiltinDirective::stub("toctree"));
        self.register(BuiltinDirective::stub("index"));
        self.register(BuiltinDirective::stub("only"));
        self.register(BuiltinDirective::stub("ifconfig"));
        self.register(BuiltinDirective::stub("image"));
        self.register(BuiltinDirective::stub("figure"));
        self.register(BuiltinDirective::stub("table"));
        self.register(BuiltinDirective::stub("csv-table"));
        self.register(BuiltinDirective::stub("list-table"));
        self.register(BuiltinDirective::stub("include"));
        self.register(BuiltinDirective::stub("raw"));
        self.register(BuiltinDirective::stub("math"));
        self.register(BuiltinDirective::stub("autodoc"));
        self.register(BuiltinDirective::stub("automodule"));
        self.register(BuiltinDirective::stub("autoclass"));
        self.register(BuiltinDirective::stub("autofunction"));
        self.register(BuiltinDirective::stub("meta"));
        self.register(BuiltinDirective::stub("sidebar"));
        self.register(BuiltinDirective::stub("topic"));
        self.register(BuiltinDirective::stub("rubric"));
        self.register(BuiltinDirective::stub("epigraph"));
        self.register(BuiltinDirective::stub("highlights"));
        self.register(BuiltinDirective::stub("pull-quote"));
        self.register(BuiltinDirective::stub("compound"));
        self.register(BuiltinDirective::stub("container"));
        self.register(BuiltinDirective::stub("versionadded"));
        self.register(BuiltinDirective::stub("versionchanged"));
        self.register(BuiltinDirective::stub("deprecated"));
    }
}

impl Default for DirectiveRegistry {
    fn default() -> (r: Self)
        ensures
            r.wf(),
    {
        Self::new()
    }
}

/// Characters allowed in a directive name after its first letter.
pub open spec fn is_name_char(c: char) -> bool {
    ('a' <= c && c <= 'z') || ('A' <= c && c <= 'Z') || ('0' <= c && c <= '9') || c == '_' || c == '-'
}

/// End of the run of name characters in `s` from `i`.
pub open spec fn name_end(s: Seq<char>, i: int) -> int
    decreases s.len() - i,
{
    if i < 0 || i >= s.len() || !is_name_char(s[i]) {
        i
    } else {
        name_end(s, i + 1)
    }
}

/// The name and argument text of a directive line `.. name:: arguments`,
/// when `text` is one: the name is a letter then letters, digits, `_` or
/// `-`; white space after `::` is skipped and the arguments run to the end
/// of the text, on one line.
pub open spec fn directive_parts(text: Seq<char>) -> Option<(Seq<char>, Seq<char>)> {
    if !has_prefix(text, ".. "@) || text.len() < 4 || !(('a' <= text[3] && text[3] <= 'z') || ('A' <= text[3]
        && text[3] <= 'Z')) {
        None
    } else {
        let e = name_end(text, 4);
        let rest = text.subrange(e, text.len() as int);
        if !has_prefix(rest, "::"@) {
            None
        } else {
            let a = trim_start(rest.subrange(2, rest.len() as int));
            if has_char(a, '\n') {
                None
            } else {
                Some((text.subrange(3, e), a))
            }
        }
    }
}

fn is_name_char_exec(c: char) -> (r: bool)
    ensures
        r == is_name_char(c),
{
    ('a' <= c && c <= 'z') || ('A' <= c && c <= 'Z') || ('0' <= c && c <= '9') || c == '_' || c == '-'
}

/// The arguments of a directive: the words of its argument text.
pub open spec fn argument_words(a: Seq<char>) -> Seq<Seq<char>> {
    if a.len() == 0 {
        Seq::empty()
    } else {
        words(a)
    }
}

/// Reads a directive line `.. name:: arguments`; `None` when `text` is not one.
pub fn parse_directive(text: &str, line_number: usize, source_file: &str) -> (r: Result<Option<Directive>, BuildError>)
    ensures
        directive_parts(text@).is_none() ==> r matches Ok(None),
        directive_parts(text@) matches Some(p) ==> (r matches Ok(Some(d)) && d.name@ == p.0 && views(d.arguments@)
            == argument_words(p.1) && d.options.wf() && d.options@.len() == 0 && d.content@.len() == 0
            && d.line_number == line_number && d.source_file@ == source_file@),
{
    proof {
        reveal_strlit(".. ");
        reveal_strlit("::");
    }
    let n = text.unicode_len();
    if n < 4 || !starts_with(text, ".. ") {
        return Ok(None);
    }
    let c = text.get_char(3);
    if !(('a' <= c && c <= 'z') || ('A' <= c && c <= 'Z')) {
        return Ok(None);
    }
    let mut e: usize = 4;
    while e < n && is_name_char_exec(text.get_char(e))
        invariant
            n == text@.len(),
            4 <= e <= n,
            name_end(text@, 4) == name_end(text@, e as int),
        decreases n - e,
    {
        e += 1;
    }
    assert(name_end(text@, e as int) == e);
    let ghost rest = text@.subrange(e as int, n as int);
    if n - e < 2 || text.get_char(e) != ':' || text.get_char(e + 1) != ':' {
        proof {
            if n - e >= 2 {
                assert(rest[0] == text@[e as int]);
                assert(rest[1] == text@[e + 1]);
                if has_prefix(rest, "::"@) {
                    assert(rest.subrange(0, 2)[0] == "::"@[0]);
                    assert(rest.subrange(0, 2)[1] == "::"@[1]);
                }
            }
        }
        return Ok(None);
    }
    assert(rest.subrange(0, 2) =~= "::"@);
    let mut k: usize = e + 2;
    let ghost after = rest.subrange(2, rest.len() as int);
    assert(after =~= text@.subrange(k as int, n as int));
    while k < n && is_space_char(text.get_char(k))
        invariant
            n == text@.len(),
            e + 2 <= k <= n,
            trim_start(after) == trim_start(text@.subrange(k as int, n as int)),
        decreases n - k,
    {
        assert(text@.subrange(k as int, n as int).drop_first() =~= text@.subrange(k + 1, n as int));
        k += 1;
    }
    let a = text.substring_char(k, n);
    assert(trim_start(a@) == a@);
    assert(trim_start(after) == a@);
    let ghost expected = if has_char(a@, '\n') {
        None
    } else {
        Some((text@.subrange(3, e as int), a@))
    };
    assert(directive_parts(text@) == expected);
    let mut i: usize = k;
    while i < n
        invariant
            directive_parts(text@) == expected,
            expected == (if has_char(a@, '\n') {
                None
            } else {
                Some((text@.subrange(3, e as int), a@))
            }),
            k <= i <= n,
            n == text@.len(),
            a@ == text@.subrange(k as int, n as int),
            forall|j: int| k <= j < i ==> text@[j] != '\n',
        decreases n - i,
    {
        if text.get_char(i) == '\n' {
            assert(a@[i - k] == '\n');
            assert(has_char(a@, '\n'));
            return Ok(None);
        }
        i += 1;
    }
    assert(!has_char(a@, '\n')) by {
        if has_char(a@, '\n') {
            let j = choose|j: int| 0 <= j < a@.len() && a@[j] == '\n';
            assert(text@[k + j] == '\n');
        }
    }
    let arguments = if k == n {
        let v: Vec<String> = Vec::new();
        assert(views(v@) =~= Seq::<Seq<char>>::empty());
        v
    } else {
        split_words(a)
    };
    let name = String::from_str(text.substring_char(3, e));
    Ok(
        Some(
            Directive {
                name,
                arguments,
                options: NameMap::new(),
                content: Vec::new(),
                line_number,
                source_file: String::from_str(source_file),
            },
        ),
    )
}

} // verus!
