//! Inline roles (`:name:`target``) and the HTML they render to.
use vstd::prelude::*;
use crate::error::BuildError;
use crate::namemap::NameMap;
use crate::render::{encode_text, html_text};
use crate::text::{
    concat3, concat5, str_eq, trim, trim_end_char, trim_end_char_str, trim_start_char, trim_start_char_str,
    trim_str,
};

verus! {

/// A role found in reStructuredText source.
#[derive(Debug, Clone)]
pub struct Role {
    pub name: String,
    pub target: String,
    pub text: Option<String>,
    pub line_number: usize,
    pub source_file: String,
}

/// Renders a role to HTML.
pub trait RoleProcessor {
    fn process(&self, role: &Role) -> Result<String, BuildError>;

    fn get_name(&self) -> &str;
}

/// The roles that come with the builder; an emphasis role carries its name
/// (`emphasis`, `strong`, `literal`, or another class name).
#[derive(Debug, Clone)]
pub enum BuiltinRole {
    Ref,
    Doc,
    Download,
    NumRef,
    Code,
    File,
    Program,
    Math,
    Emphasis(String),
}

/// What a role shows: its text, else its target.
pub open spec fn display_of(role: Role) -> Seq<char> {
    match role.text {
        Some(t) => t@,
        None => role.target@,
    }
}

/// The registered name of a built-in role.
pub open spec fn role_name(p: BuiltinRole) -> Seq<char> {
    match p {
        BuiltinRole::Ref => "ref"@,
        BuiltinRole::Doc => "doc"@,
        BuiltinRole::Download => "download"@,
        BuiltinRole::NumRef => "numref"@,
        BuiltinRole::Code => "code"@,
        BuiltinRole::File => "file"@,
        BuiltinRole::Program => "program"@,
        BuiltinRole::Math => "math"@,
        BuiltinRole::Emphasis(n) => n@,
    }
}

/// The HTML of `role` under the built-in processor `p`.
pub open spec fn role_html(p: BuiltinRole, role: Role) -> Seq<char> {
    let d = display_of(role);
    let e = html_text(d);
    match p {
        BuiltinRole::Ref => "<a class=\"reference internal\" href=\"#"@ + role.target@ + "\">"@ + d + "</a>"@,
        BuiltinRole::NumRef => "<a class=\"reference internal\" href=\"#"@ + role.target@ + "\">"@ + d + "</a>"@,
        BuiltinRole::Doc => "<a class=\"reference internal\" href=\""@ + role.target@ + ".html\">"@ + d + "</a>"@,
        BuiltinRole::Download => "<a class=\"reference download internal\" href=\""@ + role.target@
            + "\" download>"@ + d + "</a>"@,
        BuiltinRole::Code => "<code class=\"docutils literal notranslate\">"@ + e + "</code>"@,
        BuiltinRole::File => "<code class=\"file docutils literal notranslate\">"@ + e + "</code>"@,
        BuiltinRole::Program => "<strong class=\"program\">"@ + e + "</strong>"@,
        BuiltinRole::Math => "<span class=\"math notranslate nohighlight\">\\("@ + e + "\\)</span>"@,
        BuiltinRole::Emphasis(n) => if n@ == "emphasis"@ {
            "<em>"@ + e + "</em>"@
        } else if n@ == "strong"@ {
            "<strong>"@ + e + "</strong>"@
        } else if n@ == "literal"@ {
            "<code class=\"docutils literal notranslate\">"@ + e + "</code>"@
        } else {
            "<span class=\""@ + n@ + "\">"@ + e + "</span>"@
        },
    }
}

fn display_text(role: &Role) -> (r: &str)
    ensures
        r@ == display_of(*role),
{
    match &role.text {
        Some(t) => t.as_str(),
        None => role.target.as_str(),
    }
}

impl BuiltinRole {
    /// An emphasis role of the given name.
    pub fn emphasis(name: &str) -> (r: Self)
        ensures
            r matches BuiltinRole::Emphasis(n) && n@ == name@,
    {
        BuiltinRole::Emphasis(String::from_str(name))
    }

    pub fn html(&self, role: &Role) -> (r: String)
        ensures
            r@ == role_html(*self, *role),
    {
        let d = display_text(role);
        match self {
            BuiltinRole::Ref | BuiltinRole::NumRef => {
                concat5("<a class=\"reference internal\" href=\"#", role.target.as_str(), "\">", d, "</a>")
            },
            BuiltinRole::Doc => {
                concat5("<a class=\"reference internal\" href=\"", role.target.as_str(), ".html\">", d, "</a>")
            },
            BuiltinRole::Download => concat5(
                "<a class=\"reference download internal\" href=\"",
                role.target.as_str(),
                "\" download>",
                d,
                "</a>",
            ),
            BuiltinRole::Code => {
                let e = encode_text(d);
                concat3("<code class=\"docutils literal notranslate\">", e.as_str(), "</code>")
            },
            BuiltinRole::File => {
                let e = encode_text(d);
                concat3("<code class=\"file docutils literal notranslate\">", e.as_str(), "</code>")
            },
            BuiltinRole::Program => {
                let e = encode_text(d);
                concat3("<strong class=\"program\">", e.as_str(), "</strong>")
            },
            BuiltinRole::Math => {
                let e = encode_text(d);
                concat3("<span class=\"math notranslate nohighlight\">\\(", e.as_str(), "\\)</span>")
            },
            BuiltinRole::Emphasis(n) => {
                let e = encode_text(d);
                if str_eq(n.as_str(), "emphasis") {
                    concat3("<em>", e.as_str(), "</em>")
                } else if str_eq(n.as_str(), "strong") {
                    concat3("<strong>", e.as_str(), "</strong>")
                } else if str_eq(n.as_str(), "literal") {
                    concat3("<code class=\"docutils literal notranslate\">", e.as_str(), "</code>")
                } else {
                    concat5("<span class=\"", n.as_str(), "\">", e.as_str(), "</span>")
                }
            },
        }
    }

    pub fn name(&self) -> (r: &str)
        ensures
            r@ == role_name(*self),
    {
        match self {
            BuiltinRole::Ref => "ref",
            BuiltinRole::Doc => "doc",
            BuiltinRole::Download => "download",
            BuiltinRole::NumRef => "numref",
            BuiltinRole::Code => "code",
            BuiltinRole::File => "file",
            BuiltinRole::Program => "program",
            BuiltinRole::Math => "math",
            BuiltinRole::Emphasis(n) => n.as_str(),
        }
    }
}

impl RoleProcessor for BuiltinRole {
    fn process(&self, role: &Role) -> Result<String, BuildError> {
        Ok(self.html(role))
    }

    fn get_name(&self) -> &str {
        self.name()
    }
}

/// The HTML left for a role that no processor handles.
pub open spec fn unknown_role_html(name: Seq<char>) -> Seq<char> {
    "<!-- Unknown role: "@ + name + " -->"@
}

/// The names under which the built-in roles are registered.
pub open spec fn is_builtin_role_name(k: Seq<char>) -> bool {
    k == "ref"@
        || k == "doc"@
        || k == "download"@
        || k == "numref"@
        || k == "code"@
        || k == "file"@
        || k == "program"@
        || k == "math"@
        || k == "emphasis"@
        || k == "strong"@
        || k == "literal"@
}

/// The roles known by name.
pub struct RoleRegistry {
    processors: NameMap<BuiltinRole>,
}

impl RoleRegistry {
    /// The registered processors, by name.
    pub closed spec fn view(&self) -> Map<Seq<char>, BuiltinRole> {
        self.processors@
    }

    pub closed spec fn wf(&self) -> bool {
        self.processors.wf() && forall|k: Seq<char>| #[trigger] self.processors@.contains_key(k) ==> role_name(
            self.processors@[k],
        ) == k
    }

    /// A registry holding the built-in roles: `ref`, `doc`, `download`,
    /// `numref`, `code`, `file`, `program`, `math`, `emphasis`, `strong` and
    /// `literal`.
    pub fn new() -> (r: Self)
        ensures
            r.wf(),
            forall|k: Seq<char>| #[trigger] r@.contains_key(k) <==> is_builtin_role_name(k),
            forall|k: Seq<char>| #[trigger] r@.contains_key(k) ==> role_name(r@[k]) == k,
    {
        let mut r = RoleRegistry { processors: NameMap::new() };
        assert(r@ =~= Map::<Seq<char>, BuiltinRole>::empty());
        r.register_builtin_roles();
        r
    }

    /// Registers `processor` under its name, replacing one of the same name.
    pub fn register(&mut self, processor: BuiltinRole)
        requires
            old(self).wf(),
        ensures
            final(self).wf(),
            final(self)@ == old(self)@.insert(role_name(processor), processor),
    {
        let name = String::from_str(processor.name());
        self.processors.insert(name, processor);
    }

    pub fn get(&self, name: &str) -> (r: Option<&BuiltinRole>)
        requires
            self.wf(),
        ensures
            self@.contains_key(name@) ==> r == Some(&self@[name@]),
            !self@.contains_key(name@) ==> r.is_none(),
    {
        self.processors.get(name)
    }

    /// The HTML of `role`: its processor's, or a comment naming an unknown role.
    pub fn process_role(&self, role: &Role) -> (r: Result<String, BuildError>)
        requires
            self.wf(),
        ensures
            self@.contains_key(role.name@) ==> (r matches Ok(h) && h@ == role_html(self@[role.name@], *role)),
            !self@.contains_key(role.name@) ==> (r matches Ok(h) && h@ == unknown_role_html(role.name@)),
    {
        match self.get(role.name.as_str()) {
            Some(p) => Ok(p.html(role)),
            None => Ok(concat3("<!-- Unknown role: ", role.name.as_str(), " -->")),
        }
    }

    fn register_builtin_roles(&mut self)
        requires
            old(self).wf(),
            old(self)@ == Map::<Seq<char>, BuiltinRole>::empty(),
        ensures
            final(self).wf(),
            forall|k: Seq<char>| #[trigger] final(self)@.contains_key(k) <==> is_builtin_role_name(k),
    {
        proof {
            reveal_strlit("ref");
            reveal_strlit("doc");
            reveal_strlit("math");
            reveal_strlit("download");
            reveal_strlit("numref");
            reveal_strlit("code");
            reveal_strlit("file");
            reveal_strlit("program");
            reveal_strlit("emphasis");
            reveal_strlit("strong");
            reveal_strlit("literal");
        }
        self.register(BuiltinRole::Ref);
        self.register(BuiltinRole::Doc);
        self.register(BuiltinRole::Download);
        self.register(BuiltinRole::NumRef);
        self.register(BuiltinRole::Code);
        self.register(BuiltinRole::File);
        self.register(BuiltinRole::Program);
        self.register(BuiltinRole::Math);
        self.register(BuiltinRole::emphasis("emphasis"));
        self.register(BuiltinRole::emphasis("strong"));
        self.register(BuiltinRole::emphasis("literal"));
    }
}

/// The name and back-quoted part of the first role in `text`, as the pattern
/// ``:([a-zA-Z][a-zA-Z0-9_:-]*):(`[^`]+`)`` captures them.
pub uninterp spec fn role_pattern(text: Seq<char>) -> Option<(Seq<char>, Seq<char>)>;

/// The text and target of `content` written as `text <target>`, as the
/// pattern `^(.+?)\s*<(.+?)>$` captures them.
pub uninterp spec fn angle_pattern(content: Seq<char>) -> Option<(Seq<char>, Seq<char>)>;

/// Relies on `regex::Regex::captures` with the role pattern.
#[verifier::external_body]
fn match_role(text: &str) -> (r: Option<(String, String)>)
    ensures
        r matches Some(p) ==> role_pattern(text@) == Some((p.0@, p.1@)),
        r.is_none() ==> role_pattern(text@).is_none(),
{
    let re = regex::Regex::new(r":([a-zA-Z][a-zA-Z0-9_:-]*):(`[^`]+`)").ok()?;
    re.captures(text).map(|c| (c[1].to_string(), c[2].to_string()))
}

/// Relies on `regex::Regex::captures` with the `text <target>` pattern.
#[verifier::external_body]
fn match_angle(content: &str) -> (r: Option<(String, String)>)
    ensures
        r matches Some(p) ==> angle_pattern(content@) == Some((p.0@, p.1@)),
        r.is_none() ==> angle_pattern(content@).is_none(),
{
    let re = regex::Regex::new(r"^(.+?)\s*<(.+?)>$").ok()?;
    re.captures(content).map(|c| (c[1].to_string(), c[2].to_string()))
}

/// The name, target and text of the first role in `text`: the back quotes
/// are stripped, and `text <target>` is split, both parts trimmed.
pub open spec fn role_parts(text: Seq<char>) -> Option<(Seq<char>, Seq<char>, Option<Seq<char>>)> {
    match role_pattern(text) {
        None => None,
        Some(m) => {
            let c = trim_end_char(trim_start_char(m.1, '`'), '`');
            match angle_pattern(c) {
                Some(a) => Some((m.0, trim(a.1), Some(trim(a.0)))),
                None => Some((m.0, c, None)),
            }
        },
    }
}

/// Reads the first role in `text`; `None` when there is none.
pub fn parse_role(text: &str, line_number: usize, source_file: &str) -> (r: Result<Option<Role>, BuildError>)
    ensures
        role_parts(text@).is_none() ==> r matches Ok(None),
        role_parts(text@) matches Some(p) ==> (r matches Ok(Some(role)) && role.name@ == p.0 && role.target@ == p.1
            && (match p.2 {
            Some(t) => role.text matches Some(x) && x@ == t,
            None => role.text.is_none(),
        }) && role.line_number == line_number && role.source_file@ == source_file@),
{
    match match_role(text) {
        None => Ok(None),
        Some((name, quoted)) => {
            let stripped = trim_start_char_str(quoted.as_str(), '`');
            let content = trim_end_char_str(stripped.as_str(), '`');
            let (shown, target) = match match_angle(content.as_str()) {
                Some((t, g)) => (Some(trim_str(t.as_str())), trim_str(g.as_str())),
                None => (None, content),
            };
            Ok(Some(Role { name, target, text: shown, line_number, source_file: String::from_str(source_file) }))
        },
    }
}

} // verus!
