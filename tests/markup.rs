use sphinx_ultra::directives::{
    parse_directive, BuiltinDirective, Directive, DirectiveProcessor, DirectiveRegistry,
};
use sphinx_ultra::error::BuildError;
use sphinx_ultra::namemap::NameMap;
use sphinx_ultra::roles::{parse_role, BuiltinRole, Role, RoleProcessor, RoleRegistry};

fn role(name: &str, target: &str, text: Option<&str>) -> Role {
    Role {
        name: name.to_string(),
        target: target.to_string(),
        text: text.map(|t| t.to_string()),
        line_number: 1,
        source_file: "a.rst".to_string(),
    }
}

fn directive(name: &str, args: &[&str], content: &[&str]) -> Directive {
    Directive {
        name: name.to_string(),
        arguments: args.iter().map(|s| s.to_string()).collect(),
        options: NameMap::new(),
        content: content.iter().map(|s| s.to_string()).collect(),
        line_number: 1,
        source_file: "a.rst".to_string(),
    }
}

#[test]
fn roles_render_links_and_escaped_text() {
    let reg = RoleRegistry::new();
    assert_eq!(
        reg.process_role(&role("ref", "sec", Some("Section"))).unwrap(),
        "<a class=\"reference internal\" href=\"#sec\">Section</a>"
    );
    assert_eq!(
        reg.process_role(&role("doc", "guide/intro", None)).unwrap(),
        "<a class=\"reference internal\" href=\"guide/intro.html\">guide/intro</a>"
    );
    assert_eq!(
        reg.process_role(&role("code", "a<b", None)).unwrap(),
        "<code class=\"docutils literal notranslate\">a&lt;b</code>"
    );
    assert_eq!(reg.process_role(&role("strong", "x&y", None)).unwrap(), "<strong>x&amp;y</strong>");
    assert_eq!(reg.process_role(&role("nope", "x", None)).unwrap(), "<!-- Unknown role: nope -->");
    assert!(reg.get("math").is_some());
    assert_eq!(BuiltinRole::emphasis("kbd").process(&role("kbd", "C-x", None)).unwrap(), "<span class=\"kbd\">C-x</span>");
    assert_eq!(BuiltinRole::Download.get_name(), "download");
}

#[test]
fn role_parsing_splits_text_and_target() {
    let r = parse_role("see :ref:`the intro <intro>` here", 4, "a.rst").unwrap().unwrap();
    assert_eq!(r.name, "ref");
    assert_eq!(r.target, "intro");
    assert_eq!(r.text.as_deref(), Some("the intro"));
    assert_eq!(r.line_number, 4);
    let r = parse_role(":py:func:`len`", 1, "a.rst").unwrap().unwrap();
    assert_eq!(r.name, "py:func");
    assert_eq!(r.target, "len");
    assert!(r.text.is_none());
    assert!(parse_role("no roles here", 1, "a.rst").unwrap().is_none());
}

#[test]
fn directives_render_admonitions_and_code() {
    let reg = DirectiveRegistry::new();
    assert_eq!(
        reg.process_directive(&directive("note", &[], &["a", "b"])).unwrap(),
        "<div class=\"admonition note\"><p class=\"admonition-title\">Note</p>a\nb</div>"
    );
    assert_eq!(
        reg.process_directive(&directive("seealso", &[], &[])).unwrap(),
        "<div class=\"admonition seealso\"><p class=\"admonition-title\">See also</p></div>"
    );
    assert_eq!(
        reg.process_directive(&directive("admonition", &["Custom"], &["x"])).unwrap(),
        "<div class=\"admonition admonition-generic\"><p class=\"admonition-title\">Custom</p>x</div>"
    );
    let mut code = directive("code-block", &["rust"], &["a < b"]);
    code.options.insert("caption".to_string(), "Example".to_string());
    assert_eq!(
        reg.process_directive(&code).unwrap(),
        "<div class=\"code-block-caption\">Example</div><div class=\"highlight-rust\"><pre><code class=\"language-rust\">a &lt; b</code></pre></div>"
    );
    assert_eq!(
        reg.process_directive(&directive("highlight", &[], &[])).unwrap(),
        "<!-- highlight language set to text -->"
    );
    assert_eq!(
        reg.process_directive(&directive("toctree", &["a", "b"], &[])).unwrap(),
        "<!-- toctree directive: a b -->"
    );
    assert_eq!(reg.process_directive(&directive("nope", &[], &[])).unwrap(), "<!-- Unknown directive: nope -->");
}

#[test]
fn literal_include_language_and_errors() {
    let reg = DirectiveRegistry::new();
    assert_eq!(
        reg.process_directive(&directive("literalinclude", &["src/main.rs"], &[])).unwrap(),
        "<div class=\"literal-include\"><div class=\"highlight-rust\"><pre><code class=\"language-rust\"><!-- Content of src/main.rs would be included here --></code></pre></div></div>"
    );
    let mut d = directive("literalinclude", &["x.cfg"], &[]);
    assert!(reg.process_directive(&d).unwrap().contains("highlight-text"));
    d.options.insert("language".to_string(), "ini".to_string());
    assert!(reg.process_directive(&d).unwrap().contains("highlight-ini"));
    assert!(matches!(
        reg.process_directive(&directive("literalinclude", &[], &[])),
        Err(BuildError::InvalidFormat(m)) if m == "literalinclude directive requires a filename"
    ));
}

#[test]
fn option_specs_list_accepted_options() {
    let spec = BuiltinDirective::CodeBlock.get_option_spec();
    let names: Vec<&str> = spec.iter().map(|(n, _)| n.as_str()).collect();
    assert_eq!(names, vec!["linenos", "lineno-start", "emphasize-lines", "caption", "name", "dedent", "force"]);
    assert_eq!(BuiltinDirective::LiteralInclude.get_option_spec().len(), 19);
    assert!(BuiltinDirective::stub("topic").get_option_spec().is_empty());
    assert_eq!(BuiltinDirective::admonition("tip").get_name(), "tip");
}

#[test]
fn directive_lines_are_parsed() {
    let d = parse_directive(".. code-block::   python  linenos", 7, "a.rst").unwrap().unwrap();
    assert_eq!(d.name, "code-block");
    assert_eq!(d.arguments, vec!["python".to_string(), "linenos".to_string()]);
    assert_eq!(d.line_number, 7);
    let d = parse_directive(".. note::", 1, "a.rst").unwrap().unwrap();
    assert!(d.arguments.is_empty());
    assert!(parse_directive("..note::", 1, "a.rst").unwrap().is_none());
    assert!(parse_directive(".. 9note::", 1, "a.rst").unwrap().is_none());
    assert!(parse_directive(".. note: x", 1, "a.rst").unwrap().is_none());
    assert!(parse_directive(".. note:: a\nb", 1, "a.rst").unwrap().is_none());
}
