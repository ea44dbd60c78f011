use sphinx_ultra::html::{CSSFile, JSFile};

#[test]
fn assets_are_served_from_static_unless_urls() {
    let css = CSSFile::new("theme.css", 200, None, None);
    assert_eq!(css.filename, "_static/theme.css");
    assert_eq!(css.rel, "stylesheet");
    assert_eq!(css.type_, "text/css");
    assert_eq!(CSSFile::new("https://cdn.example/x.css", 800, None, None).filename, "https://cdn.example/x.css");
    let js = JSFile::new("doctools.js", 200, false, true);
    assert_eq!(js.filename, "_static/doctools.js");
    assert_eq!(js.loading_method, "normal");
    assert!(js.defer);
    assert_eq!(JSFile::new("", 200, false, false).filename, "");
}
