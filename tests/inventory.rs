use sphinx_ultra::inventory::{Inventory, InventoryItem};

#[test]
fn test_inventory_item_creation() {
    let item = InventoryItem::new(
        "test_project".to_string(),
        "1.0".to_string(),
        "http://example.com/test.html".to_string(),
        "Test Item".to_string(),
    );

    assert_eq!(item.project_name, "test_project");
    assert_eq!(item.project_version, "1.0");
    assert_eq!(item.uri, "http://example.com/test.html");
    assert_eq!(item.display_name, "Test Item");
}

#[test]
fn test_inventory_operations() {
    let mut inv = Inventory::new();

    let item = InventoryItem::new(
        "test".to_string(),
        "1.0".to_string(),
        "test.html".to_string(),
        "Test".to_string(),
    );

    inv.insert(
        "py:function".to_string(),
        "test_func".to_string(),
        item.clone(),
    );

    assert!(inv.contains("py:function", "test_func"));
    assert_eq!(inv.get("py:function", "test_func"), Some(&item));
    assert!(!inv.contains("py:function", "nonexistent"));
}

#[test]
fn inventory_insert_replaces_same_name() {
    let mut inv = Inventory::new();
    let a = InventoryItem::new("p".to_string(), "1".to_string(), "a.html".to_string(), "A".to_string());
    let b = InventoryItem::new("p".to_string(), "1".to_string(), "b.html".to_string(), "B".to_string());
    inv.insert("py:class".to_string(), "X".to_string(), a.clone());
    inv.insert("py:function".to_string(), "X".to_string(), a.clone());
    inv.insert("py:class".to_string(), "X".to_string(), b.clone());
    assert_eq!(inv.get("py:class", "X"), Some(&b));
    assert_eq!(inv.get("py:function", "X"), Some(&a));
    assert_eq!(inv.get("py:method", "X"), None);
    assert_eq!(inv.data.len(), 2);
}

use sphinx_ultra::error::BuildError;
use sphinx_ultra::inventory::{parse_inventory_line, InventoryFile};
use base64::Engine;
use std::io::Write;

fn zlib(data: &str) -> Vec<u8> {
    let mut e = flate2::write::ZlibEncoder::new(Vec::new(), flate2::Compression::best());
    e.write_all(data.as_bytes()).unwrap();
    e.finish().unwrap()
}

fn format_message(r: Result<sphinx_ultra::inventory::Inventory, BuildError>) -> String {
    match r {
        Err(BuildError::InvalidFormat(m)) => m,
        Err(other) => panic!("unexpected error {:?}", other),
        Ok(_) => panic!("expected an error"),
    }
}

#[test]
fn test_parse_inventory_line() {
    let line = "test_function py:function 1 module.html#test_function Test Function";
    let parts = parse_inventory_line(line);

    assert_eq!(parts.len(), 5);
    assert_eq!(parts[0], "test_function");
    assert_eq!(parts[1], "py:function");
    assert_eq!(parts[2], "1");
    assert_eq!(parts[3], "module.html#test_function");
    assert_eq!(parts[4], "Test Function");
}

#[test]
fn loads_version_1() {
    let text = "# Sphinx inventory version 1\n# Project: Demo\n# Version: 2.0\n# comment\nmymod mod api.html\nfunc function api.html\nbroken\n";
    let inv = InventoryFile::loads(text.as_bytes(), "https://example.org/").unwrap();
    let m = inv.get("py:module", "mymod").unwrap();
    assert_eq!(m.uri, "https://example.org/api.html#module-mymod");
    assert_eq!(m.project_name, "Demo");
    assert_eq!(m.project_version, "2.0");
    assert_eq!(m.display_name, "-");
    assert_eq!(inv.get("py:function", "func").unwrap().uri, "https://example.org/api.html#func");
    assert!(!inv.contains("py:broken", "broken"));
}

#[test]
fn loads_version_2() {
    let body = "f py:function 1 api.html#$ -\nC py:class 1 api.html#klass The C\nbad line\nx nocolon 1 a.html -\n";
    let mut content = b"# Sphinx inventory version 2\n# Project: Demo\n# Version: 1.0\n# The remainder of this file is compressed using zlib.\n".to_vec();
    // the text is decoded before decompression, so the stream travels as base64
    content.extend_from_slice(base64::engine::general_purpose::STANDARD.encode(zlib(body)).as_bytes());
    let inv = InventoryFile::loads(&content, "").unwrap();
    let f = inv.get("py:function", "f").unwrap();
    assert_eq!(f.uri, "api.html#f");
    assert_eq!(f.display_name, "f");
    let c = inv.get("py:class", "C").unwrap();
    assert_eq!(c.uri, "api.html#klass");
    assert_eq!(c.display_name, "The C");
    assert!(!inv.contains("nocolon", "x"));
}

#[test]
fn inventory_header_errors() {
    assert_eq!(format_message(InventoryFile::loads(b"", "")), "Invalid inventory header: ");
    assert_eq!(
        format_message(InventoryFile::loads(b"# Sphinx inventory version 3\n", "")),
        "Unknown or unsupported inventory version: 3"
    );
    assert_eq!(
        format_message(InventoryFile::loads(b"# Sphinx inventory version 1\n", "")),
        "Missing project name"
    );
    assert_eq!(
        format_message(InventoryFile::loads(b"# Sphinx inventory version 1\n# Project: a\n", "")),
        "Missing project version"
    );
    assert_eq!(
        format_message(InventoryFile::loads(b"# Sphinx inventory version 2\n# Project: a\n# Version: b\n", "")),
        "Missing compression info"
    );
    assert_eq!(
        format_message(InventoryFile::loads(b"# Sphinx inventory version 1\nProject a\n# Version: b\n", "")),
        "Invalid inventory header: missing project name or version"
    );
    assert_eq!(
        format_message(InventoryFile::loads(b"# Sphinx inventory version 2\n# Project: a\n# Version: b\nplain\n", "")),
        "Invalid inventory header (not compressed): plain"
    );
    assert_eq!(
        format_message(InventoryFile::loads(b"# Sphinx inventory version 2\n# Project: a\n# Version: b\nzlib\nnot a stream", "")),
        "Failed to decompress inventory data"
    );
}
