//! Inventories of documented objects, by object type and name.
use vstd::prelude::*;
use vstd::string::*;
use base64::Engine;
use std::io::Read;
use vstd::utf8::{decode_utf8, encode_utf8, valid_utf8};
use crate::error::BuildError;
use crate::namemap::NameMap;
use crate::text::{
    concat, contains_str, find_char, has_char, has_infix, has_prefix, has_suffix, index_of,
    join_lines, join_lines_from, lines_str, starts_with, str_eq, str_lines, trim, trim_end_char,
    trim_end_char_str, trim_str, views,
};

verus! {

/// Where an object of a project is documented.
#[derive(Debug, Clone, PartialEq, Eq, Hash)]
pub struct InventoryItem {
    pub project_name: String,
    pub project_version: String,
    pub uri: String,
    pub display_name: String,
}

impl InventoryItem {
    pub fn new(project_name: String, project_version: String, uri: String, display_name: String) -> (r: Self)
        ensures
            r.project_name == project_name,
            r.project_version == project_version,
            r.uri == uri,
            r.display_name == display_name,
    {
        InventoryItem { project_name, project_version, uri, display_name }
    }
}

/// What an item says: project, version, location and display name.
pub type ItemView = (Seq<char>, Seq<char>, Seq<char>, Seq<char>);

pub open spec fn item_view(i: InventoryItem) -> ItemView {
    (i.project_name@, i.project_version@, i.uri@, i.display_name@)
}

/// Items by object type (such as `py:function`), then by name.
#[derive(Debug, Clone)]
pub struct Inventory {
    pub data: NameMap<NameMap<InventoryItem>>,
}

impl Inventory {
    pub open spec fn wf(&self) -> bool {
        self.data.wf() && self.data.inner_wf()
    }

    /// Whether the inventory holds `name` under `obj_type`.
    pub open spec fn holds(&self, obj_type: Seq<char>, name: Seq<char>) -> bool {
        self.data@.contains_key(obj_type) && self.data@[obj_type]@.contains_key(name)
    }

    /// The items, by (object type, name).
    pub open spec fn model(&self) -> Map<(Seq<char>, Seq<char>), ItemView> {
        Map::new(
            |k: (Seq<char>, Seq<char>)| self.holds(k.0, k.1),
            |k: (Seq<char>, Seq<char>)| item_view(self.data@[k.0]@[k.1]),
        )
    }

    pub fn new() -> (r: Self)
        ensures
            r.wf(),
            r.data@.len() == 0,
            forall|t: Seq<char>, n: Seq<char>| !r.holds(t, n),
            r.model() == Map::<(Seq<char>, Seq<char>), ItemView>::empty(),
    {
        let data: NameMap<NameMap<InventoryItem>> = NameMap::new();
        let r = Inventory { data };
        assert(r.model() =~= Map::<(Seq<char>, Seq<char>), ItemView>::empty());
        r
    }

    /// Records `item` as `name` under `obj_type`, replacing what was there.
    pub fn insert(&mut self, obj_type: String, name: String, item: InventoryItem)
        requires
            old(self).wf(),
        ensures
            final(self).wf(),
            final(self).holds(obj_type@, name@),
            final(self).data@[obj_type@]@[name@] == item,
            forall|t: Seq<char>, n: Seq<char>| (t != obj_type@ || n != name@) ==> (final(self).holds(t, n)
                <==> old(self).holds(t, n)) && (final(self).holds(t, n) ==> final(self).data@[t]@[n]
                == old(self).data@[t]@[n]),
            final(self).model() == old(self).model().insert((obj_type@, name@), item_view(item)),
    {
        let ghost before = self.data@;
        self.data.insert_nested(obj_type, name, item);
        proof {
            assert forall|t: Seq<char>, n: Seq<char>| (t != obj_type@ || n != name@) implies (self.holds(t, n)
                <==> old(self).holds(t, n)) && (self.holds(t, n) ==> self.data@[t]@[n] == old(self).data@[t]@[n]) by {
                if t != obj_type@ {
                    assert(self.data@.remove(obj_type@).contains_key(t) == self.data@.contains_key(t));
                    assert(before.remove(obj_type@).contains_key(t) == before.contains_key(t));
                    if self.data@.contains_key(t) {
                        assert(self.data@.remove(obj_type@)[t] == self.data@[t]);
                        assert(before.remove(obj_type@)[t] == before[t]);
                    }
                }
            }
            assert(self.model() =~= old(self).model().insert((obj_type@, name@), item_view(item)));
        }
    }

    /// The item recorded as `name` under `obj_type`, if any.
    pub fn get(&self, obj_type: &str, name: &str) -> (r: Option<&InventoryItem>)
        requires
            self.wf(),
        ensures
            self.holds(obj_type@, name@) ==> r == Some(&self.data@[obj_type@]@[name@]),
            !self.holds(obj_type@, name@) ==> r.is_none(),
    {
        match self.data.get(obj_type) {
            Some(objects) => objects.get(name),
            None => None,
        }
    }

    pub fn contains(&self, obj_type: &str, name: &str) -> (r: bool)
        requires
            self.wf(),
        ensures
            r == self.holds(obj_type@, name@),
    {
        match self.data.get(obj_type) {
            Some(objects) => objects.contains_key(name),
            None => false,
        }
    }
}

/// The characters that `String::from_utf8_lossy` decodes from `b`.
pub uninterp spec fn lossy_utf8(b: Seq<u8>) -> Seq<char>;

/// The bytes that the standard base64 alphabet decodes from `s`, if valid.
pub uninterp spec fn base64_standard_decoded(s: Seq<char>) -> Option<Seq<u8>>;

/// The bytes that zlib decompression gives for `b`, if it is a valid stream.
pub uninterp spec fn zlib_decoded(b: Seq<u8>) -> Option<Seq<u8>>;

/// The five fields that the inventory line pattern captures in `line`, if it matches.
pub uninterp spec fn pattern_fields(line: Seq<char>) -> Option<Seq<Seq<char>>>;

/// The white-space separated words of `line`.
pub uninterp spec fn words(line: Seq<char>) -> Seq<Seq<char>>;

/// Relies on `String::from_utf8_lossy`: invalid sequences become U+FFFD.
#[verifier::external_body]
fn decode_lossy(b: &[u8]) -> (r: String)
    ensures
        r@ == lossy_utf8(b@),
{
    String::from_utf8_lossy(b).to_string()
}

/// Relies on `String::from_utf8`: the text when the bytes are valid UTF-8.
#[verifier::external_body]
fn decode_utf8_strict(b: Vec<u8>) -> (r: Option<String>)
    ensures
        r.is_some() == valid_utf8(b@),
        r matches Some(s) ==> s@ == decode_utf8(b@),
{
    String::from_utf8(b).ok()
}

/// Relies on `base64::Engine::decode` with the standard alphabet and padding.
#[verifier::external_body]
fn decode_base64(s: &str) -> (r: Option<Vec<u8>>)
    ensures
        r matches Some(v) ==> base64_standard_decoded(s@) == Some(v@),
        r.is_none() ==> base64_standard_decoded(s@).is_none(),
{
    base64::engine::general_purpose::STANDARD.decode(s).ok()
}

/// Relies on `flate2::read::ZlibDecoder` read to its end.
#[verifier::external_body]
fn inflate_zlib(b: &[u8]) -> (r: Option<Vec<u8>>)
    ensures
        r matches Some(v) ==> zlib_decoded(b@) == Some(v@),
        r.is_none() ==> zlib_decoded(b@).is_none(),
{
    let mut out = Vec::new();
    flate2::read::ZlibDecoder::new(b).read_to_end(&mut out).ok().map(|_| out)
}

/// Relies on `regex::Regex::captures` with the pattern
/// `(.+?)\s+(\S+)\s+(-?\d+)\s+?(\S*)\s+(.*)`: the five captured fields.
#[verifier::external_body]
fn match_fields(line: &str) -> (r: Option<Vec<String>>)
    ensures
        r matches Some(v) ==> pattern_fields(line@) == Some(views(v@)),
        r.is_none() ==> pattern_fields(line@).is_none(),
{
    let re = regex::Regex::new(r"(.+?)\s+(\S+)\s+(-?\d+)\s+?(\S*)\s+(.*)").ok()?;
    re.captures(line).map(|c| (1..6).map(|i| c.get(i).map_or("", |m| m.as_str()).to_string()).collect())
}

/// Relies on `str::split_whitespace`: the maximal runs of non-white-space characters.
#[verifier::external_body]
pub(crate) fn split_words(line: &str) -> (r: Vec<String>)
    ensures
        views(r@) == words(line@),
{
    line.split_whitespace().map(|w| w.to_string()).collect()
}

/// The fields of a compressed inventory line: those the pattern captures,
/// else its words.
pub open spec fn line_fields(line: Seq<char>) -> Seq<Seq<char>> {
    match pattern_fields(line) {
        Some(f) => f,
        None => words(line),
    }
}

/// The fields of an inventory line: name, type, priority, location and
/// display name when it is well formed.
pub fn parse_inventory_line(line: &str) -> (r: Vec<String>)
    ensures
        views(r@) == line_fields(line@),
{
    match match_fields(line) {
        Some(v) => v,
        None => split_words(line),
    }
}

/// `s` split at its first two spaces.
pub open spec fn split3(s: Seq<char>) -> Option<(Seq<char>, Seq<char>, Seq<char>)> {
    let i = index_of(s, ' ', 0);
    if i < 0 {
        None
    } else {
        let j = index_of(s, ' ', i + 1);
        if j < 0 {
            None
        } else {
            Some((s.subrange(0, i), s.subrange(i + 1, j), s.subrange(j + 1, s.len() as int)))
        }
    }
}

/// A location under the base `uri`, when there is one.
pub open spec fn located(uri: Seq<char>, loc: Seq<char>) -> Seq<char> {
    if uri.len() == 0 {
        loc
    } else {
        trim_end_char(uri, '/') + "/"@ + loc
    }
}

/// What one line of a version 1 inventory records, if anything.
pub open spec fn v1_entry(line: Seq<char>, project: Seq<char>, version: Seq<char>, uri: Seq<char>) -> Option<
    ((Seq<char>, Seq<char>), ItemView),
> {
    let t = trim(line);
    if t.len() == 0 || has_prefix(t, "#"@) {
        None
    } else {
        match split3(t) {
            None => None,
            Some(parts) => {
                let (name, ty, loc) = parts;
                let full = located(uri, loc);
                if ty == "mod"@ {
                    Some((("py:module"@, name), (project, version, full + "#module-"@ + name, "-"@)))
                } else {
                    Some((("py:"@ + ty, name), (project, version, full + "#"@ + name, "-"@)))
                }
            },
        }
    }
}

/// What one line of a decompressed version 2 inventory records, if anything.
pub open spec fn v2_entry(line: Seq<char>, project: Seq<char>, version: Seq<char>, uri: Seq<char>) -> Option<
    ((Seq<char>, Seq<char>), ItemView),
> {
    let t = trim(line);
    let f = line_fields(t);
    if t.len() == 0 || f.len() != 5 || !has_char(f[1], ':') {
        None
    } else {
        let name = f[0];
        let loc = if has_suffix(f[3], "$"@) {
            f[3].drop_last() + name
        } else {
            f[3]
        };
        let display = if f[4] == "-"@ {
            name
        } else {
            f[4]
        };
        Some(((f[1], name), (project, version, located(uri, loc), display)))
    }
}

/// The items that `lines` record, later lines replacing earlier ones.
pub open spec fn entries_model(
    lines: Seq<Seq<char>>,
    project: Seq<char>,
    version: Seq<char>,
    uri: Seq<char>,
    v2: bool,
) -> Map<(Seq<char>, Seq<char>), ItemView>
    decreases lines.len(),
{
    if lines.len() == 0 {
        Map::empty()
    } else {
        let prev = entries_model(lines.drop_last(), project, version, uri, v2);
        let e = if v2 {
            v2_entry(lines.last(), project, version, uri)
        } else {
            v1_entry(lines.last(), project, version, uri)
        };
        match e {
            Some(kv) => prev.insert(kv.0, kv.1),
            None => prev,
        }
    }
}

/// The header field after an 11-character label, trimmed.
pub open spec fn header_value(line: Seq<char>) -> Seq<char> {
    trim(line.subrange(11, line.len() as int))
}

/// Whether the two header lines carry the project and version labels.
pub open spec fn header_ok(project_line: Seq<char>, version_line: Seq<char>) -> bool {
    has_prefix(project_line, "# Project: "@) && has_prefix(version_line, "# Version: "@)
}

/// The bytes that the compressed part of a version 2 inventory is read
/// from: its base64 decoding, else its UTF-8 bytes.
pub open spec fn compressed_bytes(rest: Seq<char>) -> Seq<u8> {
    match base64_standard_decoded(rest) {
        Some(b) => b,
        None => encode_utf8(rest),
    }
}

/// An invalid-format error carrying `m`.
pub open spec fn format_error(r: Result<Inventory, BuildError>, m: Seq<char>) -> bool {
    r matches Err(BuildError::InvalidFormat(x)) && x@ == m
}

fn invalid(m: &str) -> (r: BuildError)
    ensures
        r matches BuildError::InvalidFormat(x) && x@ == m@,
{
    BuildError::InvalidFormat(String::from_str(m))
}

/// The text after an 11-character header label, trimmed.
fn header_field(line: &str) -> (r: String)
    requires
        line@.len() >= 11,
    ensures
        r@ == header_value(line@),
{
    let n = line.unicode_len();
    trim_str(line.substring_char(11, n))
}

/// The location of `loc` under `uri`.
fn locate(uri: &str, loc: &str) -> (r: String)
    ensures
        r@ == located(uri@, loc@),
{
    if uri.unicode_len() == 0 {
        String::from_str(loc)
    } else {
        let base = trim_end_char_str(uri, '/');
        let head = concat(base.as_str(), "/");
        concat(head.as_str(), loc)
    }
}

/// The lines of an inventory file's bytes.
pub open spec fn inventory_lines(content: Seq<u8>) -> Seq<Seq<char>> {
    str_lines(lossy_utf8(content))
}

/// The version header of an inventory file, trimmed (empty when the file is).
pub open spec fn inventory_head(content: Seq<u8>) -> Seq<char> {
    let lines = inventory_lines(content);
    if lines.len() > 0 {
        trim(lines[0])
    } else {
        Seq::empty()
    }
}

/// The lines after the version header.
pub open spec fn inventory_rest(content: Seq<u8>) -> Seq<Seq<char>> {
    let lines = inventory_lines(content);
    if lines.len() > 0 {
        lines.drop_first()
    } else {
        lines
    }
}

/// Inventory file reading, in the two formats of Sphinx inventories.
pub struct InventoryFile;

impl InventoryFile {
    /// Reads an inventory: a version header line, then the version's format.
    /// Locations are placed under `uri` when it is not empty.
    pub fn loads(content: &[u8], uri: &str) -> (r: Result<Inventory, BuildError>)
        ensures
            inventory_head(content@) == "# Sphinx inventory version 2"@ ==> v2_result(r, inventory_rest(content@), uri@),
            inventory_head(content@) == "# Sphinx inventory version 1"@ ==> v1_result(r, inventory_rest(content@), uri@),
            inventory_head(content@) != "# Sphinx inventory version 2"@ && inventory_head(content@)
                != "# Sphinx inventory version 1"@ && has_prefix(inventory_head(content@), "# Sphinx inventory version "@)
                ==> format_error(
                r,
                "Unknown or unsupported inventory version: "@ + inventory_head(content@).subrange(
                    27,
                    inventory_head(content@).len() as int,
                ),
            ),
            !has_prefix(inventory_head(content@), "# Sphinx inventory version "@) ==> format_error(
                r,
                "Invalid inventory header: "@ + inventory_head(content@),
            ),
    {
        let text = decode_lossy(content);
        let lines = lines_str(text.as_str());
        let head = if lines.len() > 0 {
            trim_str(lines[0].as_str())
        } else {
            String::new()
        };
        proof {
            reveal_strlit("# Sphinx inventory version 2");
            reveal_strlit("# Sphinx inventory version 1");
            reveal_strlit("# Sphinx inventory version ");
        }
        proof {
            if lines@.len() > 0 {
                assert(views(lines@)[0] == lines@[0]@);
            }
        }
        assert(lines@.len() == 0 ==> head@ =~= Seq::<char>::empty());
        if lines.len() > 0 && str_eq(head.as_str(), "# Sphinx inventory version 2") {
            assert(head@.subrange(0, 27) =~= "# Sphinx inventory version "@);
            assert(head@[27] != "# Sphinx inventory version 1"@[27]);
            Self::loads_v2(&lines, uri)
        } else if lines.len() > 0 && str_eq(head.as_str(), "# Sphinx inventory version 1") {
            assert(head@.subrange(0, 27) =~= "# Sphinx inventory version "@);
            Self::loads_v1(&lines, uri)
        } else if starts_with(head.as_str(), "# Sphinx inventory version ") {
            let n = head.unicode_len();
            let version = head.as_str().substring_char(27, n);
            Err(BuildError::InvalidFormat(concat("Unknown or unsupported inventory version: ", version)))
        } else {
            Err(BuildError::InvalidFormat(concat("Invalid inventory header: ", head.as_str())))
        }
    }

    /// Reads the version 1 format from `lines[1..]`: project and version
    /// lines, then one `name type location` line per item.
    fn loads_v1(lines: &Vec<String>, uri: &str) -> (r: Result<Inventory, BuildError>)
        requires
            lines@.len() >= 1,
        ensures
            v1_result(r, views(lines@).drop_first(), uri@),
    {
        let ghost rest = views(lines@).drop_first();
        if lines.len() < 2 {
            return Err(invalid("Missing project name"));
        }
        if lines.len() < 3 {
            return Err(invalid("Missing project version"));
        }
        let project_line = lines[1].as_str();
        let version_line = lines[2].as_str();
        if !starts_with(project_line, "# Project: ") || !starts_with(version_line, "# Version: ") {
            return Err(invalid("Invalid inventory header: missing project name or version"));
        }
        proof {
            reveal_strlit("# Project: ");
            reveal_strlit("# Version: ");
        }
        let project = header_field(project_line);
        let version = header_field(version_line);
        let mut inv = Inventory::new();
        let mut i: usize = 3;
        let ghost body = views(lines@).subrange(3, lines@.len() as int);
        assert(rest.subrange(2, rest.len() as int) =~= body);
        assert(body.take(0) =~= Seq::<Seq<char>>::empty());
        while i < lines.len()
            invariant
                3 <= i <= lines@.len(),
                body == views(lines@).subrange(3, lines@.len() as int),
                inv.wf(),
                inv.model() == entries_model(body.take(i - 3), project@, version@, uri@, false),
            decreases lines@.len() - i,
        {
            let ghost tk = body.take(i - 2);
            assert(tk.drop_last() =~= body.take(i - 3));
            assert(tk.last() == lines@[i as int]@);
            let line = trim_str(lines[i].as_str());
            if line.unicode_len() > 0 && !starts_with(line.as_str(), "#") {
                match find_char(line.as_str(), ' ', 0) {
                    Some(a) => {
                        match find_char(line.as_str(), ' ', a + 1) {
                            Some(b) => {
                                let n = line.unicode_len();
                                let name = line.as_str().substring_char(0, a);
                                let ty = line.as_str().substring_char(a + 1, b);
                                let loc = line.as_str().substring_char(b + 1, n);
                                let full = locate(uri, loc);
                                proof {
                                    reveal_strlit("mod");
                                }
                                let (domain_type, anchor) = if str_eq(ty, "mod") {
                                    (String::from_str("py:module"), concat("#module-", name))
                                } else {
                                    (concat("py:", ty), concat("#", name))
                                };
                                let item = InventoryItem::new(
                                    project.clone(),
                                    version.clone(),
                                    concat(full.as_str(), anchor.as_str()),
                                    String::from_str("-"),
                                );
                                proof {
                                    assert(split3(line@) == Some((name@, ty@, loc@)));
                                    assert(v1_entry(tk.last(), project@, version@, uri@) == Some(
                                        ((domain_type@, name@), item_view(item)),
                                    ));
                                }
                                inv.insert(domain_type, String::from_str(name), item);
                            },
                            None => {
                                assert(split3(line@).is_none());
                            },
                        }
                    },
                    None => {
                        assert(split3(line@).is_none());
                    },
                }
            }
            i += 1;
        }
        assert(body.take(body.len() as int) =~= body);
        Ok(inv)
    }

    /// Reads the version 2 format from `lines[1..]`: project, version and
    /// compression lines, then the zlib stream (base64 text, else the raw
    /// text's bytes) of `name type priority location display` lines.
    fn loads_v2(lines: &Vec<String>, uri: &str) -> (r: Result<Inventory, BuildError>)
        requires
            lines@.len() >= 1,
        ensures
            v2_result(r, views(lines@).drop_first(), uri@),
    {
        let ghost rest = views(lines@).drop_first();
        if lines.len() < 2 {
            return Err(invalid("Missing project name"));
        }
        if lines.len() < 3 {
            return Err(invalid("Missing project version"));
        }
        if lines.len() < 4 {
            return Err(invalid("Missing compression info"));
        }
        let project_line = lines[1].as_str();
        let version_line = lines[2].as_str();
        if !starts_with(project_line, "# Project: ") || !starts_with(version_line, "# Version: ") {
            return Err(invalid("Invalid inventory header: missing project name or version"));
        }
        proof {
            reveal_strlit("# Project: ");
            reveal_strlit("# Version: ");
        }
        let project = header_field(project_line);
        let version = header_field(version_line);
        if !contains_str(lines[3].as_str(), "zlib") {
            return Err(BuildError::InvalidFormat(concat(
                "Invalid inventory header (not compressed): ",
                lines[3].as_str(),
            )));
        }
        let remaining = join_lines_from(lines, 4);
        assert(rest.subrange(3, rest.len() as int) =~= views(lines@).subrange(4, lines@.len() as int));
        let compressed = match decode_base64(remaining.as_str()) {
            Some(b) => b,
            None => bytes_of(remaining.as_str()),
        };
        let decompressed = match inflate_zlib(compressed.as_slice()) {
            Some(d) => d,
            None => return Err(invalid("Failed to decompress inventory data")),
        };
        let text = match decode_utf8_strict(decompressed) {
            Some(t) => t,
            None => return Err(invalid("Inventory data is not valid UTF-8")),
        };
        let body = lines_str(text.as_str());
        let mut inv = Inventory::new();
        let mut i: usize = 0;
        assert(views(body@).take(0) =~= Seq::<Seq<char>>::empty());
        while i < body.len()
            invariant
                i <= body@.len(),
                inv.wf(),
                inv.model() == entries_model(views(body@).take(i as int), project@, version@, uri@, true),
            decreases body@.len() - i,
        {
            let ghost tk = views(body@).take(i + 1);
            assert(tk.drop_last() =~= views(body@).take(i as int));
            assert(tk.last() == body@[i as int]@);
            let line = trim_str(body[i].as_str());
            if line.unicode_len() > 0 {
                let parts = parse_inventory_line(line.as_str());
                if parts.len() == 5 && contains_char(parts[1].as_str(), ':') {
                    let name = parts[0].as_str();
                    let loc = if ends_with_dollar(parts[3].as_str()) {
                        let n = parts[3].unicode_len();
                        concat(parts[3].as_str().substring_char(0, n - 1), name)
                    } else {
                        String::from_str(parts[3].as_str())
                    };
                    let display = if str_eq(parts[4].as_str(), "-") {
                        String::from_str(name)
                    } else {
                        String::from_str(parts[4].as_str())
                    };
                    let item = InventoryItem::new(project.clone(), version.clone(), locate(uri, loc.as_str()), display);
                    proof {
                        reveal_strlit("-");
                        assert(views(parts@)[0] == parts@[0]@);
                        assert(views(parts@)[1] == parts@[1]@);
                        assert(views(parts@)[3] == parts@[3]@);
                        assert(views(parts@)[4] == parts@[4]@);
                    }
                    inv.insert(String::from_str(parts[1].as_str()), String::from_str(name), item);
                } else {
                    proof {
                        if parts@.len() == 5 {
                            assert(views(parts@)[1] == parts@[1]@);
                        }
                    }
                }
            }
            i += 1;
        }
        assert(views(body@).take(body@.len() as int) =~= views(body@));
        Ok(inv)
    }
}

/// Whether `s` ends with `$`.
fn ends_with_dollar(s: &str) -> (r: bool)
    ensures
        r == has_suffix(s@, "$"@),
        r ==> s@.len() >= 1,
{
    proof {
        reveal_strlit("$");
    }
    let n = s.unicode_len();
    if n == 0 {
        false
    } else {
        let r = s.get_char(n - 1) == '$';
        assert(r ==> s@.subrange(n - 1, n as int) =~= "$"@);
        assert(s@.subrange(n - 1, n as int)[0] == s@[n - 1]);
        r
    }
}

/// Whether `c` occurs in `s`.
fn contains_char(s: &str, c: char) -> (r: bool)
    ensures
        r == has_char(s@, c),
{
    let n = s.unicode_len();
    let mut i: usize = 0;
    while i < n
        invariant
            n == s@.len(),
            i <= n,
            forall|j: int| 0 <= j < i ==> s@[j] != c,
        decreases n - i,
    {
        if s.get_char(i) == c {
            return true;
        }
        i += 1;
    }
    false
}

/// The UTF-8 bytes of `s`.
fn bytes_of(s: &str) -> (r: Vec<u8>)
    ensures
        r@ == encode_utf8(s@),
{
    let b = s.as_bytes();
    let mut out: Vec<u8> = Vec::new();
    let mut i: usize = 0;
    while i < b.len()
        invariant
            i <= b@.len(),
            b@ == encode_utf8(s@),
            out@ == b@.take(i as int),
        decreases b@.len() - i,
    {
        out.push(b[i]);
        i += 1;
        assert(out@ =~= b@.take(i as int));
    }
    assert(b@.take(b@.len() as int) =~= b@);
    out
}

/// The outcome of reading a version 1 body (`rest`: the lines after the
/// version header).
pub open spec fn v1_result(r: Result<Inventory, BuildError>, rest: Seq<Seq<char>>, uri: Seq<char>) -> bool {
    if rest.len() < 1 {
        format_error(r, "Missing project name"@)
    } else if rest.len() < 2 {
        format_error(r, "Missing project version"@)
    } else if !header_ok(rest[0], rest[1]) {
        format_error(r, "Invalid inventory header: missing project name or version"@)
    } else {
        r matches Ok(inv) && inv.wf() && inv.model() == entries_model(
            rest.subrange(2, rest.len() as int),
            header_value(rest[0]),
            header_value(rest[1]),
            uri,
            false,
        )
    }
}

/// The outcome of reading a version 2 body (`rest`: the lines after the
/// version header).
pub open spec fn v2_result(r: Result<Inventory, BuildError>, rest: Seq<Seq<char>>, uri: Seq<char>) -> bool {
    if rest.len() < 1 {
        format_error(r, "Missing project name"@)
    } else if rest.len() < 2 {
        format_error(r, "Missing project version"@)
    } else if rest.len() < 3 {
        format_error(r, "Missing compression info"@)
    } else if !header_ok(rest[0], rest[1]) {
        format_error(r, "Invalid inventory header: missing project name or version"@)
    } else if !has_infix(rest[2], "zlib"@) {
        format_error(r, "Invalid inventory header (not compressed): "@ + rest[2])
    } else {
        let stream = zlib_decoded(compressed_bytes(join_lines(rest.subrange(3, rest.len() as int))));
        match stream {
            None => format_error(r, "Failed to decompress inventory data"@),
            Some(bytes) => if !valid_utf8(bytes) {
                format_error(r, "Inventory data is not valid UTF-8"@)
            } else {
                r matches Ok(inv) && inv.wf() && inv.model() == entries_model(
                    str_lines(decode_utf8(bytes)),
                    header_value(rest[0]),
                    header_value(rest[1]),
                    uri,
                    true,
                )
            },
        }
    }
}

} // verus!
