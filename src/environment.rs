//! Domains of documented objects (Python, C++, JavaScript, standard) and
//! the objects recorded in them.
use vstd::prelude::*;
use crate::namemap::NameMap;

verus! {

/// A kind of object that a domain documents, with the roles that refer to it.
#[derive(Debug, Clone)]
pub struct ObjectType {
    pub lname: String,
    pub roles: Vec<String>,
    pub attrs: NameMap<bool>,
}

/// A documented object: a function, a class, a module, ...
#[derive(Debug, Clone)]
pub struct DomainObject {
    pub name: String,
    pub display_name: Option<String>,
    pub object_type: String,
    pub docname: String,
    pub anchor: Option<String>,
    pub priority: i32,
    pub description: Option<String>,
    pub signature: Option<String>,
    pub deprecated: bool,
}

/// An index page of a domain.
#[derive(Debug, Clone)]
pub struct DomainIndex {
    pub name: String,
    pub localname: String,
    pub shortname: Option<String>,
    pub entries: Vec<IndexEntry>,
}

/// An entry of an index page, with its nested entries.
#[derive(Debug)]
pub struct IndexEntry {
    pub name: String,
    pub subentries: Vec<IndexEntry>,
    pub uri: String,
    pub display_name: String,
    pub extra: Option<String>,
}

/// A deep copy of `e`, its nested entries included.
fn copy_index_entry(e: &IndexEntry) -> (r: IndexEntry)
    ensures
        r.name == e.name,
        r.uri == e.uri,
        r.display_name == e.display_name,
        r.extra == e.extra,
        r.subentries@.len() == e.subentries@.len(),
    decreases e,
{
    let mut subentries: Vec<IndexEntry> = Vec::new();
    let mut i: usize = 0;
    while i < e.subentries.len()
        invariant
            i <= e.subentries@.len(),
            subentries@.len() == i,
        decreases e.subentries@.len() - i,
    {
        proof {
            vstd::std_specs::vec::axiom_vec_index_decreases(e.subentries, i as int);
        }
        subentries.push(copy_index_entry(&e.subentries[i]));
        i += 1;
    }
    let extra = match &e.extra {
        Some(x) => Some(x.clone()),
        None => None,
    };
    IndexEntry {
        name: e.name.clone(),
        subentries,
        uri: e.uri.clone(),
        display_name: e.display_name.clone(),
        extra,
    }
}

impl Clone for IndexEntry {
    fn clone(&self) -> Self {
        copy_index_entry(self)
    }
}

/// A domain: its object types and the objects recorded under each type.
#[derive(Debug, Clone)]
pub struct Domain {
    pub name: String,
    pub label: String,
    pub object_types: NameMap<ObjectType>,
    pub objects: NameMap<Vec<DomainObject>>,
    pub indices: Vec<DomainIndex>,
}

/// The objects of `lists`, list after list.
pub open spec fn flatten(lists: Seq<Vec<DomainObject>>) -> Seq<DomainObject>
    decreases lists.len(),
{
    if lists.len() == 0 {
        Seq::empty()
    } else {
        flatten(lists.drop_last()) + lists.last()@
    }
}

impl Domain {
    pub open spec fn wf(&self) -> bool {
        self.object_types.wf() && self.objects.wf()
    }

    pub fn new(name: &str) -> (r: Self)
        ensures
            r.wf(),
            r.name@ == name@,
            r.label@ == name@,
            r.object_types@.len() == 0,
            r.objects@.len() == 0,
            r.object_types.names().len() == 0,
            r.objects.names().len() == 0,
            r.indices@.len() == 0,
    {
        Domain {
            name: String::from_str(name),
            label: String::from_str(name),
            object_types: NameMap::new(),
            objects: NameMap::new(),
            indices: Vec::new(),
        }
    }

    /// Records `object` under `obj_type`, after the objects already there.
    pub fn add_object(&mut self, obj_type: &str, object: DomainObject)
        requires
            old(self).wf(),
        ensures
            final(self).wf(),
            final(self).objects@.contains_key(obj_type@),
            final(self).objects@[obj_type@]@ == (if old(self).objects@.contains_key(obj_type@) {
                old(self).objects@[obj_type@]@
            } else {
                Seq::empty()
            }).push(object),
            final(self).objects@.remove(obj_type@) == old(self).objects@.remove(obj_type@),
            final(self).object_types == old(self).object_types,
            final(self).name == old(self).name,
    {
        self.objects.push_item(String::from_str(obj_type), object);
    }

    /// Every recorded object, type by type in the order the types were first
    /// used, and in order of recording within a type.
    pub fn get_objects(&self) -> (r: Vec<&DomainObject>)
        requires
            self.wf(),
        ensures
            r@.len() == flatten(self.objects.values()).len(),
            forall|i: int| 0 <= i < r@.len() ==> *r@[i] == flatten(self.objects.values())[i],
    {
        let lists = self.objects.value_refs();
        let mut out: Vec<&DomainObject> = Vec::new();
        let mut i: usize = 0;
        let ghost vals = self.objects.values();
        assert(vals.take(0) =~= Seq::<Vec<DomainObject>>::empty());
        while i < lists.len()
            invariant
                i <= lists@.len(),
                lists@.len() == vals.len(),
                forall|j: int| 0 <= j < lists@.len() ==> *lists@[j] == vals[j],
                out@.len() == flatten(vals.take(i as int)).len(),
                forall|j: int| 0 <= j < out@.len() ==> *out@[j] == flatten(vals.take(i as int))[j],
            decreases lists@.len() - i,
        {
            let list = lists[i];
            let ghost before = flatten(vals.take(i as int));
            let mut k: usize = 0;
            while k < list.len()
                invariant
                    k <= list@.len(),
                    out@.len() == before.len() + k,
                    forall|j: int| 0 <= j < before.len() ==> *out@[j] == before[j],
                    forall|j: int| 0 <= j < k ==> *out@[before.len() + j] == list@[j],
                decreases list@.len() - k,
            {
                out.push(&list[k]);
                k += 1;
            }
            proof {
                let tk = vals.take(i + 1);
                assert(tk.drop_last() =~= vals.take(i as int));
                assert(tk.last() == *list);
                assert(flatten(tk) =~= before + list@);
                assert forall|j: int| 0 <= j < out@.len() implies *out@[j] == flatten(tk)[j] by {
                    if j >= before.len() {
                        assert(*out@[before.len() + (j - before.len())] == list@[j - before.len()]);
                    }
                }
            }
            i += 1;
        }
        assert(vals.take(vals.len() as int) =~= vals);
        out
    }

    /// Every recorded object, as `get_objects` lists them.
    pub fn get_all_objects(&self) -> (r: Vec<&DomainObject>)
        requires
            self.wf(),
        ensures
            r@.len() == flatten(self.objects.values()).len(),
            forall|i: int| 0 <= i < r@.len() ==> *r@[i] == flatten(self.objects.values())[i],
    {
        self.get_objects()
    }

    /// The objects recorded under `obj_type`, if any.
    pub fn get_objects_by_type(&self, obj_type: &str) -> (r: Option<&Vec<DomainObject>>)
        requires
            self.wf(),
        ensures
            self.objects@.contains_key(obj_type@) ==> r == Some(&self.objects@[obj_type@]),
            !self.objects@.contains_key(obj_type@) ==> r.is_none(),
    {
        self.objects.get(obj_type)
    }
}

impl DomainObject {
    pub fn new(name: String, object_type: String, docname: String, anchor: Option<String>, priority: i32) -> (r: Self)
        ensures
            r == (DomainObject {
                name,
                display_name: None,
                object_type,
                docname,
                anchor,
                priority,
                description: None,
                signature: None,
                deprecated: false,
            }),
    {
        DomainObject {
            name,
            display_name: None,
            object_type,
            docname,
            anchor,
            priority,
            description: None,
            signature: None,
            deprecated: false,
        }
    }

    pub fn with_display_name(self, display_name: String) -> (r: Self)
        ensures
            r == (DomainObject { display_name: Some(display_name), ..self }),
    {
        DomainObject { display_name: Some(display_name), ..self }
    }

    pub fn with_description(self, description: String) -> (r: Self)
        ensures
            r == (DomainObject { description: Some(description), ..self }),
    {
        DomainObject { description: Some(description), ..self }
    }

    pub fn with_signature(self, signature: String) -> (r: Self)
        ensures
            r == (DomainObject { signature: Some(signature), ..self }),
    {
        DomainObject { signature: Some(signature), ..self }
    }

    pub fn with_deprecated(self, deprecated: bool) -> (r: Self)
        ensures
            r == (DomainObject { deprecated, ..self }),
    {
        DomainObject { deprecated, ..self }
    }
}

/// An object type named `lname`, referred to by `roles`, with no attributes.
fn object_type(lname: &str, roles: &[&str]) -> (r: ObjectType)
    ensures
        r.lname@ == lname@,
        r.roles@.len() == roles@.len(),
        forall|i: int| 0 <= i < roles@.len() ==> r.roles@[i]@ == roles@[i]@,
        r.attrs.wf(),
        r.attrs@.len() == 0,
{
    let mut names: Vec<String> = Vec::new();
    let mut i: usize = 0;
    while i < roles.len()
        invariant
            i <= roles@.len(),
            names@.len() == i,
            forall|j: int| 0 <= j < i ==> names@[j]@ == roles@[j]@,
        decreases roles@.len() - i,
    {
        names.push(String::from_str(roles[i]));
        i += 1;
    }
    ObjectType { lname: String::from_str(lname), roles: names, attrs: NameMap::new() }
}

/// Registers the object type `key` in `d`.
fn add_type(d: &mut Domain, key: &str, lname: &str, roles: &[&str])
    requires
        old(d).wf(),
    ensures
        final(d).wf(),
        final(d).object_types@.contains_key(key@),
        final(d).object_types@[key@].lname@ == lname@,
        final(d).object_types@ == old(d).object_types@.insert(key@, final(d).object_types@[key@]),
        !old(d).object_types.names().contains(key@) ==> final(d).object_types.names()
            == old(d).object_types.names().push(key@),
        final(d).indices == old(d).indices,
        final(d).name == old(d).name,
        final(d).label == old(d).label,
        final(d).objects == old(d).objects,
{
    let t = object_type(lname, roles);
    d.object_types.insert(String::from_str(key), t);
}

/// The built-in domains: `py`, `cpp`, `js` and `std`, each with its object types.
pub fn create_standard_domains() -> (r: NameMap<Domain>)
    ensures
        r.wf(),
        r.names() == seq!["py"@, "cpp"@, "js"@, "std"@],
        forall|k: Seq<char>| #[trigger] r@.contains_key(k) ==> r@[k].wf() && r@[k].name@ == k && r@[k].label@ == k
            && r@[k].objects@.len() == 0 && r@[k].indices@.len() == 0,
        r@["py"@].object_types.names() == seq!["module"@, "function"@, "class"@, "method"@, "attribute"@, "exception"@, "data"@],
        r@["cpp"@].object_types.names() == seq!["class"@, "function"@, "type"@],
        r@["js"@].object_types.names() == seq!["module"@, "class"@, "function"@, "method"@, "data"@],
        r@["std"@].object_types.names() == seq!["doc"@, "label"@, "term"@, "cmdoption"@, "envvar"@],
        r@["std"@].object_types@["cmdoption"@].lname@ == "command line option"@,
        r@["std"@].object_types@["envvar"@].lname@ == "environment variable"@,
{
    proof {
        reveal_strlit("attribute");
        reveal_strlit("class");
        reveal_strlit("cmdoption");
        reveal_strlit("cpp");
        reveal_strlit("data");
        reveal_strlit("doc");
        reveal_strlit("envvar");
        reveal_strlit("exception");
        reveal_strlit("function");
        reveal_strlit("js");
        reveal_strlit("label");
        reveal_strlit("method");
        reveal_strlit("module");
        reveal_strlit("py");
        reveal_strlit("std");
        reveal_strlit("term");
        reveal_strlit("type");
    }
    let mut domains: NameMap<Domain> = NameMap::new();
    let mut sd_py = Domain::new("py");
    assert(sd_py.object_types.names() =~= Seq::<Seq<char>>::empty());
    add_type(&mut sd_py, "module", "module", &["mod", "obj"]);
    assert("module"@.len() != "function"@.len());
    assert(sd_py.object_types.names() =~= seq!["module"@]);
    add_type(&mut sd_py, "function", "function", &["func", "obj"]);
    assert("module"@.len() != "class"@.len());
    assert("function"@.len() != "class"@.len());
    assert(sd_py.object_types.names() =~= seq!["module"@, "function"@]);
    add_type(&mut sd_py, "class", "class", &["class", "obj"]);
    assert("module"@[1] != "method"@[1]);
    assert("function"@.len() != "method"@.len());
    assert("class"@.len() != "method"@.len());
    assert(sd_py.object_types.names() =~= seq!["module"@, "function"@, "class"@]);
    add_type(&mut sd_py, "method", "method", &["meth", "obj"]);
    assert("module"@.len() != "attribute"@.len());
    assert("function"@.len() != "attribute"@.len());
    assert("class"@.len() != "attribute"@.len());
    assert("method"@.len() != "attribute"@.len());
    assert(sd_py.object_types.names() =~= seq!["module"@, "function"@, "class"@, "method"@]);
    add_type(&mut sd_py, "attribute", "attribute", &["attr", "obj"]);
    assert("module"@.len() != "exception"@.len());
    assert("function"@.len() != "exception"@.len());
    assert("class"@.len() != "exception"@.len());
    assert("method"@.len() != "exception"@.len());
    assert("attribute"@[0] != "exception"@[0]);
    assert(sd_py.object_types.names() =~= seq!["module"@, "function"@, "class"@, "method"@, "attribute"@]);
    add_type(&mut sd_py, "exception", "exception", &["exc", "obj"]);
    assert("module"@.len() != "data"@.len());
    assert("function"@.len() != "data"@.len());
    assert("class"@.len() != "data"@.len());
    assert("method"@.len() != "data"@.len());
    assert("attribute"@.len() != "data"@.len());
    assert("exception"@.len() != "data"@.len());
    assert(sd_py.object_types.names() =~= seq!["module"@, "function"@, "class"@, "method"@, "attribute"@, "exception"@]);
    add_type(&mut sd_py, "data", "data", &["data", "obj"]);
    assert(sd_py.object_types.names() =~= seq!["module"@, "function"@, "class"@, "method"@, "attribute"@, "exception"@, "data"@]);
    domains.insert(String::from_str("py"), sd_py);
    assert("py"@.len() != "cpp"@.len());
    assert(domains.names() =~= seq!["py"@]);
    let mut sd_cpp = Domain::new("cpp");
    assert(sd_cpp.object_types.names() =~= Seq::<Seq<char>>::empty());
    add_type(&mut sd_cpp, "class", "class", &["class"]);
    assert("class"@.len() != "function"@.len());
    assert(sd_cpp.object_types.names() =~= seq!["class"@]);
    add_type(&mut sd_cpp, "function", "function", &["func"]);
    assert("class"@.len() != "type"@.len());
    assert("function"@.len() != "type"@.len());
    assert(sd_cpp.object_types.names() =~= seq!["class"@, "function"@]);
    add_type(&mut sd_cpp, "type", "type", &["type"]);
    assert(sd_cpp.object_types.names() =~= seq!["class"@, "function"@, "type"@]);
    domains.insert(String::from_str("cpp"), sd_cpp);
    assert("py"@[0] != "js"@[0]);
    assert("cpp"@.len() != "js"@.len());
    assert(domains.names() =~= seq!["py"@, "cpp"@]);
    let mut sd_js = Domain::new("js");
    assert(sd_js.object_types.names() =~= Seq::<Seq<char>>::empty());
    add_type(&mut sd_js, "module", "module", &["mod"]);
    assert("module"@.len() != "class"@.len());
    assert(sd_js.object_types.names() =~= seq!["module"@]);
    add_type(&mut sd_js, "class", "class", &["class"]);
    assert("module"@.len() != "function"@.len());
    assert("class"@.len() != "function"@.len());
    assert(sd_js.object_types.names() =~= seq!["module"@, "class"@]);
    add_type(&mut sd_js, "function", "function", &["func"]);
    assert("module"@[1] != "method"@[1]);
    assert("class"@.len() != "method"@.len());
    assert("function"@.len() != "method"@.len());
    assert(sd_js.object_types.names() =~= seq!["module"@, "class"@, "function"@]);
    add_type(&mut sd_js, "method", "method", &["meth"]);
    assert("module"@.len() != "data"@.len());
    assert("class"@.len() != "data"@.len());
    assert("function"@.len() != "data"@.len());
    assert("method"@.len() != "data"@.len());
    assert(sd_js.object_types.names() =~= seq!["module"@, "class"@, "function"@, "method"@]);
    add_type(&mut sd_js, "data", "data", &["data"]);
    assert(sd_js.object_types.names() =~= seq!["module"@, "class"@, "function"@, "method"@, "data"@]);
    domains.insert(String::from_str("js"), sd_js);
    assert("py"@.len() != "std"@.len());
    assert("cpp"@[0] != "std"@[0]);
    assert("js"@.len() != "std"@.len());
    assert(domains.names() =~= seq!["py"@, "cpp"@, "js"@]);
    let mut sd_std = Domain::new("std");
    assert(sd_std.object_types.names() =~= Seq::<Seq<char>>::empty());
    add_type(&mut sd_std, "doc", "document", &["doc"]);
    assert("doc"@.len() != "label"@.len());
    assert(sd_std.object_types.names() =~= seq!["doc"@]);
    add_type(&mut sd_std, "label", "label", &["ref"]);
    assert("doc"@.len() != "term"@.len());
    assert("label"@.len() != "term"@.len());
    assert(sd_std.object_types.names() =~= seq!["doc"@, "label"@]);
    add_type(&mut sd_std, "term", "term", &["term"]);
    assert("doc"@.len() != "cmdoption"@.len());
    assert("label"@.len() != "cmdoption"@.len());
    assert("term"@.len() != "cmdoption"@.len());
    assert(sd_std.object_types.names() =~= seq!["doc"@, "label"@, "term"@]);
    add_type(&mut sd_std, "cmdoption", "command line option", &["option"]);
    assert("doc"@.len() != "envvar"@.len());
    assert("label"@.len() != "envvar"@.len());
    assert("term"@.len() != "envvar"@.len());
    assert("cmdoption"@.len() != "envvar"@.len());
    assert(sd_std.object_types.names() =~= seq!["doc"@, "label"@, "term"@, "cmdoption"@]);
    add_type(&mut sd_std, "envvar", "environment variable", &["envvar"]);
    assert(sd_std.object_types.names() =~= seq!["doc"@, "label"@, "term"@, "cmdoption"@, "envvar"@]);
    domains.insert(String::from_str("std"), sd_std);
    assert(domains.names() =~= seq!["py"@, "cpp"@, "js"@, "std"@]);
    proof {
        domains.lemma_view();
    }
    domains
}

} // verus!
