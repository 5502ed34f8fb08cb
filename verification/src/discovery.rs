//! Name resolution against an on-disk discovery cache: the resource listing
//! document each cache file holds, the alias sets built from it, the
//! case-insensitive lookup over them, and the derivation of the per-server
//! cache directory key.
use vstd::prelude::*;

use crate::errors::McError;
use crate::json::{
    json_of, json_view, json_view_seq, lemma_json_view_seq, parse_json, JsonValue, JsonView,
};
use crate::strutil;
use crate::strutil::{eq_ignore_case, lower_seq};

verus! {

broadcast use vstd::seq::axiom_seq_index_decreases, vstd::seq::axiom_seq_subrange_decreases;

/// Whether a resource type is bound to a namespace or global to a cluster.
#[derive(Debug, PartialEq, Eq, Structural, Clone, Copy)]
pub enum Scope {
    Cluster,
    Namespaced,
}

/// Fully qualified identity of one REST collection type.
#[derive(Debug)]
pub struct ApiResource {
    /// API group, empty for the core group.
    pub group: String,
    /// Version name the document was served at.
    pub version: String,
    /// Group and version joined, as clients address the collection.
    pub api_version: String,
    /// Kind of the collection's objects.
    pub kind: String,
    /// Plural (collection) name.
    pub plural: String,
}

pub struct ApiResourceView {
    pub group: Seq<char>,
    pub version: Seq<char>,
    pub api_version: Seq<char>,
    pub kind: Seq<char>,
    pub plural: Seq<char>,
}

impl View for ApiResource {
    type V = ApiResourceView;

    open spec fn view(&self) -> ApiResourceView {
        ApiResourceView {
            group: self.group@,
            version: self.version@,
            api_version: self.api_version@,
            kind: self.kind@,
            plural: self.plural@,
        }
    }
}

impl Clone for ApiResource {
    fn clone(&self) -> (r: Self)
        ensures
            r == *self,
    {
        ApiResource {
            group: self.group.clone(),
            version: self.version.clone(),
            api_version: self.api_version.clone(),
            kind: self.kind.clone(),
            plural: self.plural.clone(),
        }
    }
}

/// One resolvable entry: the alias strings it answers to, the descriptor it
/// resolves to, and its scope.
#[derive(Debug)]
pub struct DiscoveryResource {
    /// Match strings: lowercase kind, plural and short names.
    pub kind: Vec<String>,
    /// Resource handed to a client to address the collection.
    pub api_resource: ApiResource,
    /// Whether this resource is namespace or cluster scoped.
    pub scope: Scope,
}

pub struct DiscoveryResourceView {
    pub kind: Seq<Seq<char>>,
    pub api_resource: ApiResourceView,
    pub scope: Scope,
}

impl View for DiscoveryResource {
    type V = DiscoveryResourceView;

    open spec fn view(&self) -> DiscoveryResourceView {
        DiscoveryResourceView {
            kind: self.kind@.map_values(|s: String| s@),
            api_resource: self.api_resource@,
            scope: self.scope,
        }
    }
}

// ---------------------------------------------------------------------------
// Cache directory key
// ---------------------------------------------------------------------------
pub open spec fn https_prefix() -> Seq<char> {
    seq!['h', 't', 't', 'p', 's', ':', '/', '/']
}

pub open spec fn http_prefix() -> Seq<char> {
    seq!['h', 't', 't', 'p', ':', '/', '/']
}

/// The URL with a leading `https://` or `http://` removed.
pub open spec fn strip_scheme(s: Seq<char>) -> Seq<char> {
    if s.len() >= 8 && s.subrange(0, 8) == https_prefix() {
        s.skip(8)
    } else if s.len() >= 7 && s.subrange(0, 7) == http_prefix() {
        s.skip(7)
    } else {
        s
    }
}

/// Characters carried through unchanged into a cache key: ASCII letters,
/// digits, underscore and dot.
pub open spec fn keeps_char(c: char) -> bool {
    (48 <= c as u32 && c as u32 <= 57) || (65 <= c as u32 && c as u32 <= 90) || (97 <= c as u32
        && c as u32 <= 122) || c == '_' || c == '.'
}

/// Slashes dropped, every other character either kept or replaced by an
/// underscore.
pub open spec fn host_key_map(s: Seq<char>) -> Seq<char>
    decreases s.len(),
{
    if s.len() == 0 {
        Seq::empty()
    } else {
        host_key_map(s.drop_last()) + (if s.last() == '/' {
            Seq::<char>::empty()
        } else if keeps_char(s.last()) {
            seq![s.last()]
        } else {
            seq!['_']
        })
    }
}

/// The cache directory key a server URL derives to: scheme stripped, slashes
/// stripped, every character outside ASCII letters, digits, underscore and
/// dot replaced by an underscore.
pub open spec fn host_key_spec(url: Seq<char>) -> Seq<char> {
    host_key_map(strip_scheme(url))
}

/// Whether `s` begins with the characters of `p`.
fn str_starts_with(s: &str, p: &str) -> (r: bool)
    ensures
        r == (s@.len() >= p@.len() && s@.subrange(0, p@.len() as int) == p@),
{
    let plen = p.unicode_len();
    let slen = s.unicode_len();
    if slen < plen {
        return false;
    }
    let mut i: usize = 0;
    while i < plen
        invariant
            plen == p@.len(),
            slen == s@.len(),
            plen <= slen,
            i <= plen,
            forall|j: int| 0 <= j < i ==> s@[j] == p@[j],
        decreases plen - i,
    {
        if s.get_char(i) != p.get_char(i) {
            assert(s@.subrange(0, plen as int)[i as int] != p@[i as int]);
            return false;
        }
        i += 1;
    }
    assert(s@.subrange(0, plen as int) =~= p@);
    true
}

/// Derives the cache directory key for a server URL, the transform an
/// independent cache producer also applies: strip the scheme, strip slashes,
/// replace every character that is not an ASCII letter, digit, underscore or
/// dot with an underscore.
pub fn parse_kube_url_to_discovery(url: String) -> (r: Result<String, McError>)
    ensures
        r matches Ok(k) && k@ == host_key_spec(url@),
{
    proof {
        reveal_strlit("https://");
        reveal_strlit("http://");
    }
    let s = url.as_str();
    let len = s.unicode_len();
    assert("https://"@ =~= https_prefix());
    assert("http://"@ =~= http_prefix());
    let stripped: &str = if str_starts_with(s, "https://") {
        let t = s.substring_char(8, len);
        assert(t@ =~= strip_scheme(url@));
        t
    } else if str_starts_with(s, "http://") {
        // A URL that begins with `http://` cannot also begin with
        // `https://`: the two differ at their fifth character.
        assert(s@.len() >= 8 ==> s@.subrange(0, 8) != https_prefix()) by {
            if s@.len() >= 8 && s@.subrange(0, 8) == https_prefix() {
                assert(s@.subrange(0, 8)[4] == s@[4]);
                assert(s@.subrange(0, 7)[4] == s@[4]);
            }
        }
        let t = s.substring_char(7, len);
        assert(t@ =~= strip_scheme(url@));
        t
    } else {
        s
    };
    assert(stripped@ == strip_scheme(url@));
    let slen = stripped.unicode_len();
    let mut r = String::new();
    let mut i: usize = 0;
    while i < slen
        invariant
            slen == stripped@.len(),
            i <= slen,
            r@ == host_key_map(stripped@.subrange(0, i as int)),
        decreases slen - i,
    {
        let c = stripped.get_char(i);
        let u = c as u32;
        if c != '/' {
            if (48 <= u && u <= 57) || (65 <= u && u <= 90) || (97 <= u && u <= 122) || c == '_'
                || c == '.' {
                strutil::push_char(&mut r, c);
            } else {
                strutil::push_char(&mut r, '_');
            }
        }
        proof {
            let pre = stripped@.subrange(0, i + 1 as int);
            assert(pre.drop_last() =~= stripped@.subrange(0, i as int));
            assert(pre.last() == c);
            assert(r@ =~= host_key_map(pre));
        }
        i += 1;
    }
    assert(stripped@.subrange(0, slen as int) =~= stripped@);
    Ok(r)
}

proof fn lemma_host_key_map_chars(s: Seq<char>)
    ensures
        forall|i: int|
            0 <= i < host_key_map(s).len() ==> keeps_char(#[trigger] host_key_map(s)[i]),
    decreases s.len(),
{
    if s.len() > 0 {
        lemma_host_key_map_chars(s.drop_last());
        let prefix = host_key_map(s.drop_last());
        assert forall|i: int| 0 <= i < host_key_map(s).len() implies keeps_char(
            #[trigger] host_key_map(s)[i],
        ) by {
            if i < prefix.len() {
                assert(host_key_map(s)[i] == prefix[i]);
            } else {
                assert(keeps_char('_')) by {
                    assert('_' as u32 == 95);
                }
            }
        }
    }
}

/// The derived key is one path segment fit to stand under the cache root:
/// every character of it is an ASCII letter, digit, underscore or dot — in
/// particular, no slash survives.
pub proof fn lemma_host_key_is_path_segment(url: Seq<char>)
    ensures
        forall|i: int|
            0 <= i < host_key_spec(url).len() ==> keeps_char(#[trigger] host_key_spec(url)[i]),
{
    lemma_host_key_map_chars(strip_scheme(url));
}

// ---------------------------------------------------------------------------
// Cache file names
// ---------------------------------------------------------------------------
/// The position of the last occurrence of `c`, if any.
pub open spec fn last_index_of(s: Seq<char>, c: char) -> Option<int>
    decreases s.len(),
{
    if s.len() == 0 {
        None
    } else if s.last() == c {
        Some(s.len() - 1)
    } else {
        last_index_of(s.drop_last(), c)
    }
}

/// The final path component: everything after the last slash.
pub open spec fn file_name_of(p: Seq<char>) -> Seq<char> {
    match last_index_of(p, '/') {
        Some(i) => p.skip(i + 1),
        None => p,
    }
}

/// Whether a directory entry's path names a file with a `json` extension:
/// its final component has a dot after a nonempty stem, with `json` after
/// the last dot.
pub open spec fn is_json_path(p: Seq<char>) -> bool {
    match last_index_of(file_name_of(p), '.') {
        Some(i) => i > 0 && file_name_of(p).skip(i + 1) == seq!['j', 's', 'o', 'n'],
        None => false,
    }
}

/// The position of the last occurrence of `c` in `s`, scanning from the end.
fn rfind(s: &str, c: char) -> (r: Option<usize>)
    ensures
        match r {
            Some(i) => i < s@.len() && last_index_of(s@, c) == Some(i as int),
            None => last_index_of(s@, c) is None,
        },
{
    let len = s.unicode_len();
    let mut k: usize = len;
    assert(s@.subrange(0, len as int) =~= s@);
    loop
        invariant
            len == s@.len(),
            k <= len,
            last_index_of(s@, c) == last_index_of(s@.subrange(0, k as int), c),
        decreases k,
    {
        if k == 0 {
            return None;
        }
        let i = k - 1;
        let ci = s.get_char(i);
        assert(s@.subrange(0, k as int).last() == s@[i as int]);
        if ci == c {
            return Some(i);
        }
        assert(s@.subrange(0, k as int).drop_last() =~= s@.subrange(0, i as int));
        k = i;
    }
}

/// Whether a directory entry's path carries a `.json` extension. Only files
/// so named are read as cache files; everything else in the cache tree is
/// passed over.
pub fn is_json(path: &str) -> (r: bool)
    ensures
        r == is_json_path(path@),
{
    proof {
        reveal_strlit("json");
    }
    let len = path.unicode_len();
    let name_start: usize = match rfind(path, '/') {
        Some(i) => i + 1,
        None => 0,
    };
    let name = path.substring_char(name_start, len);
    assert(name@ == file_name_of(path@));
    let nlen = name.unicode_len();
    match rfind(name, '.') {
        Some(i) => {
            if i == 0 {
                return false;
            }
            let ext = name.substring_char(i + 1, nlen);
            let r = strutil::str_eq(ext, "json");
            assert("json"@ =~= seq!['j', 's', 'o', 'n']);
            assert(ext@ == file_name_of(path@).skip(i + 1 as int));
            r
        },
        None => false,
    }
}

// ---------------------------------------------------------------------------
// The resource listing document one cache file holds
// ---------------------------------------------------------------------------
/// An action a resource listing advertises for a resource.
#[derive(Debug, PartialEq, Eq, Structural, Clone, Copy)]
pub enum Verb {
    Create,
    Delete,
    DeleteCollection,
    Get,
    List,
    Patch,
    Update,
    Watch,
}

/// One resource entry of a listing document.
#[derive(Debug)]
pub struct Resource {
    pub name: String,
    pub singular_name: Option<String>,
    pub namespaced: bool,
    pub kind: String,
    pub group: Option<String>,
    pub short_names: Option<Vec<String>>,
    pub verbs: Vec<Verb>,
    pub storage_version_hash: Option<String>,
}

pub struct ResourceView {
    pub name: Seq<char>,
    pub singular_name: Option<Seq<char>>,
    pub namespaced: bool,
    pub kind: Seq<char>,
    pub group: Option<Seq<char>>,
    pub short_names: Option<Seq<Seq<char>>>,
    pub verbs: Seq<Verb>,
    pub storage_version_hash: Option<Seq<char>>,
}

pub open spec fn opt_string_view(o: Option<String>) -> Option<Seq<char>> {
    match o {
        Some(s) => Some(s@),
        None => None,
    }
}

impl View for Resource {
    type V = ResourceView;

    open spec fn view(&self) -> ResourceView {
        ResourceView {
            name: self.name@,
            singular_name: opt_string_view(self.singular_name),
            namespaced: self.namespaced,
            kind: self.kind@,
            group: opt_string_view(self.group),
            short_names: match self.short_names {
                Some(ss) => Some(ss@.map_values(|s: String| s@)),
                None => None,
            },
            verbs: self.verbs@,
            storage_version_hash: opt_string_view(self.storage_version_hash),
        }
    }
}

/// One API resource listing document, as a cache file holds it.
#[derive(Debug)]
pub struct ApiResourceList {
    pub kind: String,
    pub api_version: String,
    pub group_version: String,
    pub resources: Vec<Resource>,
}

pub struct ApiResourceListView {
    pub kind: Seq<char>,
    pub api_version: Seq<char>,
    pub group_version: Seq<char>,
    pub resources: Seq<ResourceView>,
}

impl View for ApiResourceList {
    type V = ApiResourceListView;

    open spec fn view(&self) -> ApiResourceListView {
        ApiResourceListView {
            kind: self.kind@,
            api_version: self.api_version@,
            group_version: self.group_version@,
            resources: self.resources@.map_values(|r: Resource| r@),
        }
    }
}

// ---------------------------------------------------------------------------
// What a well-formed document is: the reading of each field
// ---------------------------------------------------------------------------
/// A required string field: its characters, or `None` where the field is
/// missing or not a string.
pub open spec fn str_field(v: JsonView, key: Seq<char>) -> Option<Seq<char>> {
    match v.get(key) {
        Some(f) => f.as_str(),
        None => None,
    }
}

/// An optional string field: `None` marks a malformed field, `Some(None)` an
/// absent or null one.
pub open spec fn opt_str_field(v: JsonView, key: Seq<char>) -> Option<Option<Seq<char>>> {
    match v.get(key) {
        None => Some(None),
        Some(JsonView::Null) => Some(None),
        Some(JsonView::Str(s)) => Some(Some(s)),
        Some(_) => None,
    }
}

/// A required boolean field.
pub open spec fn bool_field(v: JsonView, key: Seq<char>) -> Option<bool> {
    match v.get(key) {
        Some(f) => f.as_bool(),
        None => None,
    }
}

/// The verb a lowercase verb name denotes.
pub open spec fn verb_of(s: Seq<char>) -> Option<Verb> {
    if s == "create"@ {
        Some(Verb::Create)
    } else if s == "delete"@ {
        Some(Verb::Delete)
    } else if s == "deletecollection"@ {
        Some(Verb::DeleteCollection)
    } else if s == "get"@ {
        Some(Verb::Get)
    } else if s == "list"@ {
        Some(Verb::List)
    } else if s == "patch"@ {
        Some(Verb::Patch)
    } else if s == "update"@ {
        Some(Verb::Update)
    } else if s == "watch"@ {
        Some(Verb::Watch)
    } else {
        None
    }
}

/// Every element read as a verb name; `None` if any element is not one.
pub open spec fn parse_verbs(a: Seq<JsonView>) -> Option<Seq<Verb>>
    decreases a.len(),
{
    if a.len() == 0 {
        Some(Seq::empty())
    } else {
        match a[0].as_str() {
            Some(s) => match verb_of(s) {
                Some(v) => match parse_verbs(a.drop_first()) {
                    Some(rest) => Some(seq![v] + rest),
                    None => None,
                },
                None => None,
            },
            None => None,
        }
    }
}

/// Every element read as a string; `None` if any element is not one.
pub open spec fn parse_str_seq(a: Seq<JsonView>) -> Option<Seq<Seq<char>>>
    decreases a.len(),
{
    if a.len() == 0 {
        Some(Seq::empty())
    } else {
        match a[0].as_str() {
            Some(s) => match parse_str_seq(a.drop_first()) {
                Some(rest) => Some(seq![s] + rest),
                None => None,
            },
            None => None,
        }
    }
}

/// An optional field holding an array of strings.
pub open spec fn opt_str_seq_field(v: JsonView, key: Seq<char>) -> Option<
    Option<Seq<Seq<char>>>,
> {
    match v.get(key) {
        None => Some(None),
        Some(JsonView::Null) => Some(None),
        Some(JsonView::Array(a)) => match parse_str_seq(a) {
            Some(ss) => Some(Some(ss)),
            None => None,
        },
        Some(_) => None,
    }
}

/// The reading of one resource entry; `None` where a required field is
/// missing or any field has the wrong shape.
pub open spec fn parse_resource(v: JsonView) -> Option<ResourceView> {
    let name = str_field(v, "name"@);
    let singular_name = opt_str_field(v, "singularName"@);
    let namespaced = bool_field(v, "namespaced"@);
    let kind = str_field(v, "kind"@);
    let group = opt_str_field(v, "group"@);
    let short_names = opt_str_seq_field(v, "shortNames"@);
    let verbs = match v.get("verbs"@) {
        Some(JsonView::Array(a)) => parse_verbs(a),
        _ => None,
    };
    let storage_version_hash = opt_str_field(v, "storageVersionHash"@);
    if name is Some && singular_name is Some && namespaced is Some && kind is Some && group
        is Some && short_names is Some && verbs is Some && storage_version_hash is Some {
        Some(
            ResourceView {
                name: name.unwrap(),
                singular_name: singular_name.unwrap(),
                namespaced: namespaced.unwrap(),
                kind: kind.unwrap(),
                group: group.unwrap(),
                short_names: short_names.unwrap(),
                verbs: verbs.unwrap(),
                storage_version_hash: storage_version_hash.unwrap(),
            },
        )
    } else {
        None
    }
}

/// Every element read as a resource entry.
pub open spec fn parse_resources(a: Seq<JsonView>) -> Option<Seq<ResourceView>>
    decreases a.len(),
{
    if a.len() == 0 {
        Some(Seq::empty())
    } else {
        match parse_resource(a[0]) {
            Some(r) => match parse_resources(a.drop_first()) {
                Some(rest) => Some(seq![r] + rest),
                None => None,
            },
            None => None,
        }
    }
}

/// The reading of one whole listing document.
pub open spec fn parse_resource_list(v: JsonView) -> Option<ApiResourceListView> {
    let kind = str_field(v, "kind"@);
    let api_version = str_field(v, "apiVersion"@);
    let group_version = str_field(v, "groupVersion"@);
    let resources = match v.get("resources"@) {
        Some(JsonView::Array(a)) => parse_resources(a),
        _ => None,
    };
    if kind is Some && api_version is Some && group_version is Some && resources is Some {
        Some(
            ApiResourceListView {
                kind: kind.unwrap(),
                api_version: api_version.unwrap(),
                group_version: group_version.unwrap(),
                resources: resources.unwrap(),
            },
        )
    } else {
        None
    }
}

// ---------------------------------------------------------------------------
// Reading a parsed document back as the typed listing
// ---------------------------------------------------------------------------
fn get_str_field<'a>(v: &'a JsonValue, key: &str) -> (r: Option<&'a String>)
    ensures
        match r {
            Some(s) => str_field(v@, key@) == Some(s@),
            None => str_field(v@, key@) is None,
        },
{
    match v.get(key) {
        Some(f) => f.as_str(),
        None => None,
    }
}

fn get_opt_str_field<'a>(v: &'a JsonValue, key: &str) -> (r: Option<Option<&'a String>>)
    ensures
        match r {
            Some(Some(s)) => opt_str_field(v@, key@) == Some(Some(s@)),
            Some(None) => opt_str_field(v@, key@) matches Some(o) && o is None,
            None => opt_str_field(v@, key@) is None,
        },
{
    match v.get(key) {
        None => Some(None),
        Some(f) => match f {
            JsonValue::Null => Some(None),
            JsonValue::Str(s) => Some(Some(s)),
            _ => None,
        },
    }
}

fn parse_verb(s: &str) -> (r: Option<Verb>)
    ensures
        r == verb_of(s@),
{
    if strutil::str_eq(s, "create") {
        Some(Verb::Create)
    } else if strutil::str_eq(s, "delete") {
        Some(Verb::Delete)
    } else if strutil::str_eq(s, "deletecollection") {
        Some(Verb::DeleteCollection)
    } else if strutil::str_eq(s, "get") {
        Some(Verb::Get)
    } else if strutil::str_eq(s, "list") {
        Some(Verb::List)
    } else if strutil::str_eq(s, "patch") {
        Some(Verb::Patch)
    } else if strutil::str_eq(s, "update") {
        Some(Verb::Update)
    } else if strutil::str_eq(s, "watch") {
        Some(Verb::Watch)
    } else {
        None
    }
}

fn verbs_from_json(a: &Vec<JsonValue>) -> (r: Option<Vec<Verb>>)
    ensures
        match r {
            Some(vs) => parse_verbs(json_view_seq(a@)) == Some(vs@),
            None => parse_verbs(json_view_seq(a@)) is None,
        },
{
    let ghost s = json_view_seq(a@);
    proof {
        lemma_json_view_seq(a@);
        assert(s.skip(0) =~= s);
        if parse_verbs(s) is Some {
            assert(Seq::<Verb>::empty() + parse_verbs(s).unwrap() =~= parse_verbs(s).unwrap());
        }
    }
    let mut vs: Vec<Verb> = Vec::new();
    let mut i: usize = 0;
    while i < a.len()
        invariant
            s == json_view_seq(a@),
            s.len() == a@.len(),
            forall|j: int| 0 <= j < a@.len() ==> #[trigger] s[j] == json_view(a@[j]),
            i <= a@.len(),
            match parse_verbs(s.skip(i as int)) {
                Some(rest) => parse_verbs(s) == Some(vs@ + rest),
                None => parse_verbs(s) is None,
            },
        decreases a@.len() - i,
    {
        proof {
            assert(s.skip(i as int)[0] == s[i as int]);
            assert(s.skip(i as int).drop_first() =~= s.skip(i + 1 as int));
        }
        let item = &a[i];
        let st = match item.as_str() {
            Some(x) => x,
            None => {
                return None;
            },
        };
        let vb = match parse_verb(st.as_str()) {
            Some(vb) => vb,
            None => {
                return None;
            },
        };
        proof {
            if parse_verbs(s.skip(i + 1 as int)) is Some {
                let rest2 = parse_verbs(s.skip(i + 1 as int)).unwrap();
                assert(vs@.push(vb) + rest2 =~= vs@ + (seq![vb] + rest2));
            }
        }
        vs.push(vb);
        i += 1;
    }
    proof {
        assert(s.skip(i as int) =~= Seq::empty());
        assert(vs@ + Seq::<Verb>::empty() =~= vs@);
    }
    Some(vs)
}

fn str_vec_from_json(a: &Vec<JsonValue>) -> (r: Option<Vec<String>>)
    ensures
        match r {
            Some(ss) => parse_str_seq(json_view_seq(a@)) == Some(
                ss@.map_values(|x: String| x@),
            ),
            None => parse_str_seq(json_view_seq(a@)) is None,
        },
{
    let ghost s = json_view_seq(a@);
    proof {
        lemma_json_view_seq(a@);
        assert(s.skip(0) =~= s);
        if parse_str_seq(s) is Some {
            assert(Seq::<Seq<char>>::empty() + parse_str_seq(s).unwrap() =~= parse_str_seq(
                s,
            ).unwrap());
        }
    }
    let mut ss: Vec<String> = Vec::new();
    let mut i: usize = 0;
    assert(ss@.map_values(|x: String| x@) =~= Seq::<Seq<char>>::empty());
    while i < a.len()
        invariant
            s == json_view_seq(a@),
            s.len() == a@.len(),
            forall|j: int| 0 <= j < a@.len() ==> #[trigger] s[j] == json_view(a@[j]),
            i <= a@.len(),
            match parse_str_seq(s.skip(i as int)) {
                Some(rest) => parse_str_seq(s) == Some(ss@.map_values(|x: String| x@) + rest),
                None => parse_str_seq(s) is None,
            },
        decreases a@.len() - i,
    {
        proof {
            assert(s.skip(i as int)[0] == s[i as int]);
            assert(s.skip(i as int).drop_first() =~= s.skip(i + 1 as int));
        }
        let item = &a[i];
        let st = match item.as_str() {
            Some(x) => x,
            None => {
                return None;
            },
        };
        let owned = st.clone();
        proof {
            if parse_str_seq(s.skip(i + 1 as int)) is Some {
                let rest2 = parse_str_seq(s.skip(i + 1 as int)).unwrap();
                assert(ss@.push(owned).map_values(|x: String| x@) =~= ss@.map_values(
                    |x: String| x@,
                ).push(owned@));
                assert(ss@.map_values(|x: String| x@).push(owned@) + rest2 =~= ss@.map_values(
                    |x: String| x@,
                ) + (seq![owned@] + rest2));
            }
        }
        ss.push(owned);
        i += 1;
    }
    proof {
        assert(s.skip(i as int) =~= Seq::empty());
        assert(ss@.map_values(|x: String| x@) + Seq::<Seq<char>>::empty() =~= ss@.map_values(
            |x: String| x@,
        ));
    }
    Some(ss)
}

fn resource_from_json(v: &JsonValue) -> (r: Option<Resource>)
    ensures
        match r {
            Some(res) => parse_resource(v@) == Some(res@),
            None => parse_resource(v@) is None,
        },
{
    let name = match get_str_field(v, "name") {
        Some(s) => s.clone(),
        None => {
            return None;
        },
    };
    let singular_name = match get_opt_str_field(v, "singularName") {
        Some(Some(s)) => Some(s.clone()),
        Some(None) => None,
        None => {
            return None;
        },
    };
    let namespaced = match v.get("namespaced") {
        Some(f) => match f.as_bool() {
            Some(b) => b,
            None => {
                return None;
            },
        },
        None => {
            return None;
        },
    };
    let kind = match get_str_field(v, "kind") {
        Some(s) => s.clone(),
        None => {
            return None;
        },
    };
    let group = match get_opt_str_field(v, "group") {
        Some(Some(s)) => Some(s.clone()),
        Some(None) => None,
        None => {
            return None;
        },
    };
    let short_names: Option<Vec<String>> = match v.get("shortNames") {
        None => None,
        Some(f) => match f {
            JsonValue::Null => None,
            _ => match f.as_array() {
                Some(arr) => match str_vec_from_json(arr) {
                    Some(ss) => Some(ss),
                    None => {
                        return None;
                    },
                },
                None => {
                    return None;
                },
            },
        },
    };
    let verbs = match v.get("verbs") {
        Some(f) => match f.as_array() {
            Some(arr) => match verbs_from_json(arr) {
                Some(vs) => vs,
                None => {
                    return None;
                },
            },
            None => {
                return None;
            },
        },
        None => {
            return None;
        },
    };
    let storage_version_hash = match get_opt_str_field(v, "storageVersionHash") {
        Some(Some(s)) => Some(s.clone()),
        Some(None) => None,
        None => {
            return None;
        },
    };
    let res = Resource {
        name,
        singular_name,
        namespaced,
        kind,
        group,
        short_names,
        verbs,
        storage_version_hash,
    };
    assert(res@ == parse_resource(v@).unwrap());
    Some(res)
}

fn resources_from_json(a: &Vec<JsonValue>) -> (r: Option<Vec<Resource>>)
    ensures
        match r {
            Some(rs) => parse_resources(json_view_seq(a@)) == Some(
                rs@.map_values(|x: Resource| x@),
            ),
            None => parse_resources(json_view_seq(a@)) is None,
        },
{
    let ghost s = json_view_seq(a@);
    proof {
        lemma_json_view_seq(a@);
        assert(s.skip(0) =~= s);
        if parse_resources(s) is Some {
            assert(Seq::<ResourceView>::empty() + parse_resources(s).unwrap() =~= parse_resources(
                s,
            ).unwrap());
        }
    }
    let mut rs: Vec<Resource> = Vec::new();
    let mut i: usize = 0;
    assert(rs@.map_values(|x: Resource| x@) =~= Seq::<ResourceView>::empty());
    while i < a.len()
        invariant
            s == json_view_seq(a@),
            s.len() == a@.len(),
            forall|j: int| 0 <= j < a@.len() ==> #[trigger] s[j] == json_view(a@[j]),
            i <= a@.len(),
            match parse_resources(s.skip(i as int)) {
                Some(rest) => parse_resources(s) == Some(
                    rs@.map_values(|x: Resource| x@) + rest,
                ),
                None => parse_resources(s) is None,
            },
        decreases a@.len() - i,
    {
        proof {
            assert(s.skip(i as int)[0] == s[i as int]);
            assert(s.skip(i as int).drop_first() =~= s.skip(i + 1 as int));
        }
        let item = &a[i];
        let res = match resource_from_json(item) {
            Some(res) => res,
            None => {
                return None;
            },
        };
        proof {
            if parse_resources(s.skip(i + 1 as int)) is Some {
                let rest2 = parse_resources(s.skip(i + 1 as int)).unwrap();
                assert(rs@.push(res).map_values(|x: Resource| x@) =~= rs@.map_values(
                    |x: Resource| x@,
                ).push(res@));
                assert(rs@.map_values(|x: Resource| x@).push(res@) + rest2 =~= rs@.map_values(
                    |x: Resource| x@,
                ) + (seq![res@] + rest2));
            }
        }
        rs.push(res);
        i += 1;
    }
    proof {
        assert(s.skip(i as int) =~= Seq::empty());
        assert(rs@.map_values(|x: Resource| x@) + Seq::<ResourceView>::empty() =~= rs@.map_values(
            |x: Resource| x@,
        ));
    }
    Some(rs)
}

/// The listing a piece of cache file text holds: the text parsed as JSON,
/// then read as a resource listing document.
pub open spec fn parsed_list_of(text: Seq<char>) -> Option<ApiResourceListView> {
    match json_of(text) {
        Some(v) => parse_resource_list(v),
        None => None,
    }
}

impl ApiResourceList {
    /// Reads a parsed JSON document as a resource listing.
    pub fn from_json(v: &JsonValue) -> (r: Option<ApiResourceList>)
        ensures
            match r {
                Some(l) => parse_resource_list(v@) == Some(l@),
                None => parse_resource_list(v@) is None,
            },
    {
        let kind = match get_str_field(v, "kind") {
            Some(s) => s.clone(),
            None => {
                return None;
            },
        };
        let api_version = match get_str_field(v, "apiVersion") {
            Some(s) => s.clone(),
            None => {
                return None;
            },
        };
        let group_version = match get_str_field(v, "groupVersion") {
            Some(s) => s.clone(),
            None => {
                return None;
            },
        };
        let resources = match v.get("resources") {
            Some(f) => match f.as_array() {
                Some(arr) => match resources_from_json(arr) {
                    Some(rs) => rs,
                    None => {
                        return None;
                    },
                },
                None => {
                    return None;
                },
            },
            None => {
                return None;
            },
        };
        let l = ApiResourceList { kind, api_version, group_version, resources };
        assert(l@ == parse_resource_list(v@).unwrap());
        Some(l)
    }

    /// Parses one cache file's text. A failure of either the JSON grammar or
    /// the document shape is one recoverable error: the caller skips the
    /// file.
    pub fn try_from_str(input: &str) -> (r: Result<ApiResourceList, McError>)
        ensures
            match r {
                Ok(l) => parsed_list_of(input@) == Some(l@),
                Err(e) => parsed_list_of(input@) is None && e is ParseFailure,
            },
    {
        match parse_json(input) {
            Some(v) => match ApiResourceList::from_json(&v) {
                Some(l) => Ok(l),
                None => Err(McError::ParseFailure),
            },
            None => Err(McError::ParseFailure),
        }
    }
}

// ---------------------------------------------------------------------------
// From a listing document to resolvable entries
// ---------------------------------------------------------------------------
pub open spec fn has_slash(s: Seq<char>) -> bool {
    exists|i: int| 0 <= i < s.len() && s[i] == '/'
}

pub open spec fn prefix_to_slash(s: Seq<char>) -> Seq<char>
    decreases s.len(),
{
    if s.len() == 0 {
        Seq::empty()
    } else if s[0] == '/' {
        Seq::empty()
    } else {
        seq![s[0]] + prefix_to_slash(s.drop_first())
    }
}

/// The API group a `groupVersion` value names: what stands before its first
/// slash, or empty where there is no slash (the core group).
pub open spec fn group_of(gv: Seq<char>) -> Seq<char> {
    if has_slash(gv) {
        prefix_to_slash(gv)
    } else {
        Seq::empty()
    }
}

proof fn lemma_prefix_to_slash(s: Seq<char>, i: int)
    requires
        0 <= i < s.len(),
        forall|j: int| 0 <= j < i ==> s[j] != '/',
        s[i] == '/',
    ensures
        prefix_to_slash(s) == s.subrange(0, i),
    decreases i,
{
    if i == 0 {
        assert(prefix_to_slash(s) =~= s.subrange(0, 0));
    } else {
        lemma_prefix_to_slash(s.drop_first(), i - 1);
        assert(s.drop_first().subrange(0, i - 1) =~= s.subrange(1, i));
        assert(seq![s[0]] + s.subrange(1, i) =~= s.subrange(0, i));
    }
}

fn split_group(gv: &str) -> (r: String)
    ensures
        r@ == group_of(gv@),
{
    let len = gv.unicode_len();
    let mut i: usize = 0;
    while i < len
        invariant
            len == gv@.len(),
            i <= len,
            forall|j: int| 0 <= j < i ==> gv@[j] != '/',
        decreases len - i,
    {
        if gv.get_char(i) == '/' {
            proof {
                lemma_prefix_to_slash(gv@, i as int);
            }
            let g = gv.substring_char(0, i);
            return g.to_owned();
        }
        i += 1;
    }
    assert(!has_slash(gv@));
    String::new()
}

/// The alias set one resource entry answers to: its lowercased kind and
/// plural name, then its lowercased short names.
pub open spec fn resource_aliases(r: ResourceView) -> Seq<Seq<char>> {
    seq![lower_seq(r.kind), lower_seq(r.name)] + (match r.short_names {
        Some(ss) => ss.map_values(|s: Seq<char>| lower_seq(s)),
        None => Seq::empty(),
    })
}

/// The resolvable entry one resource of a listing document becomes.
pub open spec fn resource_to_discovery(l: ApiResourceListView, r: ResourceView)
    -> DiscoveryResourceView {
    DiscoveryResourceView {
        kind: resource_aliases(r),
        api_resource: ApiResourceView {
            group: group_of(l.group_version),
            version: l.api_version,
            api_version: l.group_version,
            kind: r.kind,
            plural: r.name,
        },
        scope: if r.namespaced {
            Scope::Namespaced
        } else {
            Scope::Cluster
        },
    }
}

/// Every entry a listing document contributes, in document order.
pub open spec fn list_discovery_view(l: ApiResourceListView) -> Seq<DiscoveryResourceView> {
    l.resources.map_values(|r: ResourceView| resource_to_discovery(l, r))
}

impl ApiResourceList {
    /// Builds the resolvable entries this document describes: one per
    /// resource, with its alias set, descriptor and scope.
    pub fn get_api_resources(&self) -> (r: Vec<DiscoveryResource>)
        ensures
            r@.map_values(|d: DiscoveryResource| d@) == list_discovery_view(self@),
    {
        let ghost lv = self@;
        let mut out: Vec<DiscoveryResource> = Vec::new();
        let mut i: usize = 0;
        while i < self.resources.len()
            invariant
                lv == self@,
                lv.resources.len() == self.resources@.len(),
                forall|j: int|
                    0 <= j < self.resources@.len() ==> lv.resources[j]
                        == #[trigger] self.resources@[j]@,
                i <= self.resources@.len(),
                out@.len() == i,
                forall|j: int|
                    0 <= j < i ==> #[trigger] out@[j]@ == resource_to_discovery(
                        lv,
                        lv.resources[j],
                    ),
            decreases self.resources@.len() - i,
        {
            let resource = &self.resources[i];
            let mut aliases: Vec<String> = Vec::new();
            aliases.push(strutil::to_lowercase_string(resource.kind.as_str()));
            aliases.push(strutil::to_lowercase_string(resource.name.as_str()));
            match &resource.short_names {
                Some(shorts) => {
                    let mut k: usize = 0;
                    while k < shorts.len()
                        invariant
                            k <= shorts@.len(),
                            resource@.short_names == Some(shorts@.map_values(|s: String| s@)),
                            aliases@.len() == 2 + k,
                            aliases@[0]@ == lower_seq(resource@.kind),
                            aliases@[1]@ == lower_seq(resource@.name),
                            forall|j: int|
                                0 <= j < k ==> #[trigger] aliases@[2 + j]@ == lower_seq(
                                    shorts@[j]@,
                                ),
                        decreases shorts@.len() - k,
                    {
                        let low = strutil::to_lowercase_string(shorts[k].as_str());
                        aliases.push(low);
                        k += 1;
                    }
                    proof {
                        let ss = shorts@.map_values(|s: String| s@);
                        let lows = ss.map_values(|s: Seq<char>| lower_seq(s));
                        assert forall|j: int| 0 <= j < ss.len() implies #[trigger] lows[j]
                            == aliases@[2 + j]@ by {
                            assert(ss[j] == shorts@[j]@);
                        }
                        assert(aliases@.map_values(|s: String| s@) =~= resource_aliases(
                            resource@,
                        ));
                    }
                },
                None => {
                    assert(aliases@.map_values(|s: String| s@) =~= resource_aliases(resource@));
                },
            }
            let api_resource = ApiResource {
                group: split_group(self.group_version.as_str()),
                version: self.api_version.clone(),
                api_version: self.group_version.clone(),
                kind: resource.kind.clone(),
                plural: resource.name.clone(),
            };
            let scope = if resource.namespaced {
                Scope::Namespaced
            } else {
                Scope::Cluster
            };
            let entry = DiscoveryResource { kind: aliases, api_resource, scope };
            assert(entry@ == resource_to_discovery(lv, lv.resources[i as int]));
            out.push(entry);
            i += 1;
        }
        proof {
            assert(out@.map_values(|d: DiscoveryResource| d@) =~= list_discovery_view(lv));
        }
        out
    }
}

// ---------------------------------------------------------------------------
// The cache: every entry of every readable file, and the lookup over them
// ---------------------------------------------------------------------------
/// The entries a sequence of cache file texts contributes, in file order:
/// each readable file's entries in document order, an unreadable file
/// nothing. No single bad file stops the read.
pub open spec fn cache_view(files: Seq<String>) -> Seq<DiscoveryResourceView>
    decreases files.len(),
{
    if files.len() == 0 {
        Seq::empty()
    } else {
        (match parsed_list_of(files[0]@) {
            Some(l) => list_discovery_view(l),
            None => Seq::empty(),
        }) + cache_view(files.drop_first())
    }
}

/// Whether one entry answers to `name`, up to ASCII case.
pub open spec fn resource_matches(r: DiscoveryResourceView, name: Seq<char>) -> bool {
    exists|i: int| 0 <= i < r.kind.len() && eq_ignore_case(r.kind[i], name)
}

/// The first entry answering to `name`, if any.
pub open spec fn find_match(rs: Seq<DiscoveryResourceView>, name: Seq<char>) -> Option<
    DiscoveryResourceView,
>
    decreases rs.len(),
{
    if rs.len() == 0 {
        None
    } else if resource_matches(rs[0], name) {
        Some(rs[0])
    } else {
        find_match(rs.drop_first(), name)
    }
}

/// Everything one server's discovery cache resolves: the alias entries of
/// every readable cache file under that server's cache directory.
#[derive(Debug)]
pub struct Discovery {
    resources: Vec<DiscoveryResource>,
}

impl View for Discovery {
    type V = Seq<DiscoveryResourceView>;

    closed spec fn view(&self) -> Seq<DiscoveryResourceView> {
        self.resources@.map_values(|d: DiscoveryResource| d@)
    }
}

impl Discovery {
    /// Builds the cache from the texts of the cache files found under one
    /// server's cache directory. A file that does not parse as a resource
    /// listing document contributes nothing and never stops the read.
    pub fn from_cache_files(files: &Vec<String>) -> (d: Discovery)
        ensures
            d@ == cache_view(files@),
    {
        let mut resources: Vec<DiscoveryResource> = Vec::new();
        let mut i: usize = 0;
        proof {
            assert(files@.skip(0) =~= files@);
        }
        while i < files.len()
            invariant
                i <= files@.len(),
                resources@.map_values(|d: DiscoveryResource| d@) + cache_view(
                    files@.skip(i as int),
                ) == cache_view(files@),
            decreases files@.len() - i,
        {
            proof {
                assert(files@.skip(i as int)[0] == files@[i as int]);
                assert(files@.skip(i as int).drop_first() =~= files@.skip(i + 1 as int));
            }
            let ghost pre = resources@;
            match ApiResourceList::try_from_str(files[i].as_str()) {
                Ok(arl) => {
                    let mut entries = arl.get_api_resources();
                    let ghost entries_view = entries@;
                    resources.append(&mut entries);
                    proof {
                        let f = |d: DiscoveryResource| d@;
                        assert((pre + entries_view).map_values(f) =~= pre.map_values(f)
                            + entries_view.map_values(f));
                    }
                },
                Err(_) => {
                    proof {
                        let f = |d: DiscoveryResource| d@;
                        assert(pre.map_values(f) + Seq::<DiscoveryResourceView>::empty()
                            =~= pre.map_values(f));
                    }
                },
            }
            i += 1;
        }
        proof {
            assert(files@.skip(i as int) =~= Seq::<String>::empty());
            assert(resources@.map_values(|d: DiscoveryResource| d@) + Seq::<
                DiscoveryResourceView,
            >::empty() =~= resources@.map_values(|d: DiscoveryResource| d@));
        }
        Discovery { resources }
    }

    /// Resolves a user-typed name against the cache: the first entry whose
    /// alias set matches the name, compared case-insensitively. Returns the
    /// not-found error exactly when no entry matches.
    pub fn get_resource_from_name(&self, name: &str) -> (r: Result<(ApiResource, Scope), McError>)
        ensures
            match r {
                Ok(p) => find_match(self@, name@) matches Some(d) && p.0@ == d.api_resource
                    && p.1 == d.scope,
                Err(e) => find_match(self@, name@) is None && (e matches
                McError::ResourceNotFound(n) && n@ == name@),
            },
    {
        let ghost rs = self@;
        let mut i: usize = 0;
        proof {
            assert(rs.skip(0) =~= rs);
        }
        while i < self.resources.len()
            invariant
                rs == self@,
                rs.len() == self.resources@.len(),
                forall|j: int|
                    0 <= j < self.resources@.len() ==> rs[j] == #[trigger] self.resources@[j]@,
                i <= self.resources@.len(),
                find_match(rs, name@) == find_match(rs.skip(i as int), name@),
            decreases self.resources@.len() - i,
        {
            proof {
                assert(rs.skip(i as int)[0] == rs[i as int]);
                assert(rs.skip(i as int).drop_first() =~= rs.skip(i + 1 as int));
            }
            let resource = &self.resources[i];
            let mut k: usize = 0;
            while k < resource.kind.len()
                invariant
                    rs == self@,
                    resource@ == rs[i as int],
                    i < rs.len(),
                    find_match(rs, name@) == find_match(rs.skip(i as int), name@),
                    rs.skip(i as int)[0] == rs[i as int],
                    rs.skip(i as int).len() == rs.len() - i,
                    resource@.kind.len() == resource.kind@.len(),
                    forall|j: int|
                        0 <= j < resource.kind@.len() ==> resource@.kind[j]
                            == #[trigger] resource.kind@[j]@,
                    k <= resource.kind@.len(),
                    forall|j: int| 0 <= j < k ==> !eq_ignore_case(resource@.kind[j], name@),
                decreases resource.kind@.len() - k,
            {
                if strutil::str_eq_ignore_ascii_case(resource.kind[k].as_str(), name) {
                    assert(resource_matches(rs[i as int], name@));
                    return Ok((resource.api_resource.clone(), resource.scope));
                }
                k += 1;
            }
            assert(!resource_matches(rs[i as int], name@));
            i += 1;
        }
        proof {
            assert(rs.skip(i as int) =~= Seq::<DiscoveryResourceView>::empty());
        }
        Err(McError::ResourceNotFound(name.to_owned()))
    }
}

// ---------------------------------------------------------------------------
// Laws of the lookup
// ---------------------------------------------------------------------------
/// Resolving any two names that agree up to ASCII case against the same
/// cache entries finds the identical entry: the lookup depends only on the
/// case-folded name.
pub proof fn lemma_lookup_case_insensitive(
    rs: Seq<DiscoveryResourceView>,
    n1: Seq<char>,
    n2: Seq<char>,
)
    requires
        eq_ignore_case(n1, n2),
    ensures
        find_match(rs, n1) == find_match(rs, n2),
    decreases rs.len(),
{
    if rs.len() > 0 {
        assert(resource_matches(rs[0], n1) == resource_matches(rs[0], n2)) by {
            if resource_matches(rs[0], n1) {
                let i = choose|i: int|
                    0 <= i < rs[0].kind.len() && eq_ignore_case(rs[0].kind[i], n1);
                assert(eq_ignore_case(rs[0].kind[i], n2));
            }
            if resource_matches(rs[0], n2) {
                let i = choose|i: int|
                    0 <= i < rs[0].kind.len() && eq_ignore_case(rs[0].kind[i], n2);
                assert(eq_ignore_case(rs[0].kind[i], n1));
            }
        }
        lemma_lookup_case_insensitive(rs.drop_first(), n1, n2);
    }
}

/// Resolution is idempotent: against one immutable cache state, any two
/// resolutions of the same name are the same value, for it is a function of
/// the cache contents and the name alone.
pub proof fn lemma_resolution_idempotent(
    rs: Seq<DiscoveryResourceView>,
    name: Seq<char>,
    r1: Option<DiscoveryResourceView>,
    r2: Option<DiscoveryResourceView>,
)
    requires
        r1 == find_match(rs, name),
        r2 == find_match(rs, name),
    ensures
        r1 == r2,
{
}

} // verus!
