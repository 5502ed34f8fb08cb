//! Shaping listed objects into display rows: one row type per well-known
//! kind, a generic row for the rest. Each row is derived from the object's
//! JSON alone plus the current time; drawing the table itself is an external
//! collaborator's job.
use vstd::prelude::*;

use crate::json::{json_view, json_view_seq, lemma_json_view_seq, JsonValue, JsonView};
use crate::pipeline::{ListResponse, ListResponseView};
use crate::strutil;
use crate::strutil::{dec_int, int_text_value};

verus! {

broadcast use vstd::seq::axiom_seq_index_decreases, vstd::seq::axiom_seq_subrange_decreases;

// ---------------------------------------------------------------------------
// Ages
// ---------------------------------------------------------------------------
/// Division truncating toward zero, as counting whole days or hours in a
/// signed duration does.
pub open spec fn tdiv(a: int, b: int) -> int {
    if a >= 0 {
        a / b
    } else {
        -((-a) / b)
    }
}

/// An age in seconds written the short way: days and hours over two days,
/// else hours and minutes, else minutes and seconds, else seconds alone.
pub open spec fn format_age_spec(secs: int) -> Seq<char> {
    let days = tdiv(secs, 86400);
    let hours = tdiv(secs, 3600);
    let mins = tdiv(secs, 60);
    if days > 2 {
        dec_int(days) + seq!['d'] + dec_int(hours - 24 * days) + seq!['h']
    } else if hours > 0 {
        dec_int(hours) + seq!['h'] + dec_int(mins - 60 * hours) + seq!['m']
    } else if mins > 0 {
        dec_int(mins) + seq!['m'] + dec_int(secs - 60 * mins) + seq!['s']
    } else {
        dec_int(secs) + seq!['s']
    }
}

/// Renders an age, given as seconds, the short way.
pub fn format_age(secs: i128) -> (r: String)
    requires
        -0x8000_0000_0000_0000_0000i128 <= secs <= 0x8000_0000_0000_0000_0000i128,
    ensures
        r@ == format_age_spec(secs as int),
{
    proof {
        reveal_strlit("d");
        reveal_strlit("h");
        reveal_strlit("m");
        reveal_strlit("s");
        assert("d"@ =~= seq!['d']);
        assert("h"@ =~= seq!['h']);
        assert("m"@ =~= seq!['m']);
        assert("s"@ =~= seq!['s']);
    }
    if secs < 0 {
        // Every whole count is at most zero, so only the seconds line shows.
        let mut r = strutil::i128_to_string(secs);
        r.append("s");
        assert(r@ =~= format_age_spec(secs as int));
        return r;
    }
    let mag: u128 = secs as u128;
    let days: u128 = mag / 86400;
    let hours: u128 = mag / 3600;
    let mins: u128 = mag / 60;
    if days > 2 {
        let mut r = strutil::i128_to_string(days as i128);
        r.append("d");
        let rest = strutil::i128_to_string((hours - 24 * days) as i128);
        r.append(rest.as_str());
        r.append("h");
        assert(r@ =~= format_age_spec(secs as int));
        r
    } else if hours > 0 {
        let mut r = strutil::i128_to_string(hours as i128);
        r.append("h");
        let rest = strutil::i128_to_string((mins - 60 * hours) as i128);
        r.append(rest.as_str());
        r.append("m");
        assert(r@ =~= format_age_spec(secs as int));
        r
    } else if mins > 0 {
        let mut r = strutil::i128_to_string(mins as i128);
        r.append("m");
        let rest = strutil::i128_to_string((mag - 60 * mins) as i128);
        r.append(rest.as_str());
        r.append("s");
        assert(r@ =~= format_age_spec(secs as int));
        r
    } else {
        let mut r = strutil::i128_to_string(mag as i128);
        r.append("s");
        assert(r@ =~= format_age_spec(secs as int));
        r
    }
}

/// The moment a timestamp text denotes, as seconds since the Unix epoch, or
/// nothing where the text is not a well-formed timestamp. The result depends
/// on the text alone.
pub uninterp spec fn epoch_of_rfc3339(s: Seq<char>) -> Option<int>;

/// Relies on chrono's `DateTime::parse_from_rfc3339` and `timestamp`: reads
/// a timestamp text and gives its seconds since the Unix epoch, a pure
/// function of the text; a malformed text is reported as an error.
#[verifier::external_body]
fn parse_rfc3339_epoch(s: &str) -> (r: Option<i64>)
    ensures
        match r {
            Some(t) => epoch_of_rfc3339(s@) == Some(t as int),
            None => epoch_of_rfc3339(s@) is None,
        },
{
    match chrono::DateTime::parse_from_rfc3339(s) {
        Ok(dt) => Some(dt.timestamp()),
        Err(_) => None,
    }
}

// ---------------------------------------------------------------------------
// Common pieces of every listed object
// ---------------------------------------------------------------------------
/// A required string field of an object, as the document extraction reads
/// one.
pub open spec fn str_field(v: JsonView, key: Seq<char>) -> Option<Seq<char>> {
    crate::discovery::str_field(v, key)
}

/// The name a listed object displays under: its metadata name, else the
/// generate-name it was stamped from, else empty.
pub open spec fn obj_name_of(d: JsonView) -> Seq<char> {
    match d.get("metadata"@) {
        Some(m) => match str_field(m, "name"@) {
            Some(n) => n,
            None => match str_field(m, "generateName"@) {
                Some(g) => g,
                None => Seq::empty(),
            },
        },
        None => Seq::empty(),
    }
}

/// The creation timestamp text of a listed object, where it carries one.
pub open spec fn creation_of(d: JsonView) -> Option<Seq<char>> {
    match d.get("metadata"@) {
        Some(m) => str_field(m, "creationTimestamp"@),
        None => None,
    }
}

/// A listed object's displayed age at the given moment: empty where it
/// carries no readable creation timestamp.
pub open spec fn age_of(d: JsonView, now: int) -> Seq<char> {
    match creation_of(d) {
        Some(ts) => match epoch_of_rfc3339(ts) {
            Some(t) => format_age_spec(now - t),
            None => Seq::empty(),
        },
        None => Seq::empty(),
    }
}

fn get_str_field<'a>(v: &'a JsonValue, key: &str) -> (r: Option<&'a String>)
    ensures
        match r {
            Some(s) => str_field(v@, key@) == Some(s@),
            None => str_field(v@, key@) is None,
        },
{
    match v.get(key) {
        Some(f) => f.as_str(),
        None => None,
    }
}

/// The display name of one listed object.
pub fn object_name(d: &JsonValue) -> (r: String)
    ensures
        r@ == obj_name_of(d@),
{
    match d.get("metadata") {
        Some(m) => match get_str_field(m, "name") {
            Some(n) => n.clone(),
            None => match get_str_field(m, "generateName") {
                Some(g) => g.clone(),
                None => String::new(),
            },
        },
        None => String::new(),
    }
}

/// The displayed age of one listed object at the given moment.
pub fn object_age(d: &JsonValue, now_secs: i64) -> (r: String)
    ensures
        r@ == age_of(d@, now_secs as int),
{
    let ts: Option<&String> = match d.get("metadata") {
        Some(m) => get_str_field(m, "creationTimestamp"),
        None => None,
    };
    match ts {
        Some(t) => match parse_rfc3339_epoch(t.as_str()) {
            Some(epoch) => format_age(now_secs as i128 - epoch as i128),
            None => String::new(),
        },
        None => String::new(),
    }
}

// ---------------------------------------------------------------------------
// Row types
// ---------------------------------------------------------------------------
/// A generic display row; kept for callers that shape their own rows.
#[derive(Debug)]
pub struct Output {
    pub cluster: String,
    pub namespace: String,
    pub name: String,
    pub status: String,
    pub ready: String,
    pub age: String,
}

/// One table row, shaped by the kind listed.
#[derive(Debug)]
pub enum KubeOutput {
    Node(NodeOutput),
    Pod(PodOutput),
    Deployment(DeploymentOutput),
    Service(ServiceOutput),
    Default_(DefaultOutput),
}

#[derive(Debug)]
pub struct NodeOutput {
    pub clustername: String,
    pub name: String,
    pub status: String,
    pub age: String,
    pub version: String,
    pub arch: String,
    pub kernel: String,
    pub container_runtime_version: String,
}

#[derive(Debug)]
pub struct DefaultOutput {
    pub clustername: String,
    pub name: String,
    pub age: String,
}

#[derive(Debug)]
pub struct PodOutput {
    pub clustername: String,
    pub name: String,
    pub status: String,
    pub restarts: String,
    pub age: String,
    pub ip: String,
    pub node: String,
}

#[derive(Debug)]
pub struct DeploymentOutput {
    pub clustername: String,
    pub name: String,
    pub ready: String,
    pub up_to_date: String,
    pub available: String,
    pub age: String,
}

#[derive(Debug)]
pub struct ServiceOutput {
    pub clustername: String,
    pub name: String,
    pub type_: String,
    pub cluster_ip: String,
    pub external_ip: String,
    pub ports: String,
    pub age: String,
    pub selector: String,
}

pub struct NodeOutputView {
    pub clustername: Seq<char>,
    pub name: Seq<char>,
    pub status: Seq<char>,
    pub age: Seq<char>,
    pub version: Seq<char>,
    pub arch: Seq<char>,
    pub kernel: Seq<char>,
    pub container_runtime_version: Seq<char>,
}

pub struct DefaultOutputView {
    pub clustername: Seq<char>,
    pub name: Seq<char>,
    pub age: Seq<char>,
}

pub struct PodOutputView {
    pub clustername: Seq<char>,
    pub name: Seq<char>,
    pub status: Seq<char>,
    pub restarts: Seq<char>,
    pub age: Seq<char>,
    pub ip: Seq<char>,
    pub node: Seq<char>,
}

pub struct DeploymentOutputView {
    pub clustername: Seq<char>,
    pub name: Seq<char>,
    pub ready: Seq<char>,
    pub up_to_date: Seq<char>,
    pub available: Seq<char>,
    pub age: Seq<char>,
}

pub struct ServiceOutputView {
    pub clustername: Seq<char>,
    pub name: Seq<char>,
    pub type_: Seq<char>,
    pub cluster_ip: Seq<char>,
    pub external_ip: Seq<char>,
    pub ports: Seq<char>,
    pub age: Seq<char>,
    pub selector: Seq<char>,
}

pub enum KubeOutputView {
    Node(NodeOutputView),
    Pod(PodOutputView),
    Deployment(DeploymentOutputView),
    Service(ServiceOutputView),
    Default_(DefaultOutputView),
}

impl View for NodeOutput {
    type V = NodeOutputView;

    open spec fn view(&self) -> NodeOutputView {
        NodeOutputView {
            clustername: self.clustername@,
            name: self.name@,
            status: self.status@,
            age: self.age@,
            version: self.version@,
            arch: self.arch@,
            kernel: self.kernel@,
            container_runtime_version: self.container_runtime_version@,
        }
    }
}

impl View for DefaultOutput {
    type V = DefaultOutputView;

    open spec fn view(&self) -> DefaultOutputView {
        DefaultOutputView { clustername: self.clustername@, name: self.name@, age: self.age@ }
    }
}

impl View for PodOutput {
    type V = PodOutputView;

    open spec fn view(&self) -> PodOutputView {
        PodOutputView {
            clustername: self.clustername@,
            name: self.name@,
            status: self.status@,
            restarts: self.restarts@,
            age: self.age@,
            ip: self.ip@,
            node: self.node@,
        }
    }
}

impl View for DeploymentOutput {
    type V = DeploymentOutputView;

    open spec fn view(&self) -> DeploymentOutputView {
        DeploymentOutputView {
            clustername: self.clustername@,
            name: self.name@,
            ready: self.ready@,
            up_to_date: self.up_to_date@,
            available: self.available@,
            age: self.age@,
        }
    }
}

impl View for ServiceOutput {
    type V = ServiceOutputView;

    open spec fn view(&self) -> ServiceOutputView {
        ServiceOutputView {
            clustername: self.clustername@,
            name: self.name@,
            type_: self.type_@,
            cluster_ip: self.cluster_ip@,
            external_ip: self.external_ip@,
            ports: self.ports@,
            age: self.age@,
            selector: self.selector@,
        }
    }
}

impl View for KubeOutput {
    type V = KubeOutputView;

    open spec fn view(&self) -> KubeOutputView {
        match self {
            KubeOutput::Node(o) => KubeOutputView::Node(o@),
            KubeOutput::Pod(o) => KubeOutputView::Pod(o@),
            KubeOutput::Deployment(o) => KubeOutputView::Deployment(o@),
            KubeOutput::Service(o) => KubeOutputView::Service(o@),
            KubeOutput::Default_(o) => KubeOutputView::Default_(o@),
        }
    }
}

// ---------------------------------------------------------------------------
// The generic row
// ---------------------------------------------------------------------------
/// The generic row any object yields: name and age.
pub open spec fn default_output_of(d: JsonView, now: int) -> DefaultOutputView {
    DefaultOutputView { clustername: Seq::empty(), name: obj_name_of(d), age: age_of(d, now) }
}

impl DefaultOutput {
    /// Shapes any listed object into the generic row. The cluster name is
    /// filled in by the caller that knows it.
    pub fn from_object(d: &JsonValue, now_secs: i64) -> (r: DefaultOutput)
        ensures
            r@ == default_output_of(d@, now_secs as int),
    {
        let r = DefaultOutput {
            clustername: String::new(),
            name: object_name(d),
            age: object_age(d, now_secs),
        };
        r
    }
}

// ---------------------------------------------------------------------------
// Node rows
// ---------------------------------------------------------------------------
/// One readable node condition: its type and status texts. A condition
/// missing either is malformed, and with it the whole status.
pub open spec fn condition_of(v: JsonView) -> Option<(Seq<char>, Seq<char>)> {
    match (str_field(v, "type"@), str_field(v, "status"@)) {
        (Some(t), Some(s)) => Some((t, s)),
        _ => None,
    }
}

pub open spec fn parse_conditions(a: Seq<JsonView>) -> Option<Seq<(Seq<char>, Seq<char>)>>
    decreases a.len(),
{
    if a.len() == 0 {
        Some(Seq::empty())
    } else {
        match condition_of(a[0]) {
            Some(c) => match parse_conditions(a.drop_first()) {
                Some(rest) => Some(seq![c] + rest),
                None => None,
            },
            None => None,
        }
    }
}

/// The conditions a status object carries: empty where absent, `None` where
/// malformed.
pub open spec fn conditions_field(v: JsonView) -> Option<Seq<(Seq<char>, Seq<char>)>> {
    match v.get("conditions"@) {
        None => Some(Seq::empty()),
        Some(JsonView::Null) => Some(Seq::empty()),
        Some(JsonView::Array(a)) => parse_conditions(a),
        Some(_) => None,
    }
}

/// What the first condition of type `Ready` says a node is: `Ready` when
/// true, `NotReady` when anything else, `Unknown` where no such condition
/// exists.
pub open spec fn ready_of(conds: Seq<(Seq<char>, Seq<char>)>) -> Seq<char>
    decreases conds.len(),
{
    if conds.len() == 0 {
        "Unknown"@
    } else if conds[0].0 == "Ready"@ {
        if conds[0].1 == "True"@ {
            "Ready"@
        } else {
            "NotReady"@
        }
    } else {
        ready_of(conds.drop_first())
    }
}

pub struct NodeInfoView {
    pub kubelet_version: Seq<char>,
    pub architecture: Seq<char>,
    pub kernel_version: Seq<char>,
    pub container_runtime_version: Seq<char>,
}

pub open spec fn empty_node_info() -> NodeInfoView {
    NodeInfoView {
        kubelet_version: Seq::empty(),
        architecture: Seq::empty(),
        kernel_version: Seq::empty(),
        container_runtime_version: Seq::empty(),
    }
}

/// The system info of a node's status: every field this crate displays is a
/// required string; empty texts where the info is absent.
pub open spec fn node_info_field(v: JsonView) -> Option<NodeInfoView> {
    match v.get("nodeInfo"@) {
        None => Some(empty_node_info()),
        Some(JsonView::Null) => Some(empty_node_info()),
        Some(info) => match (
            str_field(info, "kubeletVersion"@),
            str_field(info, "architecture"@),
            str_field(info, "kernelVersion"@),
            str_field(info, "containerRuntimeVersion"@),
        ) {
            (Some(kv), Some(ar), Some(ke), Some(cr)) => Some(
                NodeInfoView {
                    kubelet_version: kv,
                    architecture: ar,
                    kernel_version: ke,
                    container_runtime_version: cr,
                },
            ),
            _ => None,
        },
    }
}

/// The readable parts of a node's status; a malformed status reads as a
/// default one, exactly as an unreadable status document would.
pub open spec fn node_status_of(d: JsonView) -> (Seq<(Seq<char>, Seq<char>)>, NodeInfoView) {
    match d.get("status"@) {
        Some(st) => match (conditions_field(st), node_info_field(st)) {
            (Some(conds), Some(info)) => (conds, info),
            _ => (Seq::empty(), empty_node_info()),
        },
        None => (Seq::empty(), empty_node_info()),
    }
}

/// The row one listed node yields.
pub open spec fn node_output_of(d: JsonView, now: int) -> NodeOutputView {
    let (conds, info) = node_status_of(d);
    NodeOutputView {
        clustername: Seq::empty(),
        name: obj_name_of(d),
        status: ready_of(conds),
        age: age_of(d, now),
        version: info.kubelet_version,
        arch: info.architecture,
        kernel: info.kernel_version,
        container_runtime_version: info.container_runtime_version,
    }
}

/// Reads one condition's type and status.
fn condition_from_json(v: &JsonValue) -> (r: Option<(String, String)>)
    ensures
        match r {
            Some(c) => condition_of(v@) == Some((c.0@, c.1@)),
            None => condition_of(v@) is None,
        },
{
    let t = match get_str_field(v, "type") {
        Some(t) => t.clone(),
        None => {
            return None;
        },
    };
    let s = match get_str_field(v, "status") {
        Some(s) => s.clone(),
        None => {
            return None;
        },
    };
    Some((t, s))
}

fn conditions_from_json(a: &Vec<JsonValue>) -> (r: Option<Vec<(String, String)>>)
    ensures
        match r {
            Some(cs) => parse_conditions(json_view_seq(a@)) == Some(
                cs@.map_values(|c: (String, String)| (c.0@, c.1@)),
            ),
            None => parse_conditions(json_view_seq(a@)) is None,
        },
{
    let ghost s = json_view_seq(a@);
    proof {
        lemma_json_view_seq(a@);
        assert(s.skip(0) =~= s);
        if parse_conditions(s) is Some {
            assert(Seq::<(Seq<char>, Seq<char>)>::empty() + parse_conditions(s).unwrap()
                =~= parse_conditions(s).unwrap());
        }
    }
    let mut cs: Vec<(String, String)> = Vec::new();
    let mut i: usize = 0;
    assert(cs@.map_values(|c: (String, String)| (c.0@, c.1@)) =~= Seq::<
        (Seq<char>, Seq<char>),
    >::empty());
    while i < a.len()
        invariant
            s == json_view_seq(a@),
            s.len() == a@.len(),
            forall|j: int| 0 <= j < a@.len() ==> #[trigger] s[j] == json_view(a@[j]),
            i <= a@.len(),
            match parse_conditions(s.skip(i as int)) {
                Some(rest) => parse_conditions(s) == Some(
                    cs@.map_values(|c: (String, String)| (c.0@, c.1@)) + rest,
                ),
                None => parse_conditions(s) is None,
            },
        decreases a@.len() - i,
    {
        proof {
            assert(s.skip(i as int)[0] == s[i as int]);
            assert(s.skip(i as int).drop_first() =~= s.skip(i + 1 as int));
        }
        let c = match condition_from_json(&a[i]) {
            Some(c) => c,
            None => {
                return None;
            },
        };
        proof {
            let cv = |c: (String, String)| (c.0@, c.1@);
            if parse_conditions(s.skip(i + 1 as int)) is Some {
                let rest2 = parse_conditions(s.skip(i + 1 as int)).unwrap();
                assert(cs@.push(c).map_values(cv) =~= cs@.map_values(cv).push((c.0@, c.1@)));
                assert(cs@.map_values(cv).push((c.0@, c.1@)) + rest2 =~= cs@.map_values(cv) + (
                seq![(c.0@, c.1@)] + rest2));
            }
        }
        cs.push(c);
        i += 1;
    }
    proof {
        assert(s.skip(i as int) =~= Seq::<JsonView>::empty());
        assert(cs@.map_values(|c: (String, String)| (c.0@, c.1@)) + Seq::<
            (Seq<char>, Seq<char>),
        >::empty() =~= cs@.map_values(|c: (String, String)| (c.0@, c.1@)));
    }
    Some(cs)
}

/// The status text the conditions give a node.
fn ready_status(conds: &Vec<(String, String)>) -> (r: String)
    ensures
        r@ == ready_of(conds@.map_values(|c: (String, String)| (c.0@, c.1@))),
{
    let ghost cv = conds@.map_values(|c: (String, String)| (c.0@, c.1@));
    let mut i: usize = 0;
    proof {
        assert(cv.skip(0) =~= cv);
    }
    while i < conds.len()
        invariant
            cv == conds@.map_values(|c: (String, String)| (c.0@, c.1@)),
            cv.len() == conds@.len(),
            forall|j: int|
                0 <= j < conds@.len() ==> cv[j] == (
                    #[trigger] conds@[j].0@,
                    conds@[j].1@,
                ),
            i <= conds@.len(),
            ready_of(cv) == ready_of(cv.skip(i as int)),
        decreases conds@.len() - i,
    {
        proof {
            assert(cv.skip(i as int)[0] == cv[i as int]);
            assert(cv.skip(i as int).drop_first() =~= cv.skip(i + 1 as int));
        }
        let c = &conds[i];
        if strutil::str_eq(c.0.as_str(), "Ready") {
            if strutil::str_eq(c.1.as_str(), "True") {
                return "Ready".to_owned();
            } else {
                return "NotReady".to_owned();
            }
        }
        i += 1;
    }
    proof {
        assert(cv.skip(i as int) =~= Seq::<(Seq<char>, Seq<char>)>::empty());
    }
    "Unknown".to_owned()
}

impl NodeOutput {
    /// Shapes one listed node into its row: the readiness its conditions
    /// give it, its age, and its system info. The cluster name is filled in
    /// by the caller.
    pub fn from_object(d: &JsonValue, now_secs: i64) -> (r: NodeOutput)
        ensures
            r@ == node_output_of(d@, now_secs as int),
    {
        let mut conds: Vec<(String, String)> = Vec::new();
        let mut version = String::new();
        let mut arch = String::new();
        let mut kernel = String::new();
        let mut runtime = String::new();
        match d.get("status") {
            Some(st) => {
                let parsed_conds: Option<Vec<(String, String)>> = match st.get("conditions") {
                    None => Some(Vec::new()),
                    Some(f) => match f {
                        JsonValue::Null => Some(Vec::new()),
                        _ => match f.as_array() {
                            Some(arr) => conditions_from_json(arr),
                            None => None,
                        },
                    },
                };
                let parsed_info: Option<(String, String, String, String)> = match st.get(
                    "nodeInfo",
                ) {
                    None => Some((String::new(), String::new(), String::new(), String::new())),
                    Some(info) => match info {
                        JsonValue::Null => Some(
                            (String::new(), String::new(), String::new(), String::new()),
                        ),
                        _ => {
                            match (
                                get_str_field(info, "kubeletVersion"),
                                get_str_field(info, "architecture"),
                                get_str_field(info, "kernelVersion"),
                                get_str_field(info, "containerRuntimeVersion"),
                            ) {
                                (Some(kv), Some(ar), Some(ke), Some(cr)) => Some(
                                    (kv.clone(), ar.clone(), ke.clone(), cr.clone()),
                                ),
                                _ => None,
                            }
                        },
                    },
                };
                match (parsed_conds, parsed_info) {
                    (Some(cs), Some(info)) => {
                        conds = cs;
                        version = info.0;
                        arch = info.1;
                        kernel = info.2;
                        runtime = info.3;
                    },
                    _ => {
                        assert(conds@.map_values(|c: (String, String)| (c.0@, c.1@)) =~= Seq::<
                            (Seq<char>, Seq<char>),
                        >::empty());
                    },
                }
            },
            None => {
                assert(conds@.map_values(|c: (String, String)| (c.0@, c.1@)) =~= Seq::<
                    (Seq<char>, Seq<char>),
                >::empty());
            },
        }
        let status = ready_status(&conds);
        let r = NodeOutput {
            clustername: String::new(),
            name: object_name(d),
            status,
            age: object_age(d, now_secs),
            version,
            arch,
            kernel,
            container_runtime_version: runtime,
        };
        r
    }
}

// ---------------------------------------------------------------------------
// Pod rows
// ---------------------------------------------------------------------------
/// An optional string field: `None` marks a malformed one, `Some(None)` an
/// absent or null one.
pub open spec fn opt_str_field(v: JsonView, key: Seq<char>) -> Option<Option<Seq<char>>> {
    crate::discovery::opt_str_field(v, key)
}

/// A required number field holding an integer in `i32` range, as the status
/// documents carry counts.
pub open spec fn num_field(v: JsonView, key: Seq<char>) -> Option<int> {
    match v.get(key) {
        Some(JsonView::Number(s)) => match int_text_value(s) {
            Some(n) => if -0x8000_0000 <= n < 0x8000_0000 {
                Some(n)
            } else {
                None
            },
            None => None,
        },
        _ => None,
    }
}

/// An optional number field: zero where absent or null, as a missing count
/// displays.
pub open spec fn opt_num_field(v: JsonView, key: Seq<char>) -> Option<int> {
    match v.get(key) {
        None => Some(0),
        Some(JsonView::Null) => Some(0),
        Some(JsonView::Number(s)) => match int_text_value(s) {
            Some(n) => if -0x8000_0000 <= n < 0x8000_0000 {
                Some(n)
            } else {
                None
            },
            None => None,
        },
        Some(_) => None,
    }
}

/// One readable container status: whether it is ready, and its restart
/// count; both are required of a well-formed one.
pub open spec fn container_status_of(v: JsonView) -> Option<(bool, int)> {
    match v.get("ready"@) {
        Some(JsonView::Bool(b)) => match num_field(v, "restartCount"@) {
            Some(n) => Some((b, n)),
            None => None,
        },
        _ => None,
    }
}

pub open spec fn parse_container_statuses(a: Seq<JsonView>) -> Option<Seq<(bool, int)>>
    decreases a.len(),
{
    if a.len() == 0 {
        Some(Seq::empty())
    } else {
        match container_status_of(a[0]) {
            Some(c) => match parse_container_statuses(a.drop_first()) {
                Some(rest) => Some(seq![c] + rest),
                None => None,
            },
            None => None,
        }
    }
}

/// A status's list of container statuses under `key`: empty where absent.
pub open spec fn container_statuses_field(v: JsonView, key: Seq<char>) -> Option<
    Seq<(bool, int)>,
> {
    match v.get(key) {
        None => Some(Seq::empty()),
        Some(JsonView::Null) => Some(Seq::empty()),
        Some(JsonView::Array(a)) => parse_container_statuses(a),
        Some(_) => None,
    }
}

pub struct PodStatusBits {
    pub phase: Option<Seq<char>>,
    pub containers: Seq<(bool, int)>,
    pub init_containers: Seq<(bool, int)>,
    pub ip: Option<Seq<char>>,
}

pub open spec fn empty_pod_status() -> PodStatusBits {
    PodStatusBits {
        phase: None,
        containers: Seq::empty(),
        init_containers: Seq::empty(),
        ip: None,
    }
}

/// The readable parts of a pod's status; a malformed one reads as a default.
pub open spec fn pod_status_bits(st: JsonView) -> Option<PodStatusBits> {
    match (
        opt_str_field(st, "phase"@),
        container_statuses_field(st, "containerStatuses"@),
        container_statuses_field(st, "initContainerStatuses"@),
        opt_str_field(st, "podIP"@),
    ) {
        (Some(phase), Some(containers), Some(init_containers), Some(ip)) => Some(
            PodStatusBits { phase, containers, init_containers, ip },
        ),
        _ => None,
    }
}

/// The restarts a list of container statuses adds up to.
pub open spec fn sum_restarts(cs: Seq<(bool, int)>) -> int
    decreases cs.len(),
{
    if cs.len() == 0 {
        0int
    } else {
        cs[0].1 + sum_restarts(cs.drop_first())
    }
}

/// The row one listed pod yields.
pub open spec fn pod_output_of(d: JsonView, now: int) -> PodOutputView {
    match (d.get("status"@), d.get("spec"@)) {
        (Some(st), Some(sp)) => {
            let bits = match pod_status_bits(st) {
                Some(b) => b,
                None => empty_pod_status(),
            };
            let node = match opt_str_field(sp, "nodeName"@) {
                Some(Some(n)) => n,
                _ => Seq::empty(),
            };
            PodOutputView {
                clustername: Seq::empty(),
                name: obj_name_of(d),
                status: match bits.phase {
                    Some(p) => p,
                    None => "Unknown"@,
                },
                restarts: dec_int(
                    sum_restarts(bits.containers) + sum_restarts(bits.init_containers),
                ),
                age: age_of(d, now),
                ip: match bits.ip {
                    Some(ip) => ip,
                    None => Seq::empty(),
                },
                node,
            }
        },
        _ => PodOutputView {
            clustername: Seq::empty(),
            name: obj_name_of(d),
            status: "Unknown"@,
            restarts: Seq::empty(),
            age: age_of(d, now),
            ip: Seq::empty(),
            node: Seq::empty(),
        },
    }
}

/// Reads one container status's readiness and restart count; the count is
/// held to `i32` range, as the documents carry it.
fn container_status_from_json(v: &JsonValue) -> (r: Option<(bool, i64)>)
    ensures
        match r {
            Some(c) => container_status_of(v@) == Some((c.0, c.1 as int)) && -0x8000_0000 <= c.1
                < 0x8000_0000,
            None => container_status_of(v@) is None,
        },
{
    let ready = match v.get("ready") {
        Some(f) => match f.as_bool() {
            Some(b) => b,
            None => {
                return None;
            },
        },
        None => {
            return None;
        },
    };
    let restarts = match num_field_from_json(v, "restartCount") {
        Some(n) => n,
        None => {
            return None;
        },
    };
    Some((ready, restarts))
}

/// Reads a required count field, held to `i32` range.
fn num_field_from_json(v: &JsonValue, key: &str) -> (r: Option<i64>)
    ensures
        match r {
            Some(n) => num_field(v@, key@) == Some(n as int) && -0x8000_0000 <= n < 0x8000_0000,
            None => num_field(v@, key@) is None,
        },
{
    match v.get(key) {
        Some(f) => match f {
            JsonValue::Number(s) => match strutil::parse_i64_text(s.as_str()) {
                Some(n) => {
                    if -0x8000_0000i64 <= n && n < 0x8000_0000i64 {
                        Some(n)
                    } else {
                        None
                    }
                },
                None => None,
            },
            _ => None,
        },
        None => None,
    }
}

fn container_statuses_from_json(a: &Vec<JsonValue>) -> (r: Option<Vec<(bool, i64)>>)
    ensures
        match r {
            Some(cs) => parse_container_statuses(json_view_seq(a@)) == Some(
                cs@.map_values(|c: (bool, i64)| (c.0, c.1 as int)),
            ) && forall|j: int|
                0 <= j < cs@.len() ==> -0x8000_0000 <= #[trigger] cs@[j].1 < 0x8000_0000,
            None => parse_container_statuses(json_view_seq(a@)) is None,
        },
{
    let ghost s = json_view_seq(a@);
    proof {
        lemma_json_view_seq(a@);
        assert(s.skip(0) =~= s);
        if parse_container_statuses(s) is Some {
            assert(Seq::<(bool, int)>::empty() + parse_container_statuses(s).unwrap()
                =~= parse_container_statuses(s).unwrap());
        }
    }
    let mut cs: Vec<(bool, i64)> = Vec::new();
    let mut i: usize = 0;
    assert(cs@.map_values(|c: (bool, i64)| (c.0, c.1 as int)) =~= Seq::<(bool, int)>::empty());
    while i < a.len()
        invariant
            s == json_view_seq(a@),
            s.len() == a@.len(),
            forall|j: int| 0 <= j < a@.len() ==> #[trigger] s[j] == json_view(a@[j]),
            i <= a@.len(),
            forall|j: int| 0 <= j < cs@.len() ==> -0x8000_0000 <= #[trigger] cs@[j].1 < 0x8000_0000,
            match parse_container_statuses(s.skip(i as int)) {
                Some(rest) => parse_container_statuses(s) == Some(
                    cs@.map_values(|c: (bool, i64)| (c.0, c.1 as int)) + rest,
                ),
                None => parse_container_statuses(s) is None,
            },
        decreases a@.len() - i,
    {
        proof {
            assert(s.skip(i as int)[0] == s[i as int]);
            assert(s.skip(i as int).drop_first() =~= s.skip(i + 1 as int));
        }
        let c = match container_status_from_json(&a[i]) {
            Some(c) => c,
            None => {
                return None;
            },
        };
        proof {
            let cv = |c: (bool, i64)| (c.0, c.1 as int);
            if parse_container_statuses(s.skip(i + 1 as int)) is Some {
                let rest2 = parse_container_statuses(s.skip(i + 1 as int)).unwrap();
                assert(cs@.push(c).map_values(cv) =~= cs@.map_values(cv).push((c.0, c.1 as int)));
                assert(cs@.map_values(cv).push((c.0, c.1 as int)) + rest2 =~= cs@.map_values(cv)
                    + (seq![(c.0, c.1 as int)] + rest2));
            }
        }
        cs.push(c);
        i += 1;
    }
    proof {
        assert(s.skip(i as int) =~= Seq::<JsonView>::empty());
        assert(cs@.map_values(|c: (bool, i64)| (c.0, c.1 as int)) + Seq::<(bool, int)>::empty()
            =~= cs@.map_values(|c: (bool, i64)| (c.0, c.1 as int)));
    }
    Some(cs)
}

/// Adds up restart counts; every count is in `i32` range, so the sum stays
/// well inside the accumulator.
fn total_restarts(cs: &Vec<(bool, i64)>) -> (r: i128)
    requires
        forall|j: int| 0 <= j < cs@.len() ==> -0x8000_0000 <= #[trigger] cs@[j].1 < 0x8000_0000,
    ensures
        r == sum_restarts(cs@.map_values(|c: (bool, i64)| (c.0, c.1 as int))),
        -0x8000_0000_0000_0000_0000_0000i128 <= r <= 0x8000_0000_0000_0000_0000_0000i128,
{
    let ghost cv = cs@.map_values(|c: (bool, i64)| (c.0, c.1 as int));
    let n = cs.len();
    let mut total: i128 = 0;
    let mut i: usize = 0;
    proof {
        assert(cv.skip(0) =~= cv);
    }
    while i < cs.len()
        invariant
            cv == cs@.map_values(|c: (bool, i64)| (c.0, c.1 as int)),
            cv.len() == cs@.len(),
            forall|j: int| 0 <= j < cs@.len() ==> cv[j] == (#[trigger] cs@[j].0, cs@[j].1 as int),
            forall|j: int|
                0 <= j < cs@.len() ==> -0x8000_0000 <= #[trigger] cs@[j].1 < 0x8000_0000,
            i <= cs@.len(),
            sum_restarts(cv) == total + sum_restarts(cv.skip(i as int)),
            -0x8000_0000i128 * i <= total <= 0x8000_0000i128 * i,
        decreases cs@.len() - i,
    {
        proof {
            assert(cv.skip(i as int)[0] == cv[i as int]);
            assert(cv.skip(i as int).drop_first() =~= cv.skip(i + 1 as int));
            assert(-0x8000_0000i128 * (i + 1) <= total + cs@[i as int].1
                <= 0x8000_0000i128 * (i + 1)) by (nonlinear_arith)
                requires
                    -0x8000_0000i128 * i <= total <= 0x8000_0000i128 * i,
                    -0x8000_0000 <= cs@[i as int].1 < 0x8000_0000,
                    0 <= i,
            ;
        }
        total = total + cs[i].1 as i128;
        i += 1;
    }
    proof {
        assert(cv.skip(i as int) =~= Seq::<(bool, int)>::empty());
        assert(-0x8000_0000_0000_0000_0000_0000i128 <= total
            <= 0x8000_0000_0000_0000_0000_0000i128) by (nonlinear_arith)
            requires
                -0x8000_0000i128 * i <= total <= 0x8000_0000i128 * i,
                0 <= i <= n,
                n <= 0xffff_ffff_ffff_ffffu64,
        ;
    }
    total
}

impl PodOutput {
    /// Shapes one listed pod into its row: its phase, its restart total over
    /// regular and init containers, its address and its node. The cluster
    /// name is filled in by the caller.
    pub fn from_object(d: &JsonValue, now_secs: i64) -> (r: PodOutput)
        ensures
            r@ == pod_output_of(d@, now_secs as int),
    {
        let name = object_name(d);
        let age = object_age(d, now_secs);
        match (d.get("status"), d.get("spec")) {
            (Some(st), Some(sp)) => {
                let phase: Option<Option<&String>> = match st.get("phase") {
                    None => Some(None),
                    Some(f) => match f {
                        JsonValue::Null => Some(None),
                        JsonValue::Str(s) => Some(Some(s)),
                        _ => None,
                    },
                };
                let containers = statuses_field_from_json(st, "containerStatuses");
                let init_containers = statuses_field_from_json(st, "initContainerStatuses");
                let ip: Option<Option<&String>> = match st.get("podIP") {
                    None => Some(None),
                    Some(f) => match f {
                        JsonValue::Null => Some(None),
                        JsonValue::Str(s) => Some(Some(s)),
                        _ => None,
                    },
                };
                let (status, restarts, ip_text) = match (phase, containers, init_containers, ip) {
                    (Some(phase), Some(cs), Some(ics), Some(ip)) => {
                        let total = total_restarts(&cs) + total_restarts(&ics);
                        let status = match phase {
                            Some(p) => p.clone(),
                            None => "Unknown".to_owned(),
                        };
                        let ip_text = match ip {
                            Some(p) => p.clone(),
                            None => String::new(),
                        };
                        (status, strutil::i128_to_string(total), ip_text)
                    },
                    _ => {
                        // An unreadable status reads as a default one.
                        let ghost e = Seq::<(bool, int)>::empty();
                        assert(sum_restarts(e) + sum_restarts(e) == 0);
                        ("Unknown".to_owned(), strutil::i128_to_string(0), String::new())
                    },
                };
                let node = match sp.get("nodeName") {
                    None => String::new(),
                    Some(f) => match f {
                        JsonValue::Str(s) => s.clone(),
                        _ => String::new(),
                    },
                };
                PodOutput {
                    clustername: String::new(),
                    name,
                    status,
                    restarts,
                    age,
                    ip: ip_text,
                    node,
                }
            },
            _ => PodOutput {
                clustername: String::new(),
                name,
                status: "Unknown".to_owned(),
                restarts: String::new(),
                age,
                ip: String::new(),
                node: String::new(),
            },
        }
    }
}

/// Reads a status's container status list under `key`: empty where absent,
/// nothing where malformed.
fn statuses_field_from_json(st: &JsonValue, key: &str) -> (r: Option<Vec<(bool, i64)>>)
    ensures
        match r {
            Some(cs) => container_statuses_field(st@, key@) == Some(
                cs@.map_values(|c: (bool, i64)| (c.0, c.1 as int)),
            ) && forall|j: int|
                0 <= j < cs@.len() ==> -0x8000_0000 <= #[trigger] cs@[j].1 < 0x8000_0000,
            None => container_statuses_field(st@, key@) is None,
        },
{
    match st.get(key) {
        None => {
            let cs: Vec<(bool, i64)> = Vec::new();
            assert(cs@.map_values(|c: (bool, i64)| (c.0, c.1 as int)) =~= Seq::<
                (bool, int),
            >::empty());
            Some(cs)
        },
        Some(f) => match f {
            JsonValue::Null => {
                let cs: Vec<(bool, i64)> = Vec::new();
                assert(cs@.map_values(|c: (bool, i64)| (c.0, c.1 as int)) =~= Seq::<
                    (bool, int),
                >::empty());
                Some(cs)
            },
            _ => match f.as_array() {
                Some(arr) => container_statuses_from_json(arr),
                None => None,
            },
        },
    }
}

// ---------------------------------------------------------------------------
// Deployment rows
// ---------------------------------------------------------------------------
/// The replica counts of a deployment's status; a malformed status reads as
/// all zeroes, as an absent count does.
pub open spec fn deployment_counts(st: JsonView) -> (int, int, int, int) {
    match (
        opt_num_field(st, "readyReplicas"@),
        opt_num_field(st, "replicas"@),
        opt_num_field(st, "updatedReplicas"@),
        opt_num_field(st, "availableReplicas"@),
    ) {
        (Some(ready), Some(replicas), Some(updated), Some(available)) => (
            ready,
            replicas,
            updated,
            available,
        ),
        _ => (0, 0, 0, 0),
    }
}

/// The row one listed deployment yields.
pub open spec fn deployment_output_of(d: JsonView, now: int) -> DeploymentOutputView {
    match (d.get("status"@), d.get("spec"@)) {
        (Some(st), Some(_sp)) => {
            let (ready, replicas, updated, available) = deployment_counts(st);
            DeploymentOutputView {
                clustername: Seq::empty(),
                name: obj_name_of(d),
                ready: dec_int(ready) + seq!['/'] + dec_int(replicas),
                up_to_date: dec_int(updated),
                available: dec_int(available),
                age: age_of(d, now),
            }
        },
        _ => DeploymentOutputView {
            clustername: Seq::empty(),
            name: obj_name_of(d),
            ready: Seq::empty(),
            up_to_date: Seq::empty(),
            available: Seq::empty(),
            age: age_of(d, now),
        },
    }
}

/// Reads an optional count field: zero where absent.
fn opt_num_field_from_json(v: &JsonValue, key: &str) -> (r: Option<i64>)
    ensures
        match r {
            Some(n) => opt_num_field(v@, key@) == Some(n as int) && -0x8000_0000 <= n
                < 0x8000_0000,
            None => opt_num_field(v@, key@) is None,
        },
{
    match v.get(key) {
        None => Some(0),
        Some(f) => match f {
            JsonValue::Null => Some(0),
            JsonValue::Number(s) => match strutil::parse_i64_text(s.as_str()) {
                Some(n) => {
                    if -0x8000_0000i64 <= n && n < 0x8000_0000i64 {
                        Some(n)
                    } else {
                        None
                    }
                },
                None => None,
            },
            _ => None,
        },
    }
}

impl DeploymentOutput {
    /// Shapes one listed deployment into its row: how many replicas are
    /// ready of how many, how many are up to date and available. The cluster
    /// name is filled in by the caller.
    pub fn from_object(d: &JsonValue, now_secs: i64) -> (r: DeploymentOutput)
        ensures
            r@ == deployment_output_of(d@, now_secs as int),
    {
        proof {
            reveal_strlit("/");
            assert("/"@ =~= seq!['/']);
        }
        let name = object_name(d);
        let age = object_age(d, now_secs);
        match (d.get("status"), d.get("spec")) {
            (Some(st), Some(_sp)) => {
                let counts: Option<(i64, i64, i64, i64)> = match (
                    opt_num_field_from_json(st, "readyReplicas"),
                    opt_num_field_from_json(st, "replicas"),
                    opt_num_field_from_json(st, "updatedReplicas"),
                    opt_num_field_from_json(st, "availableReplicas"),
                ) {
                    (Some(a), Some(b), Some(c), Some(e)) => Some((a, b, c, e)),
                    _ => None,
                };
                let (ready, replicas, updated, available) = match counts {
                    Some(t) => t,
                    None => (0i64, 0i64, 0i64, 0i64),
                };
                let mut ready_text = strutil::i64_to_string(ready);
                ready_text.append("/");
                let replicas_text = strutil::i64_to_string(replicas);
                ready_text.append(replicas_text.as_str());
                DeploymentOutput {
                    clustername: String::new(),
                    name,
                    ready: ready_text,
                    up_to_date: strutil::i64_to_string(updated),
                    available: strutil::i64_to_string(available),
                    age,
                }
            },
            _ => DeploymentOutput {
                clustername: String::new(),
                name,
                ready: String::new(),
                up_to_date: String::new(),
                available: String::new(),
                age,
            },
        }
    }
}

// ---------------------------------------------------------------------------
// Service rows
// ---------------------------------------------------------------------------
/// One readable service port: its number and its protocol text, empty where
/// no protocol is named.
pub open spec fn port_of(v: JsonView) -> Option<(int, Seq<char>)> {
    match num_field(v, "port"@) {
        Some(p) => match opt_str_field(v, "protocol"@) {
            Some(Some(proto)) => Some((p, proto)),
            Some(None) => Some((p, Seq::empty())),
            None => None,
        },
        None => None,
    }
}

pub open spec fn parse_ports(a: Seq<JsonView>) -> Option<Seq<(int, Seq<char>)>>
    decreases a.len(),
{
    if a.len() == 0 {
        Some(Seq::empty())
    } else {
        match port_of(a[0]) {
            Some(p) => match parse_ports(a.drop_first()) {
                Some(rest) => Some(seq![p] + rest),
                None => None,
            },
            None => None,
        }
    }
}

/// Every value of an object read as a string, with its key, in document
/// order.
pub open spec fn parse_str_map(fs: Seq<(Seq<char>, JsonView)>) -> Option<
    Seq<(Seq<char>, Seq<char>)>,
>
    decreases fs.len(),
{
    if fs.len() == 0 {
        Some(Seq::empty())
    } else {
        match fs[0].1 {
            JsonView::Str(v) => match parse_str_map(fs.drop_first()) {
                Some(rest) => Some(seq![(fs[0].0, v)] + rest),
                None => None,
            },
            _ => None,
        }
    }
}

pub struct ServiceSpecBits {
    pub type_: Option<Seq<char>>,
    pub cluster_ip: Option<Seq<char>>,
    pub ports: Seq<(int, Seq<char>)>,
    pub selector: Seq<(Seq<char>, Seq<char>)>,
}

pub open spec fn empty_service_spec() -> ServiceSpecBits {
    ServiceSpecBits { type_: None, cluster_ip: None, ports: Seq::empty(), selector: Seq::empty() }
}

/// The readable parts of a service's spec; a malformed one reads as a
/// default.
pub open spec fn service_spec_bits(sp: JsonView) -> Option<ServiceSpecBits> {
    let ports = match sp.get("ports"@) {
        None => Some(Seq::<(int, Seq<char>)>::empty()),
        Some(JsonView::Null) => Some(Seq::<(int, Seq<char>)>::empty()),
        Some(JsonView::Array(a)) => parse_ports(a),
        Some(_) => None,
    };
    let selector = match sp.get("selector"@) {
        None => Some(Seq::<(Seq<char>, Seq<char>)>::empty()),
        Some(JsonView::Null) => Some(Seq::<(Seq<char>, Seq<char>)>::empty()),
        Some(JsonView::Object(fs)) => parse_str_map(fs),
        Some(_) => None,
    };
    match (opt_str_field(sp, "type"@), opt_str_field(sp, "clusterIP"@), ports, selector) {
        (Some(t), Some(ip), Some(ps), Some(sel)) => Some(
            ServiceSpecBits { type_: t, cluster_ip: ip, ports: ps, selector: sel },
        ),
        _ => None,
    }
}

/// The external address a service's status shows: the first ingress's IP,
/// else its host name, else a none marker.
pub open spec fn external_ip_of(st: JsonView) -> Seq<char> {
    match st.get("loadBalancer"@) {
        Some(lb) => match lb.get("ingress"@) {
            Some(JsonView::Array(a)) => if a.len() == 0 {
                "<none>"@
            } else {
                match str_field(a[0], "ip"@) {
                    Some(ip) => ip,
                    None => match str_field(a[0], "hostname"@) {
                        Some(h) => h,
                        None => "<none>"@,
                    },
                }
            },
            _ => "<none>"@,
        },
        _ => "<none>"@,
    }
}

/// Texts joined with commas.
pub open spec fn join_comma(parts: Seq<Seq<char>>) -> Seq<char>
    decreases parts.len(),
{
    if parts.len() == 0 {
        Seq::empty()
    } else if parts.len() == 1 {
        parts[0]
    } else {
        parts[0] + seq![','] + join_comma(parts.drop_first())
    }
}

/// How one port displays: number, slash, protocol.
pub open spec fn port_text(p: (int, Seq<char>)) -> Seq<char> {
    dec_int(p.0) + seq!['/'] + p.1
}

/// How one selector pair displays: key equals value.
pub open spec fn selector_text(kv: (Seq<char>, Seq<char>)) -> Seq<char> {
    kv.0 + seq!['='] + kv.1
}

/// The row one listed service yields.
pub open spec fn service_output_of(d: JsonView, now: int) -> ServiceOutputView {
    match (d.get("status"@), d.get("spec"@)) {
        (Some(st), Some(sp)) => {
            let bits = match service_spec_bits(sp) {
                Some(b) => b,
                None => empty_service_spec(),
            };
            ServiceOutputView {
                clustername: Seq::empty(),
                name: obj_name_of(d),
                type_: match bits.type_ {
                    Some(t) => t,
                    None => "Unknown"@,
                },
                cluster_ip: match bits.cluster_ip {
                    Some(ip) => ip,
                    None => "<none>"@,
                },
                external_ip: external_ip_of(st),
                ports: join_comma(bits.ports.map_values(|p: (int, Seq<char>)| port_text(p))),
                age: age_of(d, now),
                selector: join_comma(
                    bits.selector.map_values(|kv: (Seq<char>, Seq<char>)| selector_text(kv)),
                ),
            }
        },
        _ => ServiceOutputView {
            clustername: Seq::empty(),
            name: obj_name_of(d),
            type_: Seq::empty(),
            cluster_ip: Seq::empty(),
            external_ip: Seq::empty(),
            ports: Seq::empty(),
            age: age_of(d, now),
            selector: Seq::empty(),
        },
    }
}

/// Joins already-rendered parts with commas.
fn join_comma_exec(parts: Vec<String>) -> (r: String)
    ensures
        r@ == join_comma(parts@.map_values(|s: String| s@)),
{
    let ghost pv = parts@.map_values(|s: String| s@);
    let mut r = String::new();
    let n = parts.len();
    if n == 0 {
        assert(r@ =~= join_comma(pv));
        return r;
    }
    let mut i: usize = 0;
    proof {
        assert(pv.skip(0) =~= pv);
    }
    while i < n
        invariant
            n == parts@.len(),
            pv.len() == parts@.len(),
            forall|j: int| 0 <= j < parts@.len() ==> pv[j] == #[trigger] parts@[j]@,
            i <= n,
            0 < n,
            i < n ==> join_comma(pv) == r@ + join_comma(pv.skip(i as int)),
            i == n ==> join_comma(pv) == r@,
        decreases n - i,
    {
        proof {
            reveal_strlit(",");
            assert(","@ =~= seq![',']);
            assert(pv.skip(i as int)[0] == pv[i as int]);
            assert(pv.skip(i as int).drop_first() =~= pv.skip(i + 1 as int));
        }
        r.append(parts[i].as_str());
        if i + 1 < n {
            r.append(",");
        }
        i += 1;
    }
    r
}

impl ServiceOutput {
    /// Shapes one listed service into its row: its type, addresses, ports
    /// and selector. The cluster name is filled in by the caller.
    pub fn from_object(d: &JsonValue, now_secs: i64) -> (r: ServiceOutput)
        ensures
            r@ == service_output_of(d@, now_secs as int),
    {
        let name = object_name(d);
        let age = object_age(d, now_secs);
        match (d.get("status"), d.get("spec")) {
            (Some(st), Some(sp)) => {
                let type_field: Option<Option<&String>> = opt_str_from_json(sp, "type");
                let ip_field: Option<Option<&String>> = opt_str_from_json(sp, "clusterIP");
                let ports_field = ports_from_json(sp);
                let selector_field = selector_from_json(sp);
                let (type_text, ip_text, ports, selector) = match (
                    type_field,
                    ip_field,
                    ports_field,
                    selector_field,
                ) {
                    (Some(t), Some(ip), Some(ps), Some(sel)) => {
                        let type_text = match t {
                            Some(t) => t.clone(),
                            None => "Unknown".to_owned(),
                        };
                        let ip_text = match ip {
                            Some(ip) => ip.clone(),
                            None => "<none>".to_owned(),
                        };
                        (type_text, ip_text, ps, sel)
                    },
                    _ => {
                        let ps: Vec<(i64, String)> = Vec::new();
                        let sel: Vec<(String, String)> = Vec::new();
                        assert(ps@.map_values(|p: (i64, String)| (p.0 as int, p.1@)) =~= Seq::<
                            (int, Seq<char>),
                        >::empty());
                        assert(sel@.map_values(|kv: (String, String)| (kv.0@, kv.1@)) =~= Seq::<
                            (Seq<char>, Seq<char>),
                        >::empty());
                        ("Unknown".to_owned(), "<none>".to_owned(), ps, sel)
                    },
                };
                let external_ip = external_ip_from_json(st);
                let ports_text = render_ports(&ports);
                let selector_text_s = render_selector(&selector);
                ServiceOutput {
                    clustername: String::new(),
                    name,
                    type_: type_text,
                    cluster_ip: ip_text,
                    external_ip,
                    ports: ports_text,
                    age,
                    selector: selector_text_s,
                }
            },
            _ => ServiceOutput {
                clustername: String::new(),
                name,
                type_: String::new(),
                cluster_ip: String::new(),
                external_ip: String::new(),
                ports: String::new(),
                age,
                selector: String::new(),
            },
        }
    }
}

fn opt_str_from_json<'a>(v: &'a JsonValue, key: &str) -> (r: Option<Option<&'a String>>)
    ensures
        match r {
            Some(Some(s)) => opt_str_field(v@, key@) == Some(Some(s@)),
            Some(None) => opt_str_field(v@, key@) matches Some(o) && o is None,
            None => opt_str_field(v@, key@) is None,
        },
{
    match v.get(key) {
        None => Some(None),
        Some(f) => match f {
            JsonValue::Null => Some(None),
            JsonValue::Str(s) => Some(Some(s)),
            _ => None,
        },
    }
}

/// The external address of a service's status.
fn external_ip_from_json(st: &JsonValue) -> (r: String)
    ensures
        r@ == external_ip_of(st@),
{
    match st.get("loadBalancer") {
        Some(lb) => match lb.get("ingress") {
            Some(f) => match f.as_array() {
                Some(arr) => {
                    if arr.len() == 0 {
                        return "<none>".to_owned();
                    }
                    proof {
                        lemma_json_view_seq(arr@);
                    }
                    let first = &arr[0];
                    match get_str_field(first, "ip") {
                        Some(ip) => ip.clone(),
                        None => match get_str_field(first, "hostname") {
                            Some(h) => h.clone(),
                            None => "<none>".to_owned(),
                        },
                    }
                },
                None => "<none>".to_owned(),
            },
            None => "<none>".to_owned(),
        },
        None => "<none>".to_owned(),
    }
}

/// Reads one port entry.
fn port_from_json(v: &JsonValue) -> (r: Option<(i64, String)>)
    ensures
        match r {
            Some(p) => port_of(v@) == Some((p.0 as int, p.1@)) && -0x8000_0000 <= p.0
                < 0x8000_0000,
            None => port_of(v@) is None,
        },
{
    let port = match num_field_from_json(v, "port") {
        Some(p) => p,
        None => {
            return None;
        },
    };
    let proto = match opt_str_from_json(v, "protocol") {
        Some(Some(s)) => s.clone(),
        Some(None) => String::new(),
        None => {
            return None;
        },
    };
    Some((port, proto))
}

/// The ports a service's spec lists: empty where absent, nothing where
/// malformed.
fn ports_from_json(sp: &JsonValue) -> (r: Option<Vec<(i64, String)>>)
    ensures
        match r {
            Some(ps) => (match service_ports_view(sp@) {
                Some(expected) => expected == ps@.map_values(
                    |p: (i64, String)| (p.0 as int, p.1@),
                ),
                None => false,
            }) && forall|j: int|
                0 <= j < ps@.len() ==> -0x8000_0000 <= #[trigger] ps@[j].0 < 0x8000_0000,
            None => service_ports_view(sp@) is None,
        },
{
    match sp.get("ports") {
        None => {
            let ps: Vec<(i64, String)> = Vec::new();
            assert(ps@.map_values(|p: (i64, String)| (p.0 as int, p.1@)) =~= Seq::<
                (int, Seq<char>),
            >::empty());
            Some(ps)
        },
        Some(f) => match f {
            JsonValue::Null => {
                let ps: Vec<(i64, String)> = Vec::new();
                assert(ps@.map_values(|p: (i64, String)| (p.0 as int, p.1@)) =~= Seq::<
                    (int, Seq<char>),
                >::empty());
                Some(ps)
            },
            _ => match f.as_array() {
                Some(arr) => ports_list_from_json(arr),
                None => None,
            },
        },
    }
}

/// The ports piece of a service spec, as `service_spec_bits` reads it.
pub open spec fn service_ports_view(sp: JsonView) -> Option<Seq<(int, Seq<char>)>> {
    match sp.get("ports"@) {
        None => Some(Seq::<(int, Seq<char>)>::empty()),
        Some(JsonView::Null) => Some(Seq::<(int, Seq<char>)>::empty()),
        Some(JsonView::Array(a)) => parse_ports(a),
        Some(_) => None,
    }
}

fn ports_list_from_json(a: &Vec<JsonValue>) -> (r: Option<Vec<(i64, String)>>)
    ensures
        match r {
            Some(ps) => parse_ports(json_view_seq(a@)) == Some(
                ps@.map_values(|p: (i64, String)| (p.0 as int, p.1@)),
            ) && forall|j: int|
                0 <= j < ps@.len() ==> -0x8000_0000 <= #[trigger] ps@[j].0 < 0x8000_0000,
            None => parse_ports(json_view_seq(a@)) is None,
        },
{
    let ghost s = json_view_seq(a@);
    proof {
        lemma_json_view_seq(a@);
        assert(s.skip(0) =~= s);
        if parse_ports(s) is Some {
            assert(Seq::<(int, Seq<char>)>::empty() + parse_ports(s).unwrap() =~= parse_ports(
                s,
            ).unwrap());
        }
    }
    let mut ps: Vec<(i64, String)> = Vec::new();
    let mut i: usize = 0;
    assert(ps@.map_values(|p: (i64, String)| (p.0 as int, p.1@)) =~= Seq::<
        (int, Seq<char>),
    >::empty());
    while i < a.len()
        invariant
            s == json_view_seq(a@),
            s.len() == a@.len(),
            forall|j: int| 0 <= j < a@.len() ==> #[trigger] s[j] == json_view(a@[j]),
            i <= a@.len(),
            forall|j: int| 0 <= j < ps@.len() ==> -0x8000_0000 <= #[trigger] ps@[j].0 < 0x8000_0000,
            match parse_ports(s.skip(i as int)) {
                Some(rest) => parse_ports(s) == Some(
                    ps@.map_values(|p: (i64, String)| (p.0 as int, p.1@)) + rest,
                ),
                None => parse_ports(s) is None,
            },
        decreases a@.len() - i,
    {
        proof {
            assert(s.skip(i as int)[0] == s[i as int]);
            assert(s.skip(i as int).drop_first() =~= s.skip(i + 1 as int));
        }
        let p = match port_from_json(&a[i]) {
            Some(p) => p,
            None => {
                return None;
            },
        };
        proof {
            let pvf = |p: (i64, String)| (p.0 as int, p.1@);
            if parse_ports(s.skip(i + 1 as int)) is Some {
                let rest2 = parse_ports(s.skip(i + 1 as int)).unwrap();
                assert(ps@.push(p).map_values(pvf) =~= ps@.map_values(pvf).push(
                    (p.0 as int, p.1@),
                ));
                assert(ps@.map_values(pvf).push((p.0 as int, p.1@)) + rest2 =~= ps@.map_values(pvf)
                    + (seq![(p.0 as int, p.1@)] + rest2));
            }
        }
        ps.push(p);
        i += 1;
    }
    proof {
        assert(s.skip(i as int) =~= Seq::<JsonView>::empty());
        assert(ps@.map_values(|p: (i64, String)| (p.0 as int, p.1@)) + Seq::<
            (int, Seq<char>),
        >::empty() =~= ps@.map_values(|p: (i64, String)| (p.0 as int, p.1@)));
    }
    Some(ps)
}

/// The field list of an object document, as the JSON views have it.
pub open spec fn json_view_fields_of(fs: Seq<(String, JsonValue)>) -> Seq<(Seq<char>, JsonView)> {
    crate::json::json_view_fields(fs)
}

/// The selector piece of a service spec, as `service_spec_bits` reads it.
pub open spec fn service_selector_view(sp: JsonView) -> Option<Seq<(Seq<char>, Seq<char>)>> {
    match sp.get("selector"@) {
        None => Some(Seq::<(Seq<char>, Seq<char>)>::empty()),
        Some(JsonView::Null) => Some(Seq::<(Seq<char>, Seq<char>)>::empty()),
        Some(JsonView::Object(fs)) => parse_str_map(fs),
        Some(_) => None,
    }
}

/// The selector pairs a service's spec lists: empty where absent, nothing
/// where malformed.
fn selector_from_json(sp: &JsonValue) -> (r: Option<Vec<(String, String)>>)
    ensures
        match r {
            Some(sel) => (match service_selector_view(sp@) {
                Some(expected) => expected == sel@.map_values(
                    |kv: (String, String)| (kv.0@, kv.1@),
                ),
                None => false,
            }),
            None => service_selector_view(sp@) is None,
        },
{
    match sp.get("selector") {
        None => {
            let sel: Vec<(String, String)> = Vec::new();
            assert(sel@.map_values(|kv: (String, String)| (kv.0@, kv.1@)) =~= Seq::<
                (Seq<char>, Seq<char>),
            >::empty());
            Some(sel)
        },
        Some(f) => match f {
            JsonValue::Null => {
                let sel: Vec<(String, String)> = Vec::new();
                assert(sel@.map_values(|kv: (String, String)| (kv.0@, kv.1@)) =~= Seq::<
                    (Seq<char>, Seq<char>),
                >::empty());
                Some(sel)
            },
            JsonValue::Object(fs) => {
                let ghost fsv = f@->Object_0;
                proof {
                    crate::json::lemma_json_view_fields(fs@);
                    assert(fsv.skip(0) =~= fsv);
                    if parse_str_map(fsv) is Some {
                        assert(Seq::<(Seq<char>, Seq<char>)>::empty() + parse_str_map(
                            fsv,
                        ).unwrap() =~= parse_str_map(fsv).unwrap());
                    }
                }
                let mut sel: Vec<(String, String)> = Vec::new();
                let mut i: usize = 0;
                assert(sel@.map_values(|kv: (String, String)| (kv.0@, kv.1@)) =~= Seq::<
                    (Seq<char>, Seq<char>),
                >::empty());
                while i < fs.len()
                    invariant
                        sp@.get("selector"@) == Some(JsonView::Object(fsv)),
                        fsv == json_view_fields_of(fs@),
                        fsv.len() == fs@.len(),
                        forall|j: int|
                            0 <= j < fs@.len() ==> #[trigger] fsv[j] == (
                                fs@[j].0@,
                                json_view(fs@[j].1),
                            ),
                        i <= fs@.len(),
                        match parse_str_map(fsv.skip(i as int)) {
                            Some(rest) => parse_str_map(fsv) == Some(
                                sel@.map_values(|kv: (String, String)| (kv.0@, kv.1@)) + rest,
                            ),
                            None => parse_str_map(fsv) is None,
                        },
                    decreases fs@.len() - i,
                {
                    proof {
                        assert(fsv.skip(i as int)[0] == fsv[i as int]);
                        assert(fsv.skip(i as int).drop_first() =~= fsv.skip(i + 1 as int));
                    }
                    let entry = &fs[i];
                    let value = match &entry.1 {
                        JsonValue::Str(s) => s.clone(),
                        _ => {
                            return None;
                        },
                    };
                    let kv = (entry.0.clone(), value);
                    proof {
                        let kvf = |kv: (String, String)| (kv.0@, kv.1@);
                        if parse_str_map(fsv.skip(i + 1 as int)) is Some {
                            let rest2 = parse_str_map(fsv.skip(i + 1 as int)).unwrap();
                            assert(sel@.push(kv).map_values(kvf) =~= sel@.map_values(kvf).push(
                                (kv.0@, kv.1@),
                            ));
                            assert(sel@.map_values(kvf).push((kv.0@, kv.1@)) + rest2
                                =~= sel@.map_values(kvf) + (seq![(kv.0@, kv.1@)] + rest2));
                        }
                    }
                    sel.push(kv);
                    i += 1;
                }
                proof {
                    assert(fsv.skip(i as int) =~= Seq::<(Seq<char>, JsonView)>::empty());
                    assert(sel@.map_values(|kv: (String, String)| (kv.0@, kv.1@)) + Seq::<
                        (Seq<char>, Seq<char>),
                    >::empty() =~= sel@.map_values(|kv: (String, String)| (kv.0@, kv.1@)));
                }
                Some(sel)
            },
            _ => None,
        },
    }
}

/// Renders the port list the short way: number slash protocol, joined with
/// commas.
fn render_ports(ps: &Vec<(i64, String)>) -> (r: String)
    ensures
        r@ == join_comma(
            ps@.map_values(|p: (i64, String)| (p.0 as int, p.1@)).map_values(
                |p: (int, Seq<char>)| port_text(p),
            ),
        ),
{
    proof {
        reveal_strlit("/");
        assert("/"@ =~= seq!['/']);
    }
    let mut parts: Vec<String> = Vec::new();
    let mut i: usize = 0;
    while i < ps.len()
        invariant
            i <= ps@.len(),
            parts@.len() == i,
            forall|j: int|
                0 <= j < i ==> #[trigger] parts@[j]@ == port_text(
                    (ps@[j].0 as int, ps@[j].1@),
                ),
        decreases ps@.len() - i,
    {
        proof {
            reveal_strlit("/");
            assert("/"@ =~= seq!['/']);
        }
        let p = &ps[i];
        let mut text = strutil::i64_to_string(p.0);
        text.append("/");
        text.append(p.1.as_str());
        parts.push(text);
        i += 1;
    }
    let r = join_comma_exec(parts);
    assert(ps@.map_values(|p: (i64, String)| (p.0 as int, p.1@)).map_values(
        |p: (int, Seq<char>)| port_text(p),
    ) =~= parts@.map_values(|s: String| s@));
    r
}

/// Renders the selector the short way: key equals value, joined with commas.
fn render_selector(sel: &Vec<(String, String)>) -> (r: String)
    ensures
        r@ == join_comma(
            sel@.map_values(|kv: (String, String)| (kv.0@, kv.1@)).map_values(
                |kv: (Seq<char>, Seq<char>)| selector_text(kv),
            ),
        ),
{
    proof {
        reveal_strlit("=");
        assert("="@ =~= seq!['=']);
    }
    let mut parts: Vec<String> = Vec::new();
    let mut i: usize = 0;
    while i < sel.len()
        invariant
            i <= sel@.len(),
            parts@.len() == i,
            forall|j: int|
                0 <= j < i ==> #[trigger] parts@[j]@ == selector_text((sel@[j].0@, sel@[j].1@)),
        decreases sel@.len() - i,
    {
        proof {
            reveal_strlit("=");
            assert("="@ =~= seq!['=']);
        }
        let kv = &sel[i];
        let mut text = kv.0.clone();
        text.append("=");
        text.append(kv.1.as_str());
        parts.push(text);
        i += 1;
    }
    let r = join_comma_exec(parts);
    assert(sel@.map_values(|kv: (String, String)| (kv.0@, kv.1@)).map_values(
        |kv: (Seq<char>, Seq<char>)| selector_text(kv),
    ) =~= parts@.map_values(|s: String| s@));
    r
}

// ---------------------------------------------------------------------------
// A generic status summary
// ---------------------------------------------------------------------------
/// One condition of a status: its type and its value text.
#[derive(Debug)]
pub struct Condition {
    pub type_: String,
    pub status: String,
}

pub struct ConditionView {
    pub type_: Seq<char>,
    pub status: Seq<char>,
}

impl View for Condition {
    type V = ConditionView;

    open spec fn view(&self) -> ConditionView {
        ConditionView { type_: self.type_@, status: self.status@ }
    }
}

/// The readiness of one container, as a status summary counts it.
#[derive(Debug, PartialEq, Eq, Structural, Clone, Copy)]
pub struct ContainerState {
    pub ready: bool,
}

/// A generic status summary over the fields the well-known kinds share.
#[derive(Debug)]
pub struct Status {
    pub container_statuses: Option<Vec<ContainerState>>,
    pub phase: Option<String>,
    pub replicas: Option<u16>,
    pub conditions: Option<Vec<Condition>>,
    pub ready_replicas: Option<u16>,
}

pub struct StatusView {
    pub container_statuses: Option<Seq<bool>>,
    pub phase: Option<Seq<char>>,
    pub replicas: Option<u16>,
    pub conditions: Option<Seq<ConditionView>>,
    pub ready_replicas: Option<u16>,
}

impl View for Status {
    type V = StatusView;

    open spec fn view(&self) -> StatusView {
        StatusView {
            container_statuses: match self.container_statuses {
                Some(cs) => Some(cs@.map_values(|c: ContainerState| c.ready)),
                None => None,
            },
            phase: match self.phase {
                Some(p) => Some(p@),
                None => None,
            },
            replicas: self.replicas,
            conditions: match self.conditions {
                Some(cs) => Some(cs@.map_values(|c: Condition| c@)),
                None => None,
            },
            ready_replicas: self.ready_replicas,
        }
    }
}

/// How many of the containers are ready.
pub open spec fn count_ready(cs: Seq<bool>) -> int
    decreases cs.len(),
{
    if cs.len() == 0 {
        0int
    } else {
        (if cs[0] {
            1int
        } else {
            0int
        }) + count_ready(cs.drop_first())
    }
}

/// The ready column a status shows: ready containers of how many, else
/// ready replicas of how many, else nothing.
pub open spec fn ready_text_of(s: StatusView) -> Seq<char> {
    match s.container_statuses {
        Some(cs) => dec_int(count_ready(cs)) + seq!['/'] + dec_int(cs.len() as int),
        None => match (s.ready_replicas, s.replicas) {
            (Some(rr), Some(r)) => dec_int(rr as int) + seq!['/'] + dec_int(r as int),
            _ => Seq::empty(),
        },
    }
}

/// What the last condition of type `Ready` says: `Ready` when true,
/// `NotReady` when false, nothing otherwise.
pub open spec fn ready_cond_text(s: Seq<char>) -> Seq<char> {
    if s == "True"@ {
        "Ready"@
    } else if s == "False"@ {
        "NotReady"@
    } else {
        Seq::empty()
    }
}

pub open spec fn conds_status(cs: Seq<ConditionView>) -> Seq<char>
    decreases cs.len(),
{
    if cs.len() == 0 {
        Seq::empty()
    } else if cs.last().type_ == "Ready"@ {
        ready_cond_text(cs.last().status)
    } else {
        conds_status(cs.drop_last())
    }
}

/// The status column a status shows: its phase where it has one, else what
/// its conditions say.
pub open spec fn status_text_of(s: StatusView) -> Seq<char> {
    match s.phase {
        Some(p) => p,
        None => match s.conditions {
            Some(cs) => conds_status(cs),
            None => Seq::empty(),
        },
    }
}

impl Status {
    /// The ready column: ready containers out of all, else ready replicas
    /// out of all, else empty.
    pub fn get_ready(&self) -> (r: String)
        ensures
            r@ == ready_text_of(self@),
    {
        proof {
            reveal_strlit("/");
            assert("/"@ =~= seq!['/']);
        }
        if let Some(cs) = &self.container_statuses {
            let ghost cv = cs@.map_values(|c: ContainerState| c.ready);
            let mut count: u64 = 0;
            let mut i: usize = 0;
            let _len = cs.len();
            assert(cs@.len() <= u64::MAX);
            proof {
                assert(cv.skip(0) =~= cv);
            }
            while i < cs.len()
                invariant
                    cv == cs@.map_values(|c: ContainerState| c.ready),
                    cv.len() == cs@.len(),
                    forall|j: int| 0 <= j < cs@.len() ==> cv[j] == #[trigger] cs@[j].ready,
                    i <= cs@.len(),
                    cs@.len() <= u64::MAX,
                    count <= i,
                    count_ready(cv) == count + count_ready(cv.skip(i as int)),
                decreases cs@.len() - i,
            {
                proof {
                    assert(cv.skip(i as int)[0] == cv[i as int]);
                    assert(cv.skip(i as int).drop_first() =~= cv.skip(i + 1 as int));
                }
                if cs[i].ready {
                    count = count + 1;
                }
                i += 1;
            }
            proof {
                assert(cv.skip(i as int) =~= Seq::<bool>::empty());
            }
            let mut r = strutil::u64_to_string(count);
            r.append("/");
            let total = strutil::u64_to_string(cs.len() as u64);
            r.append(total.as_str());
            assert(r@ =~= ready_text_of(self@));
            return r;
        }
        if let (Some(rr), Some(rep)) = (&self.ready_replicas, &self.replicas) {
            let mut r = strutil::u64_to_string(*rr as u64);
            r.append("/");
            let total = strutil::u64_to_string(*rep as u64);
            r.append(total.as_str());
            assert(r@ =~= ready_text_of(self@));
            return r;
        }
        let r = String::new();
        assert(r@ =~= ready_text_of(self@));
        r
    }

    /// The status column: the phase where one is set, else what the last
    /// `Ready` condition says, else empty.
    pub fn get_status(&self) -> (r: String)
        ensures
            r@ == status_text_of(self@),
    {
        if let Some(p) = &self.phase {
            return p.clone();
        }
        match &self.conditions {
            Some(cs) => {
                let ghost cv = cs@.map_values(|c: Condition| c@);
                let mut status = String::new();
                let mut i: usize = 0;
                assert(status@ =~= conds_status(cv.subrange(0, 0)));
                while i < cs.len()
                    invariant
                        cv == cs@.map_values(|c: Condition| c@),
                        cv.len() == cs@.len(),
                        forall|j: int| 0 <= j < cs@.len() ==> cv[j] == #[trigger] cs@[j]@,
                        i <= cs@.len(),
                        status@ == conds_status(cv.subrange(0, i as int)),
                    decreases cs@.len() - i,
                {
                    proof {
                        assert(cv.subrange(0, i + 1 as int).drop_last() =~= cv.subrange(
                            0,
                            i as int,
                        ));
                        assert(cv.subrange(0, i + 1 as int).last() == cv[i as int]);
                    }
                    let c = &cs[i];
                    if strutil::str_eq(c.type_.as_str(), "Ready") {
                        if strutil::str_eq(c.status.as_str(), "True") {
                            status = "Ready".to_owned();
                        } else if strutil::str_eq(c.status.as_str(), "False") {
                            status = "NotReady".to_owned();
                        } else {
                            status = String::new();
                        }
                    }
                    i += 1;
                }
                proof {
                    assert(cv.subrange(0, i as int) =~= cv);
                }
                status
            },
            None => String::new(),
        }
    }

    /// The one-line summary the status prints: ready column, phase, replica
    /// count, separated by double spaces.
    pub fn display(&self) -> (r: String)
        ensures
            r@ == ready_text_of(self@) + seq![' ', ' '] + (match self@.phase {
                Some(p) => p,
                None => Seq::<char>::empty(),
            }) + seq![' ', ' '] + dec_int(
                match self@.replicas {
                    Some(n) => n as int,
                    None => 0,
                },
            ),
    {
        proof {
            reveal_strlit("  ");
            assert("  "@ =~= seq![' ', ' ']);
        }
        let mut r = self.get_ready();
        r.append("  ");
        match &self.phase {
            Some(p) => {
                r.append(p.as_str());
            },
            None => {},
        }
        r.append("  ");
        let reps: u64 = match &self.replicas {
            Some(n) => *n as u64,
            None => 0,
        };
        let reps_text = strutil::u64_to_string(reps);
        r.append(reps_text.as_str());
        assert(r@ =~= ready_text_of(self@) + seq![' ', ' '] + (match self@.phase {
            Some(p) => p,
            None => Seq::<char>::empty(),
        }) + seq![' ', ' '] + dec_int(
            match self@.replicas {
                Some(n) => n as int,
                None => 0,
            },
        ));
        r
    }
}

// ---------------------------------------------------------------------------
// From one cluster's response to its table rows
// ---------------------------------------------------------------------------
/// The row one listed object yields, shaped by the kind listed and stamped
/// with the cluster it came from.
pub open spec fn row_of(kind: Seq<char>, cluster: Seq<char>, o: JsonView, now: int)
    -> KubeOutputView {
    if kind == "Node"@ {
        KubeOutputView::Node(NodeOutputView { clustername: cluster, ..node_output_of(o, now) })
    } else if kind == "Pod"@ {
        KubeOutputView::Pod(PodOutputView { clustername: cluster, ..pod_output_of(o, now) })
    } else if kind == "Deployment"@ {
        KubeOutputView::Deployment(
            DeploymentOutputView { clustername: cluster, ..deployment_output_of(o, now) },
        )
    } else if kind == "Service"@ {
        KubeOutputView::Service(
            ServiceOutputView { clustername: cluster, ..service_output_of(o, now) },
        )
    } else {
        KubeOutputView::Default_(
            DefaultOutputView { clustername: cluster, ..default_output_of(o, now) },
        )
    }
}

/// The rows one cluster's response yields, in the origin server's order.
pub open spec fn table_of(lr: ListResponseView, now: int) -> Seq<KubeOutputView> {
    lr.object_list.map_values(|o: JsonView| row_of(lr.kind, lr.clustername, o, now))
}

/// Shapes one cluster's response into table rows: one per listed object, in
/// the order the origin server returned, each stamped with the cluster name.
pub fn convert_list_response_to_table(lr: &ListResponse, now_secs: i64) -> (r: Vec<KubeOutput>)
    ensures
        r@.map_values(|o: KubeOutput| o@) == table_of(lr@, now_secs as int),
{
    let ghost ol = json_view_seq(lr.object_list@);
    proof {
        lemma_json_view_seq(lr.object_list@);
    }
    let mut out: Vec<KubeOutput> = Vec::new();
    let mut i: usize = 0;
    while i < lr.object_list.len()
        invariant
            ol == json_view_seq(lr.object_list@),
            ol.len() == lr.object_list@.len(),
            forall|j: int|
                0 <= j < lr.object_list@.len() ==> #[trigger] ol[j] == json_view(
                    lr.object_list@[j],
                ),
            i <= lr.object_list@.len(),
            out@.len() == i,
            forall|j: int|
                0 <= j < i ==> #[trigger] out@[j]@ == row_of(
                    lr@.kind,
                    lr@.clustername,
                    ol[j],
                    now_secs as int,
                ),
        decreases lr.object_list@.len() - i,
    {
        let obj = &lr.object_list[i];
        let row: KubeOutput = if strutil::str_eq(lr.kind.as_str(), "Node") {
            let mut o = NodeOutput::from_object(obj, now_secs);
            o.clustername = lr.clustername.clone();
            KubeOutput::Node(o)
        } else if strutil::str_eq(lr.kind.as_str(), "Pod") {
            let mut o = PodOutput::from_object(obj, now_secs);
            o.clustername = lr.clustername.clone();
            KubeOutput::Pod(o)
        } else if strutil::str_eq(lr.kind.as_str(), "Deployment") {
            let mut o = DeploymentOutput::from_object(obj, now_secs);
            o.clustername = lr.clustername.clone();
            KubeOutput::Deployment(o)
        } else if strutil::str_eq(lr.kind.as_str(), "Service") {
            let mut o = ServiceOutput::from_object(obj, now_secs);
            o.clustername = lr.clustername.clone();
            KubeOutput::Service(o)
        } else {
            let mut o = DefaultOutput::from_object(obj, now_secs);
            o.clustername = lr.clustername.clone();
            KubeOutput::Default_(o)
        };
        assert(row@ == row_of(lr@.kind, lr@.clustername, ol[i as int], now_secs as int));
        out.push(row);
        i += 1;
    }
    proof {
        assert(out@.map_values(|o: KubeOutput| o@) =~= table_of(lr@, now_secs as int));
    }
    out
}

} // verus!
