//! The library's model of a watched cluster object: the metadata fields the
//! projections read, plus the spec and status sections as named JSON
//! fragments. Projection (`trim`) keeps, for each resource kind, exactly the
//! fields the downstream consumer needs and drops everything else.

use vstd::prelude::*;
use vstd::utf8::encode_utf8;

use crate::codec::{
    build_object, json_string_bytes, member_bytes, object_bytes, push_json_string, push_str_bytes,
};

verus! {

// ---------------------------------------------------------------------------
// Data model and views
// ---------------------------------------------------------------------------

/// One named section field; `value` holds the field's JSON text.
pub struct JsonField {
    pub name: String,
    pub value: String,
}

#[verifier::ext_equal]
pub ghost struct FieldView {
    pub name: Seq<char>,
    pub value: Seq<char>,
}

impl View for JsonField {
    type V = FieldView;

    open spec fn view(&self) -> FieldView {
        FieldView { name: self.name@, value: self.value@ }
    }
}

/// Object metadata. Plain string fields are encoded as JSON strings;
/// the other fields hold the JSON text of the corresponding value.
pub struct ObjectMeta {
    pub uid: Option<String>,
    pub name: Option<String>,
    pub namespace: Option<String>,
    pub labels: Option<String>,
    pub annotations: Option<String>,
    pub owner_references: Option<String>,
    pub creation_timestamp: Option<String>,
    pub resource_version: Option<String>,
    pub managed_fields: Option<String>,
}

#[verifier::ext_equal]
pub ghost struct MetaView {
    pub uid: Option<Seq<char>>,
    pub name: Option<Seq<char>>,
    pub namespace: Option<Seq<char>>,
    pub labels: Option<Seq<char>>,
    pub annotations: Option<Seq<char>>,
    pub owner_references: Option<Seq<char>>,
    pub creation_timestamp: Option<Seq<char>>,
    pub resource_version: Option<Seq<char>>,
    pub managed_fields: Option<Seq<char>>,
}

pub open spec fn opt_view(v: Option<String>) -> Option<Seq<char>> {
    match v {
        Some(s) => Some(s@),
        None => None,
    }
}

impl View for ObjectMeta {
    type V = MetaView;

    open spec fn view(&self) -> MetaView {
        MetaView {
            uid: opt_view(self.uid),
            name: opt_view(self.name),
            namespace: opt_view(self.namespace),
            labels: opt_view(self.labels),
            annotations: opt_view(self.annotations),
            owner_references: opt_view(self.owner_references),
            creation_timestamp: opt_view(self.creation_timestamp),
            resource_version: opt_view(self.resource_version),
            managed_fields: opt_view(self.managed_fields),
        }
    }
}

/// A watched object: metadata plus optional spec and status sections.
pub struct KubeObject {
    pub metadata: ObjectMeta,
    pub spec: Option<Vec<JsonField>>,
    pub status: Option<Vec<JsonField>>,
}

#[verifier::ext_equal]
pub ghost struct ObjView {
    pub metadata: MetaView,
    pub spec: Option<Seq<FieldView>>,
    pub status: Option<Seq<FieldView>>,
}

pub open spec fn fields_view(fs: Seq<JsonField>) -> Seq<FieldView> {
    fs.map_values(|f: JsonField| f@)
}

pub open spec fn section_view(v: Option<Vec<JsonField>>) -> Option<Seq<FieldView>> {
    match v {
        Some(fs) => Some(fields_view(fs@)),
        None => None,
    }
}

impl View for KubeObject {
    type V = ObjView;

    open spec fn view(&self) -> ObjView {
        ObjView {
            metadata: self.metadata@,
            spec: section_view(self.spec),
            status: section_view(self.status),
        }
    }
}

/// The closed set of resource kinds the watcher fleet supports.
#[derive(Clone, Copy, PartialEq, Eq, Structural, Debug)]
pub enum ResourceKind {
    Node,
    Namespace,
    Service,
    Deployment,
    Pod,
    StatefulSet,
    DaemonSet,
    ReplicationController,
    ReplicaSet,
    V1Ingress,
    V1beta1Ingress,
    ExtV1beta1Ingress,
    Route,
}

// ---------------------------------------------------------------------------
// JSON encoding of an object
// ---------------------------------------------------------------------------

pub open spec fn opt_str_member(name: Seq<char>, v: Option<Seq<char>>) -> Seq<Seq<u8>> {
    match v {
        Some(s) => seq![member_bytes(name, json_string_bytes(s))],
        None => Seq::empty(),
    }
}

pub open spec fn opt_frag_member(name: Seq<char>, v: Option<Seq<char>>) -> Seq<Seq<u8>> {
    match v {
        Some(s) => seq![member_bytes(name, encode_utf8(s))],
        None => Seq::empty(),
    }
}

/// Metadata members, in a fixed alphabetical order; absent fields are
/// omitted entirely.
pub open spec fn meta_members(m: MetaView) -> Seq<Seq<u8>> {
    opt_frag_member("annotations"@, m.annotations) + opt_str_member(
        "creationTimestamp"@,
        m.creation_timestamp,
    ) + opt_frag_member("labels"@, m.labels) + opt_frag_member("managedFields"@, m.managed_fields)
        + opt_str_member("name"@, m.name) + opt_str_member("namespace"@, m.namespace)
        + opt_frag_member("ownerReferences"@, m.owner_references) + opt_str_member(
        "resourceVersion"@,
        m.resource_version,
    ) + opt_str_member("uid"@, m.uid)
}

pub open spec fn meta_json(m: MetaView) -> Seq<u8> {
    object_bytes(meta_members(m))
}

pub open spec fn field_member(f: FieldView) -> Seq<u8> {
    member_bytes(f.name, encode_utf8(f.value))
}

pub open spec fn section_json(fs: Seq<FieldView>) -> Seq<u8> {
    object_bytes(fs.map_values(|f: FieldView| field_member(f)))
}

pub open spec fn top_members(o: ObjView) -> Seq<Seq<u8>> {
    seq![member_bytes("metadata"@, meta_json(o.metadata))] + (match o.spec {
        Some(fs) => seq![member_bytes("spec"@, section_json(fs))],
        None => Seq::empty(),
    }) + (match o.status {
        Some(fs) => seq![member_bytes("status"@, section_json(fs))],
        None => Seq::empty(),
    })
}

/// The JSON document for an object: metadata always present, spec and
/// status present only when the object carries them.
pub open spec fn json_of(o: ObjView) -> Seq<u8> {
    object_bytes(top_members(o))
}

/// Builds the bytes of one member whose value is a JSON string.
fn make_str_member(name: &str, v: &String) -> (r: Vec<u8>)
    ensures
        r@ == member_bytes(name@, json_string_bytes(v@)),
{
    let mut mv: Vec<u8> = Vec::new();
    push_json_string(&mut mv, name);
    mv.push(0x3a);
    push_json_string(&mut mv, v.as_str());
    assert(mv@ =~= member_bytes(name@, json_string_bytes(v@)));
    mv
}

/// Builds the bytes of one member whose value is raw JSON text.
fn make_frag_member(name: &str, v: &String) -> (r: Vec<u8>)
    ensures
        r@ == member_bytes(name@, encode_utf8(v@)),
{
    let mut mv: Vec<u8> = Vec::new();
    push_json_string(&mut mv, name);
    mv.push(0x3a);
    push_str_bytes(&mut mv, v.as_str());
    assert(mv@ =~= member_bytes(name@, encode_utf8(v@)));
    mv
}

/// Builds the bytes of one member whose value is already encoded.
fn make_raw_member(name: &str, value: Vec<u8>) -> (r: Vec<u8>)
    ensures
        r@ == member_bytes(name@, value@),
{
    let mut mv: Vec<u8> = Vec::new();
    push_json_string(&mut mv, name);
    mv.push(0x3a);
    let n: usize = value.len();
    for i in 0..n
        invariant
            n == value@.len(),
            mv@ == json_string_bytes(name@) + seq![0x3au8] + value@.take(i as int),
    {
        mv.push(value[i]);
        assert(mv@ =~= json_string_bytes(name@) + seq![0x3au8] + value@.take(i + 1));
    }
    assert(value@.take(n as int) =~= value@);
    mv
}

fn push_opt_str_member(members: &mut Vec<Vec<u8>>, name: &str, v: &Option<String>)
    ensures
        final(members)@.map_values(|m: Vec<u8>| m@) == old(members)@.map_values(|m: Vec<u8>| m@)
            + opt_str_member(name@, opt_view(*v)),
{
    match v {
        Some(s) => {
            let mv = make_str_member(name, s);
            members.push(mv);
            assert(members@.map_values(|m: Vec<u8>| m@) =~= old(members)@.map_values(
                |m: Vec<u8>| m@,
            ) + opt_str_member(name@, opt_view(*v)));
        },
        None => {
            assert(members@.map_values(|m: Vec<u8>| m@) =~= old(members)@.map_values(
                |m: Vec<u8>| m@,
            ) + opt_str_member(name@, opt_view(*v)));
        },
    }
}

fn push_opt_frag_member(members: &mut Vec<Vec<u8>>, name: &str, v: &Option<String>)
    ensures
        final(members)@.map_values(|m: Vec<u8>| m@) == old(members)@.map_values(|m: Vec<u8>| m@)
            + opt_frag_member(name@, opt_view(*v)),
{
    match v {
        Some(s) => {
            let mv = make_frag_member(name, s);
            members.push(mv);
            assert(members@.map_values(|m: Vec<u8>| m@) =~= old(members)@.map_values(
                |m: Vec<u8>| m@,
            ) + opt_frag_member(name@, opt_view(*v)));
        },
        None => {
            assert(members@.map_values(|m: Vec<u8>| m@) =~= old(members)@.map_values(
                |m: Vec<u8>| m@,
            ) + opt_frag_member(name@, opt_view(*v)));
        },
    }
}

/// Encodes the metadata section.
fn encode_meta(m: &ObjectMeta) -> (r: Vec<u8>)
    ensures
        r@ == meta_json(m@),
{
    let mut members: Vec<Vec<u8>> = Vec::new();
    push_opt_frag_member(&mut members, "annotations", &m.annotations);
    push_opt_str_member(&mut members, "creationTimestamp", &m.creation_timestamp);
    push_opt_frag_member(&mut members, "labels", &m.labels);
    push_opt_frag_member(&mut members, "managedFields", &m.managed_fields);
    push_opt_str_member(&mut members, "name", &m.name);
    push_opt_str_member(&mut members, "namespace", &m.namespace);
    push_opt_frag_member(&mut members, "ownerReferences", &m.owner_references);
    push_opt_str_member(&mut members, "resourceVersion", &m.resource_version);
    push_opt_str_member(&mut members, "uid", &m.uid);
    assert(members@.map_values(|mm: Vec<u8>| mm@) =~= meta_members(m@));
    build_object(&members)
}

/// Encodes a spec or status section.
fn encode_section(fs: &Vec<JsonField>) -> (r: Vec<u8>)
    ensures
        r@ == section_json(fields_view(fs@)),
{
    let mut members: Vec<Vec<u8>> = Vec::new();
    let n: usize = fs.len();
    for i in 0..n
        invariant
            n == fs@.len(),
            members@.map_values(|m: Vec<u8>| m@) == fields_view(fs@).take(i as int).map_values(
                |f: FieldView| field_member(f),
            ),
    {
        let mv = make_frag_member(fs[i].name.as_str(), &fs[i].value);
        proof {
            assert(fields_view(fs@)[i as int] == fs@[i as int]@);
            assert(mv@ == field_member(fields_view(fs@)[i as int]));
        }
        members.push(mv);
        proof {
            let f = |fv: FieldView| field_member(fv);
            let fv = fields_view(fs@);
            assert(fv.take(i + 1) =~= fv.take(i as int).push(fv[i as int]));
            assert(fv.take(i as int).push(fv[i as int]).map_values(f) =~= fv.take(
                i as int,
            ).map_values(f).push(f(fv[i as int])));
            assert(members@.map_values(|m: Vec<u8>| m@) =~= fv.take(i + 1).map_values(f));
        }
    }
    assert(fields_view(fs@).take(n as int) =~= fields_view(fs@));
    build_object(&members)
}

/// Encodes a whole object to its JSON document bytes.
pub fn encode_object(o: &KubeObject) -> (r: Vec<u8>)
    ensures
        r@ == json_of(o@),
{
    let mut members: Vec<Vec<u8>> = Vec::new();
    let meta = encode_meta(&o.metadata);
    let mv = make_raw_member("metadata", meta);
    members.push(mv);
    match &o.spec {
        Some(fs) => {
            let sec = encode_section(fs);
            let sv = make_raw_member("spec", sec);
            members.push(sv);
        },
        None => {},
    }
    match &o.status {
        Some(fs) => {
            let sec = encode_section(fs);
            let sv = make_raw_member("status", sec);
            members.push(sv);
        },
        None => {},
    }
    assert(members@.map_values(|m: Vec<u8>| m@) =~= top_members(o@));
    build_object(&members)
}

} // verus!
