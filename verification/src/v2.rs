//! The simplified document dialect: one primary resource plus a flat
//! list of included resources.
//!
//! A resource carries a type tag, a URI, an attribute map and named
//! relationship slots; a relationship slot holds one relationship object
//! or a list of them; a relationship object carries mandatory `rel` and
//! `href` plus an open extension map that is flattened onto the same wire
//! level, so extension keys must not collide with `rel`, `href` or
//! `type`.

use vstd::prelude::*;
use crate::json::{
    JsonValue,
    json_text,
    keys_distinct,
    upsert,
    str_text,
    obj_text,
    push_char,
    push_str,
    write_obj,
    write_json,
    write_escaped,
    map_upsert,
};
use vstd::seq_lib::lemma_concat_associative;

verus! {

/// Extension keys are unique and stay clear of the fixed wire members.
pub open spec fn ext_ok(s: Seq<(String, JsonValue)>) -> bool {
    keys_distinct(s) && forall|i: int|
        0 <= i < s.len() ==> (#[trigger] s[i].0@) != "rel"@ && s[i].0@ != "href"@ && s[i].0@
            != "type"@
}

/// A relationship object: mandatory `rel` and `href`, and extensions
/// flattened beside them on the wire.
#[derive(Debug)]
pub struct RelationshipObject {
    rel: String,
    href: String,
    extensions: Vec<(String, JsonValue)>,
}

impl RelationshipObject {
    #[verifier::type_invariant]
    spec fn type_inv(self) -> bool {
        ext_ok(self.extensions@)
    }

    /// The characters of `rel`.
    pub closed spec fn spec_rel(&self) -> Seq<char> {
        self.rel@
    }

    /// The characters of `href`.
    pub closed spec fn spec_href(&self) -> Seq<char> {
        self.href@
    }

    /// The extensions, in insertion order.
    pub closed spec fn spec_extensions(&self) -> Seq<(String, JsonValue)> {
        self.extensions@
    }

    /// An empty staged builder; `rel` and `href` must both be supplied,
    /// in either order, before `build` is reachable.
    pub fn builder() -> (r: RelationshipObjectBuilder<NoRel, NoHref>)
        ensures
            r.exts() == Seq::<(String, JsonValue)>::empty(),
    {
        RelationshipObjectBuilder { rel: NoRel, href: NoHref, extensions: Vec::new() }
    }
}

/// Marker: no `rel` supplied yet.
pub struct NoRel;

/// The `rel` supplied to a relationship builder.
pub struct Rel(String);

/// Marker: no `href` supplied yet.
pub struct NoHref;

/// The `href` supplied to a relationship builder.
pub struct Href(String);

/// The staged relationship-object builder. Extensions may be added in
/// any state; `build` exists only once both `rel` and `href` are
/// present.
pub struct RelationshipObjectBuilder<R, H> {
    rel: R,
    href: H,
    extensions: Vec<(String, JsonValue)>,
}

impl<R, H> RelationshipObjectBuilder<R, H> {
    #[verifier::type_invariant]
    spec fn type_inv(self) -> bool {
        ext_ok(self.extensions@)
    }

    /// The `rel` state supplied so far.
    pub closed spec fn rel_m(&self) -> R {
        self.rel
    }

    /// The `href` state supplied so far.
    pub closed spec fn href_m(&self) -> H {
        self.href
    }

    /// The extensions supplied so far.
    pub closed spec fn exts(&self) -> Seq<(String, JsonValue)> {
        self.extensions@
    }

    /// Adds or replaces an extension. The fixed wire members `rel`,
    /// `href` and `type` are not available as extension keys.
    pub fn extension(self, key: String, value: JsonValue) -> (r: RelationshipObjectBuilder<R, H>)
        requires
            key@ != "rel"@,
            key@ != "href"@,
            key@ != "type"@,
        ensures
            r.rel_m() == self.rel_m(),
            r.href_m() == self.href_m(),
            r.exts() == upsert(self.exts(), key, value),
    {
        proof {
            use_type_invariant(&self);
            crate::json::lemma_upsert_distinct(self.extensions@, key, value);
        }
        let mut extensions = self.extensions;
        map_upsert(&mut extensions, key, value);
        RelationshipObjectBuilder { rel: self.rel, href: self.href, extensions }
    }
}

impl<H> RelationshipObjectBuilder<NoRel, H> {
    /// Supplies `rel`.
    pub fn rel(self, rel: &str) -> (r: RelationshipObjectBuilder<Rel, H>)
        ensures
            r.rel_m().spec_chars() == rel@,
            r.href_m() == self.href_m(),
            r.exts() == self.exts(),
    {
        proof {
            use_type_invariant(&self);
        }
        RelationshipObjectBuilder {
            rel: Rel(rel.to_owned()),
            href: self.href,
            extensions: self.extensions,
        }
    }
}

impl<R> RelationshipObjectBuilder<R, NoHref> {
    /// Supplies `href`.
    pub fn href(self, href: &str) -> (r: RelationshipObjectBuilder<R, Href>)
        ensures
            r.rel_m() == self.rel_m(),
            r.href_m().spec_chars() == href@,
            r.exts() == self.exts(),
    {
        proof {
            use_type_invariant(&self);
        }
        RelationshipObjectBuilder {
            rel: self.rel,
            href: Href(href.to_owned()),
            extensions: self.extensions,
        }
    }
}

impl RelationshipObjectBuilder<Rel, Href> {
    /// Finishes the relationship object.
    pub fn build(self) -> (r: RelationshipObject)
        ensures
            r.spec_rel() == self.rel_m().spec_chars(),
            r.spec_href() == self.href_m().spec_chars(),
            r.spec_extensions() == self.exts(),
    {
        proof {
            use_type_invariant(&self);
        }
        RelationshipObject { rel: self.rel.0, href: self.href.0, extensions: self.extensions }
    }
}

impl Rel {
    /// The characters supplied.
    pub closed spec fn spec_chars(&self) -> Seq<char> {
        self.0@
    }
}

impl Href {
    /// The characters supplied.
    pub closed spec fn spec_chars(&self) -> Seq<char> {
        self.0@
    }
}

/// The text the extensions add after `rel` and `href`: for each, a
/// comma, the quoted escaped key, a colon and the JSON value.
pub open spec fn ext_pairs_suffix(ps: Seq<(String, JsonValue)>, i: int) -> Seq<char>
    decreases i,
{
    if i <= 0 || i > ps.len() {
        Seq::empty()
    } else {
        ext_pairs_suffix(ps, i - 1) + (seq![','] + str_text(ps[i - 1].0@) + seq![':'] + json_text(
            ps[i - 1].1,
        ))
    }
}

/// The wire text of a relationship object: `rel`, `href`, then the
/// extensions flattened onto the same level, in insertion order.
pub closed spec fn relationship_object_text(r: RelationshipObject) -> Seq<char> {
    seq!['{'] + seq!['"'] + "rel"@ + seq!['"'] + seq![':'] + str_text(r.rel@) + seq![','] + seq![
        '"',
    ] + "href"@ + seq!['"'] + seq![':'] + str_text(r.href@) + ext_pairs_suffix(
        r.extensions@,
        r.extensions@.len() as int,
    ) + seq!['}']
}

/// Appends the wire text of `r` to `out`.
pub fn write_relationship_object(r: &RelationshipObject, out: &mut String)
    ensures
        final(out)@ == old(out)@ + relationship_object_text(*r),
{
    push_char(out, '{');
    push_char(out, '"');
    push_str(out, "rel");
    push_char(out, '"');
    push_char(out, ':');
    push_char(out, '"');
    write_escaped(r.rel.as_str(), out);
    push_char(out, '"');
    push_char(out, ',');
    push_char(out, '"');
    push_str(out, "href");
    push_char(out, '"');
    push_char(out, ':');
    push_char(out, '"');
    write_escaped(r.href.as_str(), out);
    push_char(out, '"');
    let ghost a0: Seq<char> = seq!['{'] + seq!['"'] + "rel"@ + seq!['"'] + seq![':'] + str_text(
        r.rel@,
    ) + seq![','] + seq!['"'] + "href"@ + seq!['"'] + seq![':'] + str_text(r.href@);
    assert(out@ =~= old(out)@ + a0);
    let ghost entry: Seq<char> = out@;
    let n: usize = r.extensions.len();
    let mut i: usize = 0;
    while i < n
        invariant
            0 <= i <= n,
            n == r.extensions@.len(),
            out@ == entry + ext_pairs_suffix(r.extensions@, i as int),
        decreases n - i,
    {
        push_char(out, ',');
        push_char(out, '"');
        let key: &String = &r.extensions[i].0;
        write_escaped(key.as_str(), out);
        push_char(out, '"');
        push_char(out, ':');
        write_json(&r.extensions[i].1, out);
        proof {
            assert(out@ =~= entry + ext_pairs_suffix(r.extensions@, i as int + 1));
        }
        i = i + 1;
    }
    push_char(out, '}');
    let ghost suffix: Seq<char> = ext_pairs_suffix(r.extensions@, r.extensions@.len() as int);
    proof {
        lemma_concat_associative(old(out)@, a0, suffix);
    }
    assert(out@ =~= old(out)@ + relationship_object_text(*r));
}

/// A relationship slot: one relationship object or a list of them.
#[derive(Debug)]
pub struct Relationship(CoreRelationship);

#[derive(Debug)]
enum CoreRelationship {
    Single(RelationshipObject),
    Multi(Vec<RelationshipObject>),
}

impl Relationship {
    /// Whether this slot holds a single relationship object.
    pub closed spec fn is_single(&self) -> bool {
        self.0 is Single
    }

    /// The single relationship object held.
    pub closed spec fn spec_single(&self) -> RelationshipObject {
        self.0->Single_0
    }

    /// The list of relationship objects held.
    pub closed spec fn spec_multi(&self) -> Seq<RelationshipObject> {
        self.0->Multi_0@
    }

    /// The single form: one relationship object on the wire.
    pub fn from_object(value: RelationshipObject) -> (r: Relationship)
        ensures
            r.is_single(),
            r.spec_single() == value,
    {
        Relationship(CoreRelationship::Single(value))
    }

    /// The list form, in order. The list may be empty and then
    /// serializes as an empty array: choosing between the empty list and
    /// leaving the relationship out is the caller's decision.
    pub fn from_vec(vec: Vec<RelationshipObject>) -> (r: Relationship)
        ensures
            !r.is_single(),
            r.spec_multi() == vec@,
    {
        Relationship(CoreRelationship::Multi(vec))
    }
}

/// The text of the first `i` relationship objects of a list slot.
pub open spec fn relationship_items_prefix(xs: Seq<RelationshipObject>, i: int) -> Seq<char>
    decreases i,
{
    if i <= 0 || i > xs.len() {
        Seq::empty()
    } else {
        let entry = relationship_object_text(xs[i - 1]);
        if i == 1 {
            entry
        } else {
            relationship_items_prefix(xs, i - 1) + seq![','] + entry
        }
    }
}

/// The wire text of a relationship slot: the object itself, or an array
/// of objects in order.
pub closed spec fn relationship_text(r: Relationship) -> Seq<char> {
    match r.0 {
        CoreRelationship::Single(o) => relationship_object_text(o),
        CoreRelationship::Multi(xs) => seq!['['] + relationship_items_prefix(
            xs@,
            xs@.len() as int,
        ) + seq![']'],
    }
}

/// Appends the wire text of `r` to `out`.
pub fn write_relationship(r: &Relationship, out: &mut String)
    ensures
        final(out)@ == old(out)@ + relationship_text(*r),
{
    match &r.0 {
        CoreRelationship::Single(o) => {
            write_relationship_object(o, out);
        },
        CoreRelationship::Multi(xs) => {
            push_char(out, '[');
            let ghost entry: Seq<char> = out@;
            let n: usize = xs.len();
            let mut i: usize = 0;
            while i < n
                invariant
                    0 <= i <= n,
                    n == xs@.len(),
                    out@ == entry + relationship_items_prefix(xs@, i as int),
                decreases n - i,
            {
                if i > 0 {
                    push_char(out, ',');
                }
                write_relationship_object(&xs[i], out);
                proof {
                    if i == 0 {
                        assert(out@ =~= entry + relationship_items_prefix(xs@, 1));
                    } else {
                        assert(out@ =~= entry + relationship_items_prefix(xs@, i as int + 1));
                    }
                }
                i = i + 1;
            }
            push_char(out, ']');
            assert(out@ =~= old(out)@ + relationship_text(*r));
        },
    }
}

/// The attribute map of a simplified resource: keys unique, insertion
/// order kept.
#[derive(Debug)]
pub struct AttributesObject {
    entries: Vec<(String, JsonValue)>,
}

impl AttributesObject {
    /// The attributes, in insertion order.
    pub closed spec fn entries(&self) -> Seq<(String, JsonValue)> {
        self.entries@
    }

    /// Keys are unique.
    pub closed spec fn wf(&self) -> bool {
        keys_distinct(self.entries@)
    }

    /// An empty attribute map.
    pub fn new() -> (r: AttributesObject)
        ensures
            r.entries() == Seq::<(String, JsonValue)>::empty(),
            r.wf(),
    {
        AttributesObject { entries: Vec::new() }
    }

    /// Inserts an attribute, replacing the value under an existing name.
    pub fn insert(&mut self, key: String, value: JsonValue)
        requires
            old(self).wf(),
        ensures
            final(self).entries() == upsert(old(self).entries(), key, value),
            final(self).wf(),
    {
        proof {
            crate::json::lemma_upsert_distinct(self.entries@, key, value);
        }
        map_upsert(&mut self.entries, key, value);
    }

    /// Whether no attribute has been inserted.
    pub fn is_empty(&self) -> (r: bool)
        ensures
            r == (self.entries().len() == 0),
    {
        self.entries.len() == 0
    }
}

/// The relationship map of a simplified resource: keys unique, insertion
/// order kept.
#[derive(Debug)]
pub struct RelationshipsObject {
    entries: Vec<(String, Relationship)>,
}

impl RelationshipsObject {
    /// The named relationship slots, in insertion order.
    pub closed spec fn entries(&self) -> Seq<(String, Relationship)> {
        self.entries@
    }

    /// Keys are unique.
    pub closed spec fn wf(&self) -> bool {
        keys_distinct(self.entries@)
    }

    /// An empty relationship map.
    pub fn new() -> (r: RelationshipsObject)
        ensures
            r.entries() == Seq::<(String, Relationship)>::empty(),
            r.wf(),
    {
        RelationshipsObject { entries: Vec::new() }
    }

    /// Inserts a named slot, replacing the one under an existing name.
    pub fn insert(&mut self, name: String, rel: Relationship)
        requires
            old(self).wf(),
        ensures
            final(self).entries() == upsert(old(self).entries(), name, rel),
            final(self).wf(),
    {
        proof {
            crate::json::lemma_upsert_distinct(self.entries@, name, rel);
        }
        map_upsert(&mut self.entries, name, rel);
    }

    /// Whether no slot has been inserted.
    pub fn is_empty(&self) -> (r: bool)
        ensures
            r == (self.entries().len() == 0),
    {
        self.entries.len() == 0
    }
}

/// The text of the first `i` named slots of a relationship map.
pub open spec fn relationship_pairs_prefix(ps: Seq<(String, Relationship)>, i: int) -> Seq<char>
    decreases i,
{
    if i <= 0 || i > ps.len() {
        Seq::empty()
    } else {
        let entry = str_text(ps[i - 1].0@) + seq![':'] + relationship_text(ps[i - 1].1);
        if i == 1 {
            entry
        } else {
            relationship_pairs_prefix(ps, i - 1) + seq![','] + entry
        }
    }
}

/// A simplified resource: type tag, URI, attributes and named
/// relationship slots. Both maps are left off the wire when empty.
#[derive(Debug)]
pub struct Resource {
    kind: String,
    uri: String,
    attributes: AttributesObject,
    relationships: RelationshipsObject,
}

impl Resource {
    /// The characters of the type tag.
    pub closed spec fn spec_kind(&self) -> Seq<char> {
        self.kind@
    }

    /// The characters of the URI.
    pub closed spec fn spec_uri(&self) -> Seq<char> {
        self.uri@
    }

    /// The attribute map.
    pub closed spec fn spec_attributes(&self) -> AttributesObject {
        self.attributes
    }

    /// The relationship map.
    pub closed spec fn spec_relationships(&self) -> RelationshipsObject {
        self.relationships
    }

    /// The maps hold unique keys.
    pub open spec fn wf(&self) -> bool {
        self.spec_attributes().wf() && self.spec_relationships().wf()
    }

    /// An empty staged builder; the type tag and then the URI must be
    /// supplied before `build` is reachable.
    pub fn builder() -> (r: ResourceBuilder<NoKind, NoUri>)
        ensures
            r.spec_attrs().entries() == Seq::<(String, JsonValue)>::empty(),
            r.spec_rels().entries() == Seq::<(String, Relationship)>::empty(),
            r.wf(),
    {
        ResourceBuilder {
            kind: NoKind,
            uri: NoUri,
            attributes: AttributesObject::new(),
            relationships: RelationshipsObject::new(),
        }
    }
}

/// Marker: no type tag supplied yet.
pub struct NoKind;

/// The type tag supplied to a resource builder.
pub struct Kind(String);

/// Marker: no URI supplied yet.
pub struct NoUri;

/// The URI supplied to a resource builder.
pub struct Uri(String);

impl Kind {
    /// The characters supplied.
    pub closed spec fn spec_chars(&self) -> Seq<char> {
        self.0@
    }
}

impl Uri {
    /// The characters supplied.
    pub closed spec fn spec_chars(&self) -> Seq<char> {
        self.0@
    }
}

/// The staged resource builder. Attributes and relationships may be
/// added in any state and any number of times; the type tag comes before
/// the URI, and `build` exists only once both are present.
pub struct ResourceBuilder<T, U> {
    kind: T,
    uri: U,
    attributes: AttributesObject,
    relationships: RelationshipsObject,
}

impl<T, U> ResourceBuilder<T, U> {
    /// The type-tag state supplied so far.
    pub closed spec fn kind_m(&self) -> T {
        self.kind
    }

    /// The URI state supplied so far.
    pub closed spec fn uri_m(&self) -> U {
        self.uri
    }

    /// The attributes supplied so far.
    pub closed spec fn spec_attrs(&self) -> AttributesObject {
        self.attributes
    }

    /// The relationships supplied so far.
    pub closed spec fn spec_rels(&self) -> RelationshipsObject {
        self.relationships
    }

    /// The maps hold unique keys.
    pub open spec fn wf(&self) -> bool {
        self.spec_attrs().wf() && self.spec_rels().wf()
    }

    /// Adds or replaces an attribute; chainable in any state.
    pub fn attribute(self, key: String, value: JsonValue) -> (r: ResourceBuilder<T, U>)
        requires
            self.wf(),
        ensures
            r.kind_m() == self.kind_m(),
            r.uri_m() == self.uri_m(),
            r.spec_attrs().entries() == upsert(self.spec_attrs().entries(), key, value),
            r.spec_rels() == self.spec_rels(),
            r.wf(),
    {
        let mut attributes = self.attributes;
        attributes.insert(key, value);
        ResourceBuilder { kind: self.kind, uri: self.uri, attributes, relationships: self.relationships }
    }

    /// Adds or replaces a named relationship slot; chainable in any
    /// state.
    pub fn relationship(self, key: String, value: Relationship) -> (r: ResourceBuilder<T, U>)
        requires
            self.wf(),
        ensures
            r.kind_m() == self.kind_m(),
            r.uri_m() == self.uri_m(),
            r.spec_attrs() == self.spec_attrs(),
            r.spec_rels().entries() == upsert(self.spec_rels().entries(), key, value),
            r.wf(),
    {
        let mut relationships = self.relationships;
        relationships.insert(key, value);
        ResourceBuilder { kind: self.kind, uri: self.uri, attributes: self.attributes, relationships }
    }
}

impl ResourceBuilder<NoKind, NoUri> {
    /// Supplies the type tag.
    pub fn kind(self, kind: &str) -> (r: ResourceBuilder<Kind, NoUri>)
        ensures
            r.kind_m().spec_chars() == kind@,
            r.spec_attrs() == self.spec_attrs(),
            r.spec_rels() == self.spec_rels(),
    {
        ResourceBuilder {
            kind: Kind(kind.to_owned()),
            uri: self.uri,
            attributes: self.attributes,
            relationships: self.relationships,
        }
    }
}

impl ResourceBuilder<Kind, NoUri> {
    /// Supplies the URI, making `build` reachable.
    pub fn uri(self, uri: &str) -> (r: ResourceBuilder<Kind, Uri>)
        ensures
            r.kind_m() == self.kind_m(),
            r.uri_m().spec_chars() == uri@,
            r.spec_attrs() == self.spec_attrs(),
            r.spec_rels() == self.spec_rels(),
    {
        ResourceBuilder {
            kind: self.kind,
            uri: Uri(uri.to_owned()),
            attributes: self.attributes,
            relationships: self.relationships,
        }
    }
}

impl ResourceBuilder<Kind, Uri> {
    /// Finishes the resource.
    pub fn build(self) -> (r: Resource)
        ensures
            r.spec_kind() == self.kind_m().spec_chars(),
            r.spec_uri() == self.uri_m().spec_chars(),
            r.spec_attributes() == self.spec_attrs(),
            r.spec_relationships() == self.spec_rels(),
    {
        Resource {
            kind: self.kind.0,
            uri: self.uri.0,
            attributes: self.attributes,
            relationships: self.relationships,
        }
    }
}

/// The wire text of a simplified resource: type and URI always; the
/// `attributes` and `relationships` members only when their maps are
/// populated.
pub closed spec fn resource_text(r: Resource) -> Seq<char> {
    seq!['{'] + seq!['"'] + "type"@ + seq!['"'] + seq![':'] + str_text(r.kind@) + seq![','] + seq![
        '"',
    ] + "uri"@ + seq!['"'] + seq![':'] + str_text(r.uri@) + (if r.attributes.entries().len() == 0 {
        Seq::<char>::empty()
    } else {
        seq![','] + seq!['"'] + "attributes"@ + seq!['"'] + seq![':'] + obj_text_of(r.attributes)
    }) + (if r.relationships.entries().len() == 0 {
        Seq::<char>::empty()
    } else {
        seq![','] + seq!['"'] + "relationships"@ + seq!['"'] + seq![':'] + relationships_text_of(
            r.relationships,
        )
    }) + seq!['}']
}

/// The wire text of a simplified attribute map.
pub closed spec fn obj_text_of(a: AttributesObject) -> Seq<char> {
    obj_text(a.entries)
}

/// The wire text of a simplified relationship map.
pub closed spec fn relationships_text_of(rs: RelationshipsObject) -> Seq<char> {
    seq!['{'] + relationship_pairs_prefix(rs.entries(), rs.entries().len() as int) + seq!['}']
}

/// Appends the wire text of a relationship map to `out`.
pub fn write_relationships_object(rs: &RelationshipsObject, out: &mut String)
    ensures
        final(out)@ == old(out)@ + relationships_text_of(*rs),
{
    push_char(out, '{');
    let ghost entry: Seq<char> = out@;
    let n: usize = rs.entries.len();
    let mut i: usize = 0;
    while i < n
        invariant
            0 <= i <= n,
            n == rs.entries@.len(),
            out@ == entry + relationship_pairs_prefix(rs.entries@, i as int),
        decreases n - i,
    {
        if i > 0 {
            push_char(out, ',');
        }
        push_char(out, '"');
        let key: &String = &rs.entries[i].0;
        write_escaped(key.as_str(), out);
        push_char(out, '"');
        push_char(out, ':');
        write_relationship(&rs.entries[i].1, out);
        proof {
            if i == 0 {
                assert(out@ =~= entry + relationship_pairs_prefix(rs.entries@, 1));
            } else {
                assert(out@ =~= entry + relationship_pairs_prefix(rs.entries@, i as int + 1));
            }
        }
        i = i + 1;
    }
    push_char(out, '}');
    assert(out@ =~= old(out)@ + relationships_text_of(*rs));
}

/// Appends the wire text of `r` to `out`.
#[verifier::rlimit(100)]
pub fn write_resource(r: &Resource, out: &mut String)
    ensures
        final(out)@ == old(out)@ + resource_text(*r),
{
    push_char(out, '{');
    push_char(out, '"');
    push_str(out, "type");
    push_char(out, '"');
    push_char(out, ':');
    push_char(out, '"');
    write_escaped(r.kind.as_str(), out);
    push_char(out, '"');
    push_char(out, ',');
    push_char(out, '"');
    push_str(out, "uri");
    push_char(out, '"');
    push_char(out, ':');
    push_char(out, '"');
    write_escaped(r.uri.as_str(), out);
    push_char(out, '"');
    let ghost a0: Seq<char> = seq!['{'] + seq!['"'] + "type"@ + seq!['"'] + seq![':'] + str_text(
        r.kind@,
    ) + seq![','] + seq!['"'] + "uri"@ + seq!['"'] + seq![':'] + str_text(r.uri@);
    assert(out@ =~= old(out)@ + a0);
    let ghost before_attrs: Seq<char> = out@;
    if !r.attributes.is_empty() {
        push_char(out, ',');
        push_char(out, '"');
        push_str(out, "attributes");
        push_char(out, '"');
        push_char(out, ':');
        write_obj(&r.attributes.entries, out);
        assert(out@ =~= before_attrs + (seq![','] + seq!['"'] + "attributes"@ + seq!['"'] + seq![
            ':',
        ] + obj_text_of(r.attributes)));
    }
    let ghost attrs_part: Seq<char> = if r.attributes.entries().len() == 0 {
        Seq::<char>::empty()
    } else {
        seq![','] + seq!['"'] + "attributes"@ + seq!['"'] + seq![':'] + obj_text_of(r.attributes)
    };
    let ghost a1: Seq<char> = a0 + attrs_part;
    proof {
        lemma_concat_associative(old(out)@, a0, attrs_part);
        if r.attributes.entries().len() == 0 {
            assert(a1 =~= a0);
        }
    }
    assert(out@ == old(out)@ + a1);
    let ghost before_rels: Seq<char> = out@;
    if !r.relationships.is_empty() {
        push_char(out, ',');
        push_char(out, '"');
        push_str(out, "relationships");
        push_char(out, '"');
        push_char(out, ':');
        write_relationships_object(&r.relationships, out);
        assert(out@ =~= before_rels + (seq![','] + seq!['"'] + "relationships"@ + seq!['"'] + seq![
            ':',
        ] + relationships_text_of(r.relationships)));
    }
    let ghost rels_part: Seq<char> = if r.relationships.entries().len() == 0 {
        Seq::<char>::empty()
    } else {
        seq![','] + seq!['"'] + "relationships"@ + seq!['"'] + seq![':'] + relationships_text_of(
            r.relationships,
        )
    };
    let ghost a2: Seq<char> = a1 + rels_part;
    proof {
        lemma_concat_associative(old(out)@, a1, rels_part);
        if r.relationships.entries().len() == 0 {
            assert(a2 =~= a1);
        }
    }
    assert(out@ == old(out)@ + a2);
    push_char(out, '}');
    let ghost a3: Seq<char> = a2 + seq!['}'];
    proof {
        lemma_concat_associative(old(out)@, a2, seq!['}']);
    }
    assert(out@ == old(out)@ + a3);
    assert(a3 =~= resource_text(*r));
}

/// A simplified document: one primary resource and an optional flat list
/// of included resources, kept in insertion order.
#[derive(Debug)]
pub struct Document {
    data: Resource,
    includes: Option<Vec<Resource>>,
}

/// Marker: no primary resource supplied yet.
pub struct NoResource;

/// The staged document builder. The primary resource must be supplied
/// before includes can accumulate and before `build` is reachable.
pub struct DocumentBuilder<D> {
    data: D,
    includes: Option<Vec<Resource>>,
}

impl Document {
    /// The primary resource.
    pub closed spec fn spec_data(&self) -> Resource {
        self.data
    }

    /// The included resources, in insertion order, when any were added.
    pub closed spec fn spec_includes(&self) -> Option<Seq<Resource>> {
        match self.includes {
            Option::Some(v) => Option::Some(v@),
            Option::None => Option::None,
        }
    }

    /// An empty staged builder; the primary resource must be supplied
    /// before `build` is reachable.
    pub fn builder() -> (r: DocumentBuilder<NoResource>)
        ensures
            r.spec_includes() is None,
    {
        DocumentBuilder { data: NoResource, includes: Option::None }
    }
}

impl<D> DocumentBuilder<D> {
    /// The includes accumulated so far.
    pub closed spec fn spec_includes(&self) -> Option<Seq<Resource>> {
        match self.includes {
            Option::Some(v) => Option::Some(v@),
            Option::None => Option::None,
        }
    }
}

impl DocumentBuilder<NoResource> {
    /// Supplies the primary resource.
    pub fn data(self, resource: Resource) -> (r: DocumentBuilder<Resource>)
        ensures
            r.data_val() == resource,
            r.spec_includes() == self.spec_includes(),
    {
        DocumentBuilder { data: resource, includes: self.includes }
    }
}

impl DocumentBuilder<Resource> {
    /// The primary resource supplied.
    pub closed spec fn data_val(&self) -> Resource {
        self.data
    }

    /// Appends one included resource.
    pub fn includes(self, resource: Resource) -> (r: DocumentBuilder<Resource>)
        ensures
            r.data_val() == self.data_val(),
            r.spec_includes() == (match self.spec_includes() {
                Option::Some(s) => Option::Some(s.push(resource)),
                Option::None => Option::Some(seq![resource]),
            }),
    {
        let mut v: Vec<Resource> = match self.includes {
            Option::Some(v) => v,
            Option::None => Vec::new(),
        };
        v.push(resource);
        DocumentBuilder { data: self.data, includes: Option::Some(v) }
    }

    /// Appends all the given resources, in order.
    pub fn includes_all(self, resources: Vec<Resource>) -> (r: DocumentBuilder<Resource>)
        ensures
            r.data_val() == self.data_val(),
            r.spec_includes() == (match self.spec_includes() {
                Option::Some(s) => Option::Some(s + resources@),
                Option::None => Option::Some(resources@),
            }),
    {
        let mut v: Vec<Resource> = match self.includes {
            Option::Some(v) => v,
            Option::None => Vec::new(),
        };
        let mut resources = resources;
        v.append(&mut resources);
        DocumentBuilder { data: self.data, includes: Option::Some(v) }
    }

    /// Finishes the document.
    pub fn build(self) -> (r: Document)
        ensures
            r.spec_data() == self.data_val(),
            r.spec_includes() == self.spec_includes(),
    {
        Document { data: self.data, includes: self.includes }
    }
}

/// The text of the first `i` included resources.
pub open spec fn included_items_prefix(xs: Seq<Resource>, i: int) -> Seq<char>
    decreases i,
{
    if i <= 0 || i > xs.len() {
        Seq::empty()
    } else {
        let entry = resource_text(xs[i - 1]);
        if i == 1 {
            entry
        } else {
            included_items_prefix(xs, i - 1) + seq![','] + entry
        }
    }
}

/// The wire text of a simplified document: the primary resource under
/// `data`, and an `included` array, in insertion order, only when
/// includes were added.
pub closed spec fn document_text(d: Document) -> Seq<char> {
    seq!['{'] + seq!['"'] + "data"@ + seq!['"'] + seq![':'] + resource_text(d.data) + (match d.includes {
        Option::Some(v) => seq![','] + seq!['"'] + "included"@ + seq!['"'] + seq![':'] + seq!['[']
            + included_items_prefix(v@, v@.len() as int) + seq![']'],
        Option::None => Seq::<char>::empty(),
    }) + seq!['}']
}

/// A document with included resources serializes them as an array in
/// insertion order under `included`; without any, the member is absent.
pub proof fn lemma_included_in_insertion_order(d: Document)
    ensures
        d.spec_includes() is Some ==> document_text(d) == seq!['{'] + seq!['"'] + "data"@ + seq![
            '"',
        ] + seq![':'] + resource_text(d.spec_data()) + (seq![','] + seq!['"'] + "included"@ + seq![
            '"',
        ] + seq![':'] + seq!['['] + included_items_prefix(
            d.spec_includes()->0,
            d.spec_includes()->0.len() as int,
        ) + seq![']']) + seq!['}'],
        d.spec_includes() is None ==> document_text(d) == seq!['{'] + seq!['"'] + "data"@ + seq![
            '"',
        ] + seq![':'] + resource_text(d.spec_data()) + seq!['}'],
{
    let a = seq!['{'] + seq!['"'] + "data"@ + seq!['"'] + seq![':'] + resource_text(d.spec_data());
    if d.spec_includes() is None {
        Seq::<char>::add_empty_right(a, Seq::<char>::empty());
    }
}

/// Appends the wire text of `d` to `out`.
#[verifier::rlimit(100)]
pub fn write_document(d: &Document, out: &mut String)
    ensures
        final(out)@ == old(out)@ + document_text(*d),
{
    push_char(out, '{');
    push_char(out, '"');
    push_str(out, "data");
    push_char(out, '"');
    push_char(out, ':');
    write_resource(&d.data, out);
    let ghost a0: Seq<char> = seq!['{'] + seq!['"'] + "data"@ + seq!['"'] + seq![':']
        + resource_text(d.data);
    assert(out@ =~= old(out)@ + a0);
    let ghost before_inc: Seq<char> = out@;
    if let Option::Some(v) = &d.includes {
        push_char(out, ',');
        push_char(out, '"');
        push_str(out, "included");
        push_char(out, '"');
        push_char(out, ':');
        push_char(out, '[');
        let ghost entry: Seq<char> = out@;
        let n: usize = v.len();
        let mut i: usize = 0;
        while i < n
            invariant
                0 <= i <= n,
                n == v@.len(),
                out@ == entry + included_items_prefix(v@, i as int),
            decreases n - i,
        {
            if i > 0 {
                push_char(out, ',');
            }
            write_resource(&v[i], out);
            proof {
                if i == 0 {
                    assert(out@ =~= entry + included_items_prefix(v@, 1));
                } else {
                    assert(out@ =~= entry + included_items_prefix(v@, i as int + 1));
                }
            }
            i = i + 1;
        }
        push_char(out, ']');
        assert(out@ =~= before_inc + (seq![','] + seq!['"'] + "included"@ + seq!['"'] + seq![':']
            + seq!['['] + included_items_prefix(v@, v@.len() as int) + seq![']']));
    }
    let ghost inc_part: Seq<char> = match &d.includes {
        Option::Some(v) => seq![','] + seq!['"'] + "included"@ + seq!['"'] + seq![':'] + seq!['[']
            + included_items_prefix(v@, v@.len() as int) + seq![']'],
        Option::None => Seq::<char>::empty(),
    };
    let ghost a1: Seq<char> = a0 + inc_part;
    proof {
        lemma_concat_associative(old(out)@, a0, inc_part);
        if d.includes is None {
            assert(a1 =~= a0);
        }
    }
    assert(out@ == old(out)@ + a1);
    push_char(out, '}');
    let ghost a2: Seq<char> = a1 + seq!['}'];
    proof {
        lemma_concat_associative(old(out)@, a1, seq!['}']);
    }
    assert(out@ == old(out)@ + a2);
    assert(a2 =~= document_text(*d));
}

impl Document {
    /// The document's exact wire text. The result is a pure function of
    /// the document: encoding the same document again yields the same
    /// text, character for character.
    pub fn to_json_text(&self) -> (r: String)
        ensures
            r@ == document_text(*self),
    {
        let mut out = String::new();
        write_document(self, &mut out);
        out
    }
}

/// A problem-details payload: a type tag alone.
#[derive(Debug)]
pub struct ProblemDetails {
    kind: String,
}

impl ProblemDetails {
    /// The characters of the type tag.
    pub closed spec fn spec_kind(&self) -> Seq<char> {
        self.kind@
    }

    /// A payload with the given type tag.
    pub fn new(kind: &str) -> (r: ProblemDetails)
        ensures
            r.spec_kind() == kind@,
    {
        ProblemDetails { kind: kind.to_owned() }
    }

    /// The payload's exact wire text: an object with the `type` member.
    pub fn to_json_text(&self) -> (r: String)
        ensures
            r@ == seq!['{'] + seq!['"'] + "type"@ + seq!['"'] + seq![':'] + str_text(
                self.spec_kind(),
            ) + seq!['}'],
    {
        let mut out = String::new();
        push_char(&mut out, '{');
        push_char(&mut out, '"');
        push_str(&mut out, "type");
        push_char(&mut out, '"');
        push_char(&mut out, ':');
        push_char(&mut out, '"');
        write_escaped(self.kind.as_str(), &mut out);
        push_char(&mut out, '"');
        push_char(&mut out, '}');
        assert(out@ =~= seq!['{'] + seq!['"'] + "type"@ + seq!['"'] + seq![':'] + str_text(
            self.kind@,
        ) + seq!['}']);
        out
    }
}

} // verus!
