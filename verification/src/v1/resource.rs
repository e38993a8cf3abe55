//! Resources of the full dialect.
//!
//! A resource object carries a type tag, an id, an attribute map, a named
//! relationship map and a named link map. A resource identifier is the
//! lightweight reference: type and id alone, both non-empty. A
//! relationship object carries optional `links` and an optional resource
//! linkage, at least one of which is always present: its staged builder
//! reaches `build` from either path and from nowhere else.

use vstd::prelude::*;
use crate::json::{
    JsonValue,
    obj_text,
    keys_distinct,
    upsert,
    str_text,
    push_char,
    push_str,
    write_obj,
    map_upsert,
};
use crate::v1::links::{
    LinksObject,
    links_object_text,
    write_links_object,
    links_object_from_json,
    is_links_object_json,
};
use crate::json::{json_text, pairs_prefix, key_is, lemma_esc_identity};
use vstd::seq_lib::lemma_concat_associative;

verus! {

/// The attribute map of a resource: field name to JSON value, keys
/// unique, insertion order kept.
#[derive(Debug)]
pub struct AttributesObject {
    entries: Vec<(String, JsonValue)>,
}

impl AttributesObject {
    /// The attributes, in insertion order.
    pub closed spec fn entries(&self) -> Seq<(String, JsonValue)> {
        self.entries@
    }

    /// Keys are unique.
    pub closed spec fn wf(&self) -> bool {
        keys_distinct(self.entries@)
    }

    /// An empty attribute map.
    pub fn new() -> (r: AttributesObject)
        ensures
            r.entries() == Seq::<(String, JsonValue)>::empty(),
            r.wf(),
    {
        AttributesObject { entries: Vec::new() }
    }

    /// Inserts an attribute, replacing the value under an existing name.
    pub fn insert(&mut self, key: String, value: JsonValue)
        requires
            old(self).wf(),
        ensures
            final(self).entries() == upsert(old(self).entries(), key, value),
            final(self).wf(),
    {
        proof {
            crate::json::lemma_upsert_distinct(self.entries@, key, value);
        }
        map_upsert(&mut self.entries, key, value);
    }

    /// Whether no attribute has been inserted.
    pub fn is_empty(&self) -> (r: bool)
        ensures
            r == (self.entries().len() == 0),
    {
        self.entries.len() == 0
    }
}

/// The wire text of an attribute map: a JSON object of its entries in
/// insertion order.
pub closed spec fn attributes_text(a: AttributesObject) -> Seq<char> {
    obj_text(a.entries)
}

/// Appends the wire text of `a` to `out`.
pub fn write_attributes(a: &AttributesObject, out: &mut String)
    ensures
        final(out)@ == old(out)@ + attributes_text(*a),
{
    write_obj(&a.entries, out);
}

/// A lightweight reference to a resource: type and id, both non-empty.
#[derive(Debug)]
pub struct ResourceIdentifierObject {
    kind: String,
    id: String,
}

impl ResourceIdentifierObject {
    #[verifier::type_invariant]
    spec fn type_inv(self) -> bool {
        self.kind@.len() > 0 && self.id@.len() > 0
    }

    /// The characters of the type tag.
    pub closed spec fn spec_kind(&self) -> Seq<char> {
        self.kind@
    }

    /// The characters of the id.
    pub closed spec fn spec_id(&self) -> Seq<char> {
        self.id@
    }

    /// A reference to the resource of the given type and id.
    pub fn new(kind: &str, id: &str) -> (r: ResourceIdentifierObject)
        requires
            kind@.len() > 0,
            id@.len() > 0,
        ensures
            r.spec_kind() == kind@,
            r.spec_id() == id@,
    {
        ResourceIdentifierObject { kind: kind.to_owned(), id: id.to_owned() }
    }

    /// The type tag and the id of a resource identifier are never empty,
    /// whatever calls built it.
    pub fn check_nonempty(&self) -> (b: bool)
        ensures
            b,
            self.spec_kind().len() > 0,
            self.spec_id().len() > 0,
    {
        proof {
            use_type_invariant(&*self);
        }
        true
    }
}

/// The wire text of a resource identifier: an object of its type and id.
pub closed spec fn rio_text(r: ResourceIdentifierObject) -> Seq<char> {
    seq!['{'] + seq!['"'] + "type"@ + seq!['"'] + seq![':'] + str_text(r.kind@) + seq![',']
        + seq!['"'] + "id"@ + seq!['"'] + seq![':'] + str_text(r.id@) + seq!['}']
}

/// Appends the wire text of `r` to `out`.
pub fn write_rio(r: &ResourceIdentifierObject, out: &mut String)
    ensures
        final(out)@ == old(out)@ + rio_text(*r),
{
    push_char(out, '{');
    push_char(out, '"');
    push_str(out, "type");
    push_char(out, '"');
    push_char(out, ':');
    push_char(out, '"');
    crate::json::write_escaped(r.kind.as_str(), out);
    push_char(out, '"');
    push_char(out, ',');
    push_char(out, '"');
    push_str(out, "id");
    push_char(out, '"');
    push_char(out, ':');
    push_char(out, '"');
    crate::json::write_escaped(r.id.as_str(), out);
    push_char(out, '"');
    push_char(out, '}');
    assert(out@ =~= old(out)@ + rio_text(*r));
}

/// The target of a full-dialect relationship: absent, one identifier, or
/// a list of identifiers.
#[derive(Debug)]
pub enum ResourceLinkage {
    Single(Option<ResourceIdentifierObject>),
    Many(Vec<ResourceIdentifierObject>),
}

impl ResourceLinkage {
    /// A to-one linkage with the given target.
    pub fn to_one(ident: ResourceIdentifierObject) -> (r: ResourceLinkage)
        ensures
            r == ResourceLinkage::Single(Option::Some(ident)),
    {
        ResourceLinkage::Single(Option::Some(ident))
    }

    /// A to-one nullable linkage: `None` serializes as null.
    pub fn to_one_nullable(ident: Option<ResourceIdentifierObject>) -> (r: ResourceLinkage)
        ensures
            r == ResourceLinkage::Single(ident),
    {
        ResourceLinkage::Single(ident)
    }

    /// A to-many linkage with the given targets, in order.
    pub fn to_many(idents: Vec<ResourceIdentifierObject>) -> (r: ResourceLinkage)
        ensures
            r == ResourceLinkage::Many(idents),
    {
        ResourceLinkage::Many(idents)
    }
}

/// The text of the first `i` identifiers of a linkage list.
pub open spec fn rio_items_prefix(xs: Seq<ResourceIdentifierObject>, i: int) -> Seq<char>
    decreases i,
{
    if i <= 0 || i > xs.len() {
        Seq::empty()
    } else {
        let entry = rio_text(xs[i - 1]);
        if i == 1 {
            entry
        } else {
            rio_items_prefix(xs, i - 1) + seq![','] + entry
        }
    }
}

/// The wire text of a resource linkage: null, one identifier object, or
/// an array of identifier objects.
pub open spec fn linkage_text(l: ResourceLinkage) -> Seq<char> {
    match l {
        ResourceLinkage::Single(Option::None) => "null"@,
        ResourceLinkage::Single(Option::Some(r)) => rio_text(r),
        ResourceLinkage::Many(xs) => seq!['['] + rio_items_prefix(xs@, xs@.len() as int) + seq![
            ']',
        ],
    }
}

/// Appends the wire text of `l` to `out`.
pub fn write_linkage(l: &ResourceLinkage, out: &mut String)
    ensures
        final(out)@ == old(out)@ + linkage_text(*l),
{
    match l {
        ResourceLinkage::Single(Option::None) => {
            push_str(out, "null");
        },
        ResourceLinkage::Single(Option::Some(r)) => {
            write_rio(r, out);
        },
        ResourceLinkage::Many(xs) => {
            push_char(out, '[');
            let ghost entry: Seq<char> = out@;
            let n: usize = xs.len();
            let mut i: usize = 0;
            while i < n
                invariant
                    0 <= i <= n,
                    n == xs@.len(),
                    out@ == entry + rio_items_prefix(xs@, i as int),
                decreases n - i,
            {
                if i > 0 {
                    push_char(out, ',');
                }
                write_rio(&xs[i], out);
                proof {
                    if i == 0 {
                        assert(out@ =~= entry + rio_items_prefix(xs@, 1));
                    } else {
                        assert(out@ =~= entry + rio_items_prefix(xs@, i as int + 1));
                    }
                }
                i = i + 1;
            }
            push_char(out, ']');
            assert(out@ =~= old(out)@ + linkage_text(*l));
        },
    }
}

/// A relationship of the full dialect: optional named links and an
/// optional resource linkage, at least one of them present.
#[derive(Debug)]
pub struct RelationshipObject {
    links: Option<LinksObject>,
    data: Option<ResourceLinkage>,
}

impl RelationshipObject {
    #[verifier::type_invariant]
    spec fn type_inv(self) -> bool {
        self.links is Some || self.data is Some
    }

    /// The named links, when populated.
    pub closed spec fn spec_links(&self) -> Option<LinksObject> {
        self.links
    }

    /// The resource linkage, when populated.
    pub closed spec fn spec_data(&self) -> Option<ResourceLinkage> {
        self.data
    }

    /// An empty staged builder; `links` or `data` must be supplied before
    /// `build` is reachable.
    pub fn builder() -> (r: RelationshipBuilder<NoLinks, NoLinkage>) {
        RelationshipBuilder { links: NoLinks, data: NoLinkage }
    }

    /// Every relationship object carries `links` or `data`: no sequence
    /// of builder calls yields a built value with neither.
    pub fn check_links_or_data(&self) -> (b: bool)
        ensures
            b,
            self.spec_links() is Some || self.spec_data() is Some,
    {
        proof {
            use_type_invariant(&*self);
        }
        true
    }
}

/// Marker: no links supplied yet.
pub struct NoLinks;

/// Links supplied to a relationship builder.
pub struct SomeLinks(LinksObject);

/// Marker: no linkage supplied yet.
pub struct NoLinkage;

/// A linkage supplied to a relationship builder.
pub struct SomeLinkage(ResourceLinkage);

/// The staged relationship builder. Either supplying `links` or
/// supplying `data` makes `build` reachable; from the empty state it is
/// not.
pub struct RelationshipBuilder<L, D> {
    links: L,
    data: D,
}

impl RelationshipBuilder<NoLinks, NoLinkage> {
    /// Supplies the named links, making `build` reachable.
    pub fn links(self, links: LinksObject) -> (r: RelationshipBuilder<SomeLinks, NoLinkage>)
        ensures
            r.links_val() == links,
    {
        RelationshipBuilder { links: SomeLinks(links), data: NoLinkage }
    }

    /// Supplies the linkage, making `build` reachable.
    pub fn data(self, data: ResourceLinkage) -> (r: RelationshipBuilder<NoLinks, SomeLinkage>)
        ensures
            r.data_val() == data,
    {
        RelationshipBuilder { links: NoLinks, data: SomeLinkage(data) }
    }
}

impl RelationshipBuilder<SomeLinks, NoLinkage> {
    /// The links supplied so far.
    pub closed spec fn links_val(&self) -> LinksObject {
        self.links.0
    }

    /// Supplies the linkage as well.
    pub fn data(self, data: ResourceLinkage) -> (r: RelationshipBuilder<SomeLinks, SomeLinkage>)
        ensures
            r.links_val() == self.links_val(),
            r.data_val() == data,
    {
        RelationshipBuilder { links: self.links, data: SomeLinkage(data) }
    }

    /// Finishes with links alone.
    pub fn build(self) -> (r: RelationshipObject)
        ensures
            r.spec_links() == Option::Some(self.links_val()),
            r.spec_data() is None,
    {
        RelationshipObject { links: Option::Some(self.links.0), data: Option::None }
    }
}

impl RelationshipBuilder<NoLinks, SomeLinkage> {
    /// The linkage supplied so far.
    pub closed spec fn data_val(&self) -> ResourceLinkage {
        self.data.0
    }

    /// Supplies the links as well.
    pub fn links(self, links: LinksObject) -> (r: RelationshipBuilder<SomeLinks, SomeLinkage>)
        ensures
            r.links_val() == links,
            r.data_val() == self.data_val(),
    {
        RelationshipBuilder { links: SomeLinks(links), data: self.data }
    }

    /// Finishes with a linkage alone.
    pub fn build(self) -> (r: RelationshipObject)
        ensures
            r.spec_links() is None,
            r.spec_data() == Option::Some(self.data_val()),
    {
        RelationshipObject { links: Option::None, data: Option::Some(self.data.0) }
    }
}

impl RelationshipBuilder<SomeLinks, SomeLinkage> {
    /// The links supplied so far.
    pub closed spec fn links_val(&self) -> LinksObject {
        self.links.0
    }

    /// The linkage supplied so far.
    pub closed spec fn data_val(&self) -> ResourceLinkage {
        self.data.0
    }

    /// Finishes with both present.
    pub fn build(self) -> (r: RelationshipObject)
        ensures
            r.spec_links() == Option::Some(self.links_val()),
            r.spec_data() == Option::Some(self.data_val()),
    {
        RelationshipObject { links: Option::Some(self.links.0), data: Option::Some(self.data.0) }
    }
}

/// The wire text of a relationship object: an object holding `links`
/// and/or `data`, whichever are populated, links first.
pub closed spec fn relationship_text(r: RelationshipObject) -> Seq<char> {
    match (r.links, r.data) {
        (Option::Some(l), Option::None) => seq!['{'] + seq!['"'] + "links"@ + seq!['"'] + seq![':']
            + links_object_text(l) + seq!['}'],
        (Option::None, Option::Some(d)) => seq!['{'] + seq!['"'] + "data"@ + seq!['"'] + seq![':']
            + linkage_text(d) + seq!['}'],
        (Option::Some(l), Option::Some(d)) => seq!['{'] + seq!['"'] + "links"@ + seq!['"'] + seq![
            ':',
        ] + links_object_text(l) + seq![','] + seq!['"'] + "data"@ + seq!['"'] + seq![':']
            + linkage_text(d) + seq!['}'],
        (Option::None, Option::None) => seq!['{'] + seq!['}'],
    }
}

/// Appends the wire text of `r` to `out`.
pub fn write_relationship(r: &RelationshipObject, out: &mut String)
    ensures
        final(out)@ == old(out)@ + relationship_text(*r),
{
    push_char(out, '{');
    let mut wrote_links: bool = false;
    if let Option::Some(l) = &r.links {
        push_char(out, '"');
        push_str(out, "links");
        push_char(out, '"');
        push_char(out, ':');
        write_links_object(l, out);
        wrote_links = true;
    }
    if let Option::Some(d) = &r.data {
        if wrote_links {
            push_char(out, ',');
        }
        push_char(out, '"');
        push_str(out, "data");
        push_char(out, '"');
        push_char(out, ':');
        write_linkage(d, out);
    }
    push_char(out, '}');
    assert(out@ =~= old(out)@ + relationship_text(*r));
}

/// The relationship map of a resource: name to relationship object, keys
/// unique, insertion order kept.
#[derive(Debug)]
pub struct RelationshipsObject {
    entries: Vec<(String, RelationshipObject)>,
}

impl RelationshipsObject {
    /// The named relationships, in insertion order.
    pub closed spec fn entries(&self) -> Seq<(String, RelationshipObject)> {
        self.entries@
    }

    /// Keys are unique.
    pub closed spec fn wf(&self) -> bool {
        keys_distinct(self.entries@)
    }

    /// An empty relationship map.
    pub fn new() -> (r: RelationshipsObject)
        ensures
            r.entries() == Seq::<(String, RelationshipObject)>::empty(),
            r.wf(),
    {
        RelationshipsObject { entries: Vec::new() }
    }

    /// Inserts a named relationship, replacing the one under an existing
    /// name.
    pub fn insert(&mut self, name: String, rel: RelationshipObject)
        requires
            old(self).wf(),
        ensures
            final(self).entries() == upsert(old(self).entries(), name, rel),
            final(self).wf(),
    {
        proof {
            crate::json::lemma_upsert_distinct(self.entries@, name, rel);
        }
        map_upsert(&mut self.entries, name, rel);
    }

    /// Whether no relationship has been inserted.
    pub fn is_empty(&self) -> (r: bool)
        ensures
            r == (self.entries().len() == 0),
    {
        self.entries.len() == 0
    }
}

/// The text of the first `i` named relationships of a relationship map.
pub open spec fn relationship_pairs_prefix(
    ps: Seq<(String, RelationshipObject)>,
    i: int,
) -> Seq<char>
    decreases i,
{
    if i <= 0 || i > ps.len() {
        Seq::empty()
    } else {
        let entry = str_text(ps[i - 1].0@) + seq![':'] + relationship_text(ps[i - 1].1);
        if i == 1 {
            entry
        } else {
            relationship_pairs_prefix(ps, i - 1) + seq![','] + entry
        }
    }
}

/// The wire text of a relationship map: a JSON object of its named
/// relationships in insertion order.
pub open spec fn relationships_object_text(rs: RelationshipsObject) -> Seq<char> {
    seq!['{'] + relationship_pairs_prefix(rs.entries(), rs.entries().len() as int) + seq!['}']
}

/// Appends the wire text of `rs` to `out`.
pub fn write_relationships_object(rs: &RelationshipsObject, out: &mut String)
    ensures
        final(out)@ == old(out)@ + relationships_object_text(*rs),
{
    push_char(out, '{');
    let ghost entry: Seq<char> = out@;
    let n: usize = rs.entries.len();
    let mut i: usize = 0;
    while i < n
        invariant
            0 <= i <= n,
            n == rs.entries@.len(),
            out@ == entry + relationship_pairs_prefix(rs.entries@, i as int),
        decreases n - i,
    {
        if i > 0 {
            push_char(out, ',');
        }
        push_char(out, '"');
        let key: &String = &rs.entries[i].0;
        crate::json::write_escaped(key.as_str(), out);
        push_char(out, '"');
        push_char(out, ':');
        write_relationship(&rs.entries[i].1, out);
        proof {
            if i == 0 {
                assert(out@ =~= entry + relationship_pairs_prefix(rs.entries@, 1));
            } else {
                assert(out@ =~= entry + relationship_pairs_prefix(rs.entries@, i as int + 1));
            }
        }
        i = i + 1;
    }
    push_char(out, '}');
    assert(out@ =~= old(out)@ + relationships_object_text(*rs));
}

/// A resource of the full dialect: type tag, id, attributes, named
/// relationships and named links. Type and id are mandatory up front; the
/// maps grow by chainable calls.
#[derive(Debug)]
pub struct ResourceObject {
    kind: String,
    id: String,
    attributes: AttributesObject,
    relationships: RelationshipsObject,
    links: LinksObject,
}

impl ResourceObject {
    /// The characters of the type tag.
    pub closed spec fn spec_kind(&self) -> Seq<char> {
        self.kind@
    }

    /// The characters of the id.
    pub closed spec fn spec_id(&self) -> Seq<char> {
        self.id@
    }

    /// The attribute map.
    pub closed spec fn spec_attributes(&self) -> AttributesObject {
        self.attributes
    }

    /// The relationship map.
    pub closed spec fn spec_relationships(&self) -> RelationshipsObject {
        self.relationships
    }

    /// The link map.
    pub closed spec fn spec_links(&self) -> LinksObject {
        self.links
    }

    /// The maps hold unique keys.
    pub open spec fn wf(&self) -> bool {
        self.spec_attributes().wf() && self.spec_relationships().wf() && self.spec_links().wf()
    }

    /// A resource of the given type and id, with empty maps.
    pub fn new(kind: &str, id: &str) -> (r: ResourceObject)
        ensures
            r.spec_kind() == kind@,
            r.spec_id() == id@,
            r.spec_attributes().entries() == Seq::<(String, JsonValue)>::empty(),
            r.spec_relationships().entries() == Seq::<(String, RelationshipObject)>::empty(),
            r.spec_links().entries() == Seq::<(String, crate::v1::links::Link)>::empty(),
            r.wf(),
    {
        ResourceObject {
            kind: kind.to_owned(),
            id: id.to_owned(),
            attributes: AttributesObject::new(),
            relationships: RelationshipsObject::new(),
            links: LinksObject::new(),
        }
    }

    /// Adds or replaces an attribute; chainable.
    pub fn attribute(self, key: String, value: JsonValue) -> (r: ResourceObject)
        requires
            self.wf(),
        ensures
            r.spec_kind() == self.spec_kind(),
            r.spec_id() == self.spec_id(),
            r.spec_attributes().entries() == upsert(self.spec_attributes().entries(), key, value),
            r.spec_relationships() == self.spec_relationships(),
            r.spec_links() == self.spec_links(),
            r.wf(),
    {
        let mut attributes = self.attributes;
        attributes.insert(key, value);
        ResourceObject {
            kind: self.kind,
            id: self.id,
            attributes,
            relationships: self.relationships,
            links: self.links,
        }
    }

    /// Adds or replaces a named link; chainable.
    pub fn link(self, name: String, link: crate::v1::links::Link) -> (r: ResourceObject)
        requires
            self.wf(),
        ensures
            r.spec_kind() == self.spec_kind(),
            r.spec_id() == self.spec_id(),
            r.spec_attributes() == self.spec_attributes(),
            r.spec_relationships() == self.spec_relationships(),
            r.spec_links().entries() == upsert(self.spec_links().entries(), name, link),
            r.wf(),
    {
        let mut links = self.links;
        links.insert(name, link);
        ResourceObject {
            kind: self.kind,
            id: self.id,
            attributes: self.attributes,
            relationships: self.relationships,
            links,
        }
    }

    /// Adds or replaces a named relationship; chainable.
    pub fn relationship(self, name: String, rel: RelationshipObject) -> (r: ResourceObject)
        requires
            self.wf(),
        ensures
            r.spec_kind() == self.spec_kind(),
            r.spec_id() == self.spec_id(),
            r.spec_attributes() == self.spec_attributes(),
            r.spec_relationships().entries() == upsert(
                self.spec_relationships().entries(),
                name,
                rel,
            ),
            r.spec_links() == self.spec_links(),
            r.wf(),
    {
        let mut relationships = self.relationships;
        relationships.insert(name, rel);
        ResourceObject {
            kind: self.kind,
            id: self.id,
            attributes: self.attributes,
            relationships,
            links: self.links,
        }
    }
}

/// The wire text of a resource object given the texts of its parts: type,
/// id and attributes always; the `relationships` member only when
/// populated; `links` always.
pub open spec fn resource_wire_text(
    kind: Seq<char>,
    id: Seq<char>,
    attrs: Seq<char>,
    rels: Option<Seq<char>>,
    links: Seq<char>,
) -> Seq<char> {
    seq!['{'] + seq!['"'] + "type"@ + seq!['"'] + seq![':'] + str_text(kind) + seq![','] + seq![
        '"',
    ] + "id"@ + seq!['"'] + seq![':'] + str_text(id) + seq![','] + seq!['"'] + "attributes"@ + seq![
        '"',
    ] + seq![':'] + attrs + (match rels {
        Option::Some(r) => seq![','] + seq!['"'] + "relationships"@ + seq!['"'] + seq![':'] + r,
        Option::None => Seq::empty(),
    }) + seq![','] + seq!['"'] + "links"@ + seq!['"'] + seq![':'] + links + seq!['}']
}

/// The wire text of a resource object. The `relationships` member is
/// omitted entirely when the relationship map is empty.
pub closed spec fn resource_text(r: ResourceObject) -> Seq<char> {
    resource_wire_text(
        r.kind@,
        r.id@,
        attributes_text(r.attributes),
        if r.relationships.entries().len() == 0 {
            Option::None
        } else {
            Option::Some(relationships_object_text(r.relationships))
        },
        links_object_text(r.links),
    )
}

/// A resource with an empty relationship map serializes without any
/// `relationships` member.
pub proof fn lemma_empty_relationships_key_omitted(r: ResourceObject)
    requires
        r.spec_relationships().entries().len() == 0,
    ensures
        resource_text(r) == resource_wire_text(
            r.spec_kind(),
            r.spec_id(),
            attributes_text(r.spec_attributes()),
            Option::None,
            links_object_text(r.spec_links()),
        ),
{
}

/// A resource with a populated relationship map serializes with the
/// `relationships` member present.
pub proof fn lemma_relationships_key_present(r: ResourceObject)
    requires
        r.spec_relationships().entries().len() > 0,
    ensures
        resource_text(r) == resource_wire_text(
            r.spec_kind(),
            r.spec_id(),
            attributes_text(r.spec_attributes()),
            Option::Some(relationships_object_text(r.spec_relationships())),
            links_object_text(r.spec_links()),
        ),
{
}

/// Appends the wire text of `r` to `out`.
#[verifier::rlimit(100)]
pub fn write_resource(r: &ResourceObject, out: &mut String)
    ensures
        final(out)@ == old(out)@ + resource_text(*r),
{
    push_char(out, '{');
    push_char(out, '"');
    push_str(out, "type");
    push_char(out, '"');
    push_char(out, ':');
    push_char(out, '"');
    crate::json::write_escaped(r.kind.as_str(), out);
    push_char(out, '"');
    push_char(out, ',');
    push_char(out, '"');
    push_str(out, "id");
    push_char(out, '"');
    push_char(out, ':');
    push_char(out, '"');
    crate::json::write_escaped(r.id.as_str(), out);
    push_char(out, '"');
    push_char(out, ',');
    push_char(out, '"');
    push_str(out, "attributes");
    push_char(out, '"');
    push_char(out, ':');
    write_attributes(&r.attributes, out);
    let ghost a0: Seq<char> = seq!['{'] + seq!['"'] + "type"@ + seq!['"'] + seq![':'] + str_text(
        r.kind@,
    ) + seq![','] + seq!['"'] + "id"@ + seq!['"'] + seq![':'] + str_text(r.id@) + seq![','] + seq![
        '"',
    ] + "attributes"@ + seq!['"'] + seq![':'] + attributes_text(r.attributes);
    assert(out@ =~= old(out)@ + a0);
    let ghost before_rels: Seq<char> = out@;
    if !r.relationships.is_empty() {
        push_char(out, ',');
        push_char(out, '"');
        push_str(out, "relationships");
        push_char(out, '"');
        push_char(out, ':');
        write_relationships_object(&r.relationships, out);
        assert(out@ =~= before_rels + (seq![','] + seq!['"'] + "relationships"@ + seq!['"'] + seq![
            ':',
        ] + relationships_object_text(r.relationships)));
    }
    let ghost rels_part: Seq<char> = if r.relationships.entries().len() == 0 {
        Seq::empty()
    } else {
        seq![','] + seq!['"'] + "relationships"@ + seq!['"'] + seq![':']
            + relationships_object_text(r.relationships)
    };
    let ghost a1: Seq<char> = a0 + rels_part;
    proof {
        lemma_concat_associative(old(out)@, a0, rels_part);
        if r.relationships.entries().len() == 0 {
            assert(a1 =~= a0);
        }
    }
    assert(out@ == old(out)@ + a1);
    let ghost before_links: Seq<char> = out@;
    push_char(out, ',');
    push_char(out, '"');
    push_str(out, "links");
    push_char(out, '"');
    push_char(out, ':');
    write_links_object(&r.links, out);
    push_char(out, '}');
    let ghost links_part: Seq<char> = seq![','] + seq!['"'] + "links"@ + seq!['"'] + seq![':']
        + links_object_text(r.links) + seq!['}'];
    assert(out@ =~= before_links + links_part);
    let ghost a2: Seq<char> = a1 + links_part;
    proof {
        lemma_concat_associative(old(out)@, a1, links_part);
    }
    assert(out@ == old(out)@ + a2);
    assert(a2 =~= resource_text(*r));
}


/// The JSON values a resource identifier reads back from: an object of
/// exactly a non-empty `type` and a non-empty `id`.
pub open spec fn is_rio_json(v: JsonValue) -> bool {
    &&& v matches JsonValue::Obj(e)
    &&& e@.len() == 2
    &&& e@[0].0@ == "type"@
    &&& (e@[0].1 matches JsonValue::Str(t) && t@.len() > 0)
    &&& e@[1].0@ == "id"@
    &&& (e@[1].1 matches JsonValue::Str(t) && t@.len() > 0)
}

/// Reads a resource identifier back from its JSON value: an object of
/// exactly a non-empty `type` and a non-empty `id`.
#[verifier::rlimit(100)]
pub fn rio_from_json(v: JsonValue) -> (r: Option<ResourceIdentifierObject>)
    ensures
        (r matches Option::Some(x) ==> rio_text(x) == json_text(v)),
        r is Some <==> is_rio_json(v),
{
    match v {
        JsonValue::Obj(entries) => {
            if entries.len() != 2 {
                return Option::None;
            }
            let ghost orig: Vec<(String, JsonValue)> = entries;
            let mut rest = entries;
            let (k0, v0) = rest.remove(0);
            let (k1, v1) = rest.remove(0);
            if !key_is(&k0, "type") || !key_is(&k1, "id") {
                return Option::None;
            }
            match (v0, v1) {
                (JsonValue::Str(t), JsonValue::Str(id)) => {
                    if t.as_str().is_empty() || id.as_str().is_empty() {
                        return Option::None;
                    }
                    let x = ResourceIdentifierObject { kind: t, id };
                    proof {
                        reveal_strlit("type");
                        reveal_strlit("id");
                        assert("type"@.len() == 4);
                        assert("id"@.len() == 2);
                        lemma_esc_identity("type"@);
                        lemma_esc_identity("id"@);
                        assert(pairs_prefix(orig, 1) == str_text(orig@[0].0@) + seq![':']
                            + json_text(orig@[0].1));
                        assert(pairs_prefix(orig, 2) == pairs_prefix(orig, 1) + seq![','] + (
                        str_text(orig@[1].0@) + seq![':'] + json_text(orig@[1].1)));
                        assert(rio_text(x) =~= json_text(JsonValue::Obj(orig)));
                    }
                    Option::Some(x)
                },
                _ => Option::None,
            }
        },
        _ => Option::None,
    }
}

/// The JSON values a resource reads back from: an object of exactly
/// `type`, `id`, `attributes` and `links`, in that order, with every
/// link in the string form. A resource whose relationship map was
/// populated is not read back.
pub open spec fn is_resource_json(v: JsonValue) -> bool {
    &&& v matches JsonValue::Obj(e)
    &&& e@.len() == 4
    &&& e@[0].0@ == "type"@
    &&& e@[0].1 is Str
    &&& e@[1].0@ == "id"@
    &&& e@[1].1 is Str
    &&& e@[2].0@ == "attributes"@
    &&& e@[2].1 is Obj
    &&& e@[3].0@ == "links"@
    &&& (e@[3].1 matches JsonValue::Obj(ls) && is_links_object_json(ls@))
}

/// Reads a resource back from its JSON value: see `is_resource_json`
/// for the accepted shape.
#[verifier::rlimit(100)]
pub fn resource_from_json(v: JsonValue) -> (r: Option<ResourceObject>)
    ensures
        (r matches Option::Some(x) ==> resource_text(x) == json_text(v)),
        r is Some <==> is_resource_json(v),
{
    match v {
        JsonValue::Obj(entries) => {
            if entries.len() != 4 {
                return Option::None;
            }
            let ghost orig: Vec<(String, JsonValue)> = entries;
            let mut rest = entries;
            let (k0, v0) = rest.remove(0);
            let (k1, v1) = rest.remove(0);
            let (k2, v2) = rest.remove(0);
            let (k3, v3) = rest.remove(0);
            if !key_is(&k0, "type") || !key_is(&k1, "id") || !key_is(&k2, "attributes") || !key_is(
                &k3,
                "links",
            ) {
                return Option::None;
            }
            match (v0, v1, v2, v3) {
                (
                    JsonValue::Str(t),
                    JsonValue::Str(id),
                    JsonValue::Obj(attrs),
                    JsonValue::Obj(link_entries),
                ) => {
                    let ghost attrs_orig: Vec<(String, JsonValue)> = attrs;
                    let ls = match links_object_from_json(link_entries) {
                        Option::Some(ls) => ls,
                        Option::None => {
                            return Option::None;
                        },
                    };
                    let x = ResourceObject {
                        kind: t,
                        id,
                        attributes: AttributesObject { entries: attrs },
                        relationships: RelationshipsObject { entries: Vec::new() },
                        links: ls,
                    };
                    proof {
                        reveal_strlit("type");
                        reveal_strlit("id");
                        reveal_strlit("attributes");
                        reveal_strlit("links");
                        assert("type"@.len() == 4);
                        assert("id"@.len() == 2);
                        assert("attributes"@.len() == 10);
                        assert("links"@.len() == 5);
                        lemma_esc_identity("type"@);
                        lemma_esc_identity("id"@);
                        lemma_esc_identity("attributes"@);
                        lemma_esc_identity("links"@);
                        assert(pairs_prefix(orig, 1) == str_text(orig@[0].0@) + seq![':']
                            + json_text(orig@[0].1));
                        assert(pairs_prefix(orig, 2) == pairs_prefix(orig, 1) + seq![','] + (
                        str_text(orig@[1].0@) + seq![':'] + json_text(orig@[1].1)));
                        assert(pairs_prefix(orig, 3) == pairs_prefix(orig, 2) + seq![','] + (
                        str_text(orig@[2].0@) + seq![':'] + json_text(orig@[2].1)));
                        assert(pairs_prefix(orig, 4) == pairs_prefix(orig, 3) + seq![','] + (
                        str_text(orig@[3].0@) + seq![':'] + json_text(orig@[3].1)));
                        assert(json_text(orig@[2].1) == obj_text(attrs_orig));
                        assert(resource_text(x) =~= json_text(JsonValue::Obj(orig)));
                    }
                    Option::Some(x)
                },
                _ => Option::None,
            }
        },
        _ => Option::None,
    }
}

pub proof fn lemma_rio_items_prefix_push(
    s: Seq<ResourceIdentifierObject>,
    x: ResourceIdentifierObject,
    i: int,
)
    requires
        0 <= i <= s.len(),
    ensures
        rio_items_prefix(s.push(x), i) == rio_items_prefix(s, i),
    decreases i,
{
    if i > 0 {
        lemma_rio_items_prefix_push(s, x, i - 1);
        assert(s.push(x)[i - 1] == s[i - 1]);
    }
}

} // verus!
