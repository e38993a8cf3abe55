//! The full document dialect: resources, resource identifiers,
//! relationship objects with links-or-data, and a top-level document that
//! carries exactly one of a data body or an error body.
//!
//! A document is staged: from the empty builder the caller supplies
//! either a data body or an error body, never both, and only then is
//! `build` reachable. The data body itself is staged over the
//! single-versus-collection and resource-versus-identifier choices, which
//! are never mixed within one document.

pub mod links;
pub mod resource;

use vstd::prelude::*;
use crate::json::{
    str_text,
    push_char,
    push_str,
    JsonValue,
    json_text,
    items_prefix,
    pairs_prefix,
    key_is,
    lemma_esc_identity,
};
use crate::v1::resource::{
    ResourceObject,
    ResourceIdentifierObject,
    resource_text,
    rio_text,
    rio_items_prefix,
    write_resource,
    write_rio,
    resource_from_json,
    rio_from_json,
    is_resource_json,
    is_rio_json,
    lemma_rio_items_prefix_push,
};
use vstd::seq_lib::lemma_concat_associative;

verus! {

/// One of the two document bodies: a single primary value or a
/// collection, each of resources or of identifiers, never mixed.
#[derive(Debug)]
pub enum CoreData {
    Single(Single),
    Collection(Collection),
}

/// A single primary value: a resource object or a resource identifier.
#[derive(Debug)]
pub enum Single {
    Resource(ResourceObject),
    Identifier(ResourceIdentifierObject),
}

/// A collection body: resource objects or resource identifiers.
#[derive(Debug)]
pub enum Collection {
    Resource(Vec<ResourceObject>),
    Identifier(Vec<ResourceIdentifierObject>),
}

/// The top-level error body. The wire format reserves an object here;
/// no member of it is modelled yet.
#[derive(Debug)]
pub struct ErrorObject;

/// A full-dialect document: a data body or an error body, exactly one.
#[derive(Debug)]
pub struct Document(CoreDocument);

#[derive(Debug)]
enum CoreDocument {
    Data { data: CoreData },
    Error { error: ErrorObject },
}

/// A completed data body, made by `Data::builder`.
#[derive(Debug)]
pub struct Data(CoreData);

impl Data {
    /// The body held.
    pub closed spec fn spec_core(&self) -> CoreData {
        self.0
    }

    /// An empty staged builder; one of the four body choices must be
    /// supplied before `build` is reachable.
    pub fn builder() -> (r: DataBuilder<NoSingle, NoCollection>) {
        DataBuilder { single: NoSingle, collection: NoCollection }
    }
}

/// Marker: no single body supplied yet.
pub struct NoSingle;

/// A single body supplied to a data builder.
pub struct SomeSingle(Single);

/// Marker: no collection body supplied yet.
pub struct NoCollection;

/// A collection body supplied to a data builder.
pub struct SomeCollection(Collection);

/// The staged data-body builder. Each of the four choices moves to a
/// state where `build` is reachable and the others are not offered.
pub struct DataBuilder<S, C> {
    single: S,
    collection: C,
}

impl DataBuilder<NoSingle, NoCollection> {
    /// A single resource body.
    pub fn resource(self, resource: ResourceObject) -> (r: DataBuilder<SomeSingle, NoCollection>)
        ensures
            r.single_val() == Single::Resource(resource),
    {
        DataBuilder { single: SomeSingle(Single::Resource(resource)), collection: NoCollection }
    }

    /// A collection body of resources, in order.
    pub fn resources(self, resources: Vec<ResourceObject>) -> (r: DataBuilder<
        NoSingle,
        SomeCollection,
    >)
        ensures
            r.collection_val() == Collection::Resource(resources),
    {
        DataBuilder { single: NoSingle, collection: SomeCollection(Collection::Resource(resources)) }
    }

    /// A single resource-identifier body.
    pub fn resource_identifier(self, resource_identifier: ResourceIdentifierObject) -> (r:
        DataBuilder<SomeSingle, NoCollection>)
        ensures
            r.single_val() == Single::Identifier(resource_identifier),
    {
        DataBuilder {
            single: SomeSingle(Single::Identifier(resource_identifier)),
            collection: NoCollection,
        }
    }

    /// A collection body of resource identifiers, in order.
    pub fn resource_identifiers(self, resource_identifiers: Vec<ResourceIdentifierObject>) -> (r:
        DataBuilder<NoSingle, SomeCollection>)
        ensures
            r.collection_val() == Collection::Identifier(resource_identifiers),
    {
        DataBuilder {
            single: NoSingle,
            collection: SomeCollection(Collection::Identifier(resource_identifiers)),
        }
    }
}

impl DataBuilder<SomeSingle, NoCollection> {
    /// The single body supplied.
    pub closed spec fn single_val(&self) -> Single {
        self.single.0
    }

    /// Finishes the single body.
    pub fn build(self) -> (r: Data)
        ensures
            r.spec_core() == CoreData::Single(self.single_val()),
    {
        Data(CoreData::Single(self.single.0))
    }
}

impl DataBuilder<NoSingle, SomeCollection> {
    /// The collection body supplied.
    pub closed spec fn collection_val(&self) -> Collection {
        self.collection.0
    }

    /// Finishes the collection body.
    pub fn build(self) -> (r: Data)
        ensures
            r.spec_core() == CoreData::Collection(self.collection_val()),
    {
        Data(CoreData::Collection(self.collection.0))
    }
}

/// Marker: no data body supplied yet.
pub struct NoData;

/// A data body supplied to a document builder.
pub struct SomeData(CoreData);

/// Marker: no error body supplied yet.
pub struct NoError;

/// An error body supplied to a document builder.
pub struct SomeError(ErrorObject);

/// The staged document builder. Supplying a data body rules the error
/// path out and the other way round; `build` is reachable only after
/// exactly one of the two calls.
pub struct DocumentBuilder<D, E> {
    data: D,
    error: E,
}

impl Document {
    /// Whether this document carries a data body (else an error body).
    pub closed spec fn is_data_form(&self) -> bool {
        self.0 is Data
    }

    /// The data body of a data-form document.
    pub closed spec fn spec_data(&self) -> CoreData {
        self.0->Data_data
    }

    /// An empty staged builder; a data body or an error body must be
    /// supplied before `build` is reachable.
    pub fn builder() -> (r: DocumentBuilder<NoData, NoError>) {
        DocumentBuilder { data: NoData, error: NoError }
    }
}

impl DocumentBuilder<NoData, NoError> {
    /// Supplies the data body, ruling the error path out.
    pub fn data(self, data: Data) -> (r: DocumentBuilder<SomeData, NoError>)
        ensures
            r.data_val() == data.spec_core(),
    {
        DocumentBuilder { data: SomeData(data.0), error: NoError }
    }

    /// Supplies the error body, ruling the data path out.
    pub fn error(self, error: ErrorObject) -> (r: DocumentBuilder<NoData, SomeError>) {
        DocumentBuilder { data: NoData, error: SomeError(error) }
    }
}

impl DocumentBuilder<SomeData, NoError> {
    /// The data body supplied.
    pub closed spec fn data_val(&self) -> CoreData {
        self.data.0
    }

    /// Finishes a data-form document.
    pub fn build(self) -> (r: Document)
        ensures
            r.is_data_form(),
            r.spec_data() == self.data_val(),
    {
        Document(CoreDocument::Data { data: self.data.0 })
    }
}

impl DocumentBuilder<NoData, SomeError> {
    /// Finishes an error-form document.
    pub fn build(self) -> (r: Document)
        ensures
            !r.is_data_form(),
    {
        Document(CoreDocument::Error { error: self.error.0 })
    }
}

/// The text of the first `i` resources of a collection body.
pub open spec fn resource_items_prefix(xs: Seq<ResourceObject>, i: int) -> Seq<char>
    decreases i,
{
    if i <= 0 || i > xs.len() {
        Seq::empty()
    } else {
        let entry = resource_text(xs[i - 1]);
        if i == 1 {
            entry
        } else {
            resource_items_prefix(xs, i - 1) + seq![','] + entry
        }
    }
}

/// The wire text of a single body: the resource or the identifier.
pub open spec fn single_text(s: Single) -> Seq<char> {
    match s {
        Single::Resource(r) => resource_text(r),
        Single::Identifier(r) => rio_text(r),
    }
}

/// The wire text of a collection body: an array of resources or of
/// identifiers, in order.
pub open spec fn collection_text(c: Collection) -> Seq<char> {
    match c {
        Collection::Resource(xs) => seq!['['] + resource_items_prefix(xs@, xs@.len() as int)
            + seq![']'],
        Collection::Identifier(xs) => seq!['['] + rio_items_prefix(xs@, xs@.len() as int) + seq![
            ']',
        ],
    }
}

/// The wire text of a data body.
pub open spec fn core_data_text(d: CoreData) -> Seq<char> {
    match d {
        CoreData::Single(s) => single_text(s),
        CoreData::Collection(c) => collection_text(c),
    }
}

/// The wire text of the error body: an object with no member modelled.
pub open spec fn error_text(e: ErrorObject) -> Seq<char> {
    seq!['{'] + seq!['}']
}

/// The wire text of a document: an object holding a `data` member or an
/// `error` member, exactly one, never both.
pub closed spec fn document_text(d: Document) -> Seq<char> {
    match d.0 {
        CoreDocument::Data { data } => seq!['{'] + seq!['"'] + "data"@ + seq!['"'] + seq![':']
            + core_data_text(data) + seq!['}'],
        CoreDocument::Error { error } => seq!['{'] + seq!['"'] + "error"@ + seq!['"'] + seq![':']
            + error_text(error) + seq!['}'],
    }
}

/// A data-form document serializes with exactly the `data` member; an
/// error-form document with exactly the `error` member; no document
/// carries both.
pub proof fn lemma_document_data_xor_error(d: Document)
    ensures
        d.is_data_form() ==> document_text(d) == seq!['{'] + seq!['"'] + "data"@ + seq!['"'] + seq![
            ':',
        ] + core_data_text(d.spec_data()) + seq!['}'],
        !d.is_data_form() ==> document_text(d) == seq!['{'] + seq!['"'] + "error"@ + seq!['"']
            + seq![':'] + error_text(ErrorObject) + seq!['}'],
{
}

/// Appends the wire text of a single body to `out`.
fn write_single(s: &Single, out: &mut String)
    ensures
        final(out)@ == old(out)@ + single_text(*s),
{
    match s {
        Single::Resource(r) => write_resource(r, out),
        Single::Identifier(r) => write_rio(r, out),
    }
}

/// Appends the wire text of a collection body to `out`.
fn write_collection(c: &Collection, out: &mut String)
    ensures
        final(out)@ == old(out)@ + collection_text(*c),
{
    match c {
        Collection::Resource(xs) => {
            push_char(out, '[');
            let ghost entry: Seq<char> = out@;
            let n: usize = xs.len();
            let mut i: usize = 0;
            while i < n
                invariant
                    0 <= i <= n,
                    n == xs@.len(),
                    out@ == entry + resource_items_prefix(xs@, i as int),
                decreases n - i,
            {
                if i > 0 {
                    push_char(out, ',');
                }
                write_resource(&xs[i], out);
                proof {
                    if i == 0 {
                        assert(out@ =~= entry + resource_items_prefix(xs@, 1));
                    } else {
                        assert(out@ =~= entry + resource_items_prefix(xs@, i as int + 1));
                    }
                }
                i = i + 1;
            }
            push_char(out, ']');
            assert(out@ =~= old(out)@ + collection_text(*c));
        },
        Collection::Identifier(xs) => {
            push_char(out, '[');
            let ghost entry: Seq<char> = out@;
            let n: usize = xs.len();
            let mut i: usize = 0;
            while i < n
                invariant
                    0 <= i <= n,
                    n == xs@.len(),
                    out@ == entry + rio_items_prefix(xs@, i as int),
                decreases n - i,
            {
                if i > 0 {
                    push_char(out, ',');
                }
                write_rio(&xs[i], out);
                proof {
                    if i == 0 {
                        assert(out@ =~= entry + rio_items_prefix(xs@, 1));
                    } else {
                        assert(out@ =~= entry + rio_items_prefix(xs@, i as int + 1));
                    }
                }
                i = i + 1;
            }
            push_char(out, ']');
            assert(out@ =~= old(out)@ + collection_text(*c));
        },
    }
}

/// Appends the wire text of `d` to `out`.
pub fn write_document(d: &Document, out: &mut String)
    ensures
        final(out)@ == old(out)@ + document_text(*d),
{
    match &d.0 {
        CoreDocument::Data { data } => {
            push_char(out, '{');
            push_char(out, '"');
            push_str(out, "data");
            push_char(out, '"');
            push_char(out, ':');
            match data {
                CoreData::Single(s) => write_single(s, out),
                CoreData::Collection(c) => write_collection(c, out),
            }
            push_char(out, '}');
            assert(out@ =~= old(out)@ + document_text(*d));
        },
        CoreDocument::Error { error } => {
            push_char(out, '{');
            push_char(out, '"');
            push_str(out, "error");
            push_char(out, '"');
            push_char(out, ':');
            push_char(out, '{');
            push_char(out, '}');
            push_char(out, '}');
            assert(out@ =~= old(out)@ + document_text(*d));
        },
    }
}

impl Document {
    /// The document's exact wire text. The result is a pure function of
    /// the document: encoding the same document again yields the same
    /// text, character for character.
    pub fn to_json_text(&self) -> (r: String)
        ensures
            r@ == document_text(*self),
    {
        let mut out = String::new();
        write_document(self, &mut out);
        out
    }
}

/// Encoding is deterministic: any two encodings of one document are
/// identical.
pub proof fn lemma_encode_deterministic(d: Document, s1: Seq<char>, s2: Seq<char>)
    requires
        s1 == document_text(d),
        s2 == document_text(d),
    ensures
        s1 == s2,
{
}


pub proof fn lemma_resource_items_prefix_push(s: Seq<ResourceObject>, x: ResourceObject, i: int)
    requires
        0 <= i <= s.len(),
    ensures
        resource_items_prefix(s.push(x), i) == resource_items_prefix(s, i),
    decreases i,
{
    if i > 0 {
        lemma_resource_items_prefix_push(s, x, i - 1);
        assert(s.push(x)[i - 1] == s[i - 1]);
    }
}

/// The JSON values a single body reads back from: a resource or a
/// resource identifier.
pub open spec fn is_single_json(v: JsonValue) -> bool {
    is_resource_json(v) || is_rio_json(v)
}

/// Reads a single body back from its JSON value. Shapes are attempted in
/// a fixed order: the resource object (four known members) before the
/// bare identifier (two known members).
fn single_from_json(v: JsonValue) -> (r: Option<Single>)
    ensures
        (r matches Option::Some(s) ==> single_text(s) == json_text(v)),
        r is Some <==> is_single_json(v),
{
    let n: usize = match &v {
        JsonValue::Obj(entries) => entries.len(),
        _ => {
            return Option::None;
        },
    };
    if n == 4 {
        match resource_from_json(v) {
            Option::Some(x) => Option::Some(Single::Resource(x)),
            Option::None => Option::None,
        }
    } else if n == 2 {
        match rio_from_json(v) {
            Option::Some(x) => Option::Some(Single::Identifier(x)),
            Option::None => Option::None,
        }
    } else {
        Option::None
    }
}

/// The JSON arrays a collection body reads back from: empty, or all
/// resources, or all identifiers, never mixed.
pub open spec fn is_collection_json(s: Seq<JsonValue>) -> bool {
    ||| s.len() == 0
    ||| (forall|j: int| 0 <= j < s.len() ==> is_resource_json(#[trigger] s[j]))
    ||| (forall|j: int| 0 <= j < s.len() ==> is_rio_json(#[trigger] s[j]))
}

/// Reads a collection body back from the items of a JSON array. The
/// first item fixes the shape of the whole collection: resources or
/// identifiers, never mixed. An empty array reads as an empty resource
/// collection, whose wire text is the same either way.
fn collection_from_json(items: Vec<JsonValue>) -> (r: Option<Collection>)
    ensures
        (r matches Option::Some(c) ==> collection_text(c) == seq!['['] + items_prefix(
            items,
            items@.len() as int,
        ) + seq![']']),
        r is Some <==> is_collection_json(items@),
{
    let ghost orig: Vec<JsonValue> = items;
    if items.len() == 0 {
        let c = Collection::Resource(Vec::new());
        assert(collection_text(c) =~= seq!['['] + items_prefix(orig, 0) + seq![']']);
        return Option::Some(c);
    }
    let first_len: usize = match &items[0] {
        JsonValue::Obj(entries) => entries.len(),
        _ => usize::MAX,
    };
    let mut rest = items;
    if first_len == 4 {
        let mut out: Vec<ResourceObject> = Vec::new();
        let mut failed: bool = false;
        while rest.len() > 0 && !failed
            invariant
                failed ==> !is_collection_json(orig@),
                !failed ==> {
                    &&& orig@.len() > 0
                    &&& (orig@[0] matches JsonValue::Obj(e) && e@.len() == 4)
                    &&& out@.len() + rest@.len() == orig@.len()
                    &&& rest@ == orig@.subrange(out@.len() as int, orig@.len() as int)
                    &&& resource_items_prefix(out@, out@.len() as int) == items_prefix(
                        orig,
                        out@.len() as int,
                    )
                    &&& (forall|j: int|
                        0 <= j < out@.len() ==> resource_text(#[trigger] out@[j]) == json_text(
                            orig@[j],
                        ))
                    &&& (forall|j: int|
                        0 <= j < out@.len() ==> is_resource_json(#[trigger] orig@[j]))
                },
            decreases rest@.len(),
        {
            let ghost k: int = out@.len() as int;
            let item = rest.remove(0);
            assert(item == orig@[k]);
            match resource_from_json(item) {
                Option::Some(x) => {
                    let ghost out_before: Seq<ResourceObject> = out@;
                    out.push(x);
                    proof {
                        lemma_resource_items_prefix_push(out_before, x, k);
                        assert(out@ =~= out_before.push(x));
                        assert(rest@ =~= orig@.subrange(out@.len() as int, orig@.len() as int));
                        assert(resource_items_prefix(out@, k + 1) == items_prefix(orig, k + 1));
                    }
                },
                Option::None => {
                    proof {
                        assert(!is_resource_json(orig@[k]));
                        assert(!is_rio_json(orig@[0]));
                        assert(!is_collection_json(orig@)) by {
                            if is_collection_json(orig@) {
                                assert(is_resource_json(orig@[k]) || is_rio_json(orig@[0]));
                            }
                        }
                    }
                    failed = true;
                },
            }
        }
        if failed {
            Option::None
        } else {
            assert(forall|j: int| 0 <= j < orig@.len() ==> is_resource_json(#[trigger] orig@[j]));
            let c = Collection::Resource(out);
            assert(collection_text(c) =~= seq!['['] + items_prefix(orig, orig@.len() as int)
                + seq![']']);
            Option::Some(c)
        }
    } else if first_len == 2 {
        let mut out: Vec<ResourceIdentifierObject> = Vec::new();
        let mut failed: bool = false;
        while rest.len() > 0 && !failed
            invariant
                failed ==> !is_collection_json(orig@),
                !failed ==> {
                    &&& orig@.len() > 0
                    &&& (orig@[0] matches JsonValue::Obj(e) && e@.len() == 2)
                    &&& out@.len() + rest@.len() == orig@.len()
                    &&& rest@ == orig@.subrange(out@.len() as int, orig@.len() as int)
                    &&& rio_items_prefix(out@, out@.len() as int) == items_prefix(
                        orig,
                        out@.len() as int,
                    )
                    &&& (forall|j: int|
                        0 <= j < out@.len() ==> rio_text(#[trigger] out@[j]) == json_text(
                            orig@[j],
                        ))
                    &&& (forall|j: int| 0 <= j < out@.len() ==> is_rio_json(#[trigger] orig@[j]))
                },
            decreases rest@.len(),
        {
            let ghost k: int = out@.len() as int;
            let item = rest.remove(0);
            assert(item == orig@[k]);
            match rio_from_json(item) {
                Option::Some(x) => {
                    let ghost out_before: Seq<ResourceIdentifierObject> = out@;
                    out.push(x);
                    proof {
                        lemma_rio_items_prefix_push(out_before, x, k);
                        assert(out@ =~= out_before.push(x));
                        assert(rest@ =~= orig@.subrange(out@.len() as int, orig@.len() as int));
                        assert(rio_items_prefix(out@, k + 1) == items_prefix(orig, k + 1));
                    }
                },
                Option::None => {
                    proof {
                        assert(!is_rio_json(orig@[k]));
                        assert(!is_resource_json(orig@[0]));
                        assert(!is_collection_json(orig@)) by {
                            if is_collection_json(orig@) {
                                assert(is_rio_json(orig@[k]) || is_resource_json(orig@[0]));
                            }
                        }
                    }
                    failed = true;
                },
            }
        }
        if failed {
            Option::None
        } else {
            assert(forall|j: int| 0 <= j < orig@.len() ==> is_rio_json(#[trigger] orig@[j]));
            let c = Collection::Identifier(out);
            assert(collection_text(c) =~= seq!['['] + items_prefix(orig, orig@.len() as int)
                + seq![']']);
            Option::Some(c)
        }
    } else {
        proof {
            assert(!is_resource_json(orig@[0]));
            assert(!is_rio_json(orig@[0]));
            assert(!is_collection_json(orig@));
        }
        Option::None
    }
}

/// The JSON values a document reads back from: an object holding one
/// member, either `data` with a single body or a collection, or `error`
/// with an empty object.
pub open spec fn is_document_json(v: JsonValue) -> bool {
    &&& v matches JsonValue::Obj(e)
    &&& e@.len() == 1
    &&& ({
        ||| (e@[0].0@ == "data"@ && (match e@[0].1 {
            JsonValue::Arr(items) => is_collection_json(items@),
            other => is_single_json(other),
        }))
        ||| (e@[0].0@ == "error"@ && (e@[0].1 matches JsonValue::Obj(ms) && ms@.len() == 0))
    })
}

impl Document {
    /// Reads a document back from its JSON value. Decoding is strict and
    /// mirrors the encoder: a `data` member holding a single resource, a
    /// single identifier or an array of either, or an `error` member
    /// holding an empty object. Shapes are attempted in a fixed order:
    /// the array, then the object with known members, never a bare
    /// scalar.
    #[verifier::rlimit(100)]
    pub fn from_json(v: JsonValue) -> (r: Option<Document>)
        ensures
            (r matches Option::Some(d) ==> document_text(d) == json_text(v)),
            r is Some <==> is_document_json(v),
    {
        match v {
            JsonValue::Obj(entries) => {
                if entries.len() != 1 {
                    return Option::None;
                }
                let ghost orig: Vec<(String, JsonValue)> = entries;
                let mut rest = entries;
                let (key, val) = rest.remove(0);
                assert((key, val) == orig@[0]);
                proof {
                    reveal_strlit("data");
                    reveal_strlit("error");
                    assert("data"@.len() == 4);
                    assert("error"@.len() == 5);
                    assert("data"@ != "error"@);
                }
                if key_is(&key, "data") {
                    let data: CoreData = match &val {
                        JsonValue::Arr(_) => {
                            let items = match val {
                                JsonValue::Arr(items) => items,
                                _ => {
                                    return Option::None;
                                },
                            };
                            let ghost items_orig: Vec<JsonValue> = items;
                            match collection_from_json(items) {
                                Option::Some(c) => {
                                    proof {
                                        assert(json_text(orig@[0].1) == seq!['['] + items_prefix(
                                            items_orig,
                                            items_orig@.len() as int,
                                        ) + seq![']']);
                                    }
                                    CoreData::Collection(c)
                                },
                                Option::None => {
                                    return Option::None;
                                },
                            }
                        },
                        _ => {
                            match single_from_json(val) {
                                Option::Some(s) => CoreData::Single(s),
                                Option::None => {
                                    return Option::None;
                                },
                            }
                        },
                    };
                    let d = Document(CoreDocument::Data { data });
                    proof {
                        reveal_strlit("data");
                        assert("data"@.len() == 4);
                        lemma_esc_identity("data"@);
                        assert(pairs_prefix(orig, 1) == str_text(orig@[0].0@) + seq![':']
                            + json_text(orig@[0].1));
                        assert(document_text(d) =~= json_text(JsonValue::Obj(orig)));
                    }
                    Option::Some(d)
                } else if key_is(&key, "error") {
                    let empty: bool = match &val {
                        JsonValue::Obj(members) => members.len() == 0,
                        _ => false,
                    };
                    if !empty {
                        return Option::None;
                    }
                    let d = Document(CoreDocument::Error { error: ErrorObject });
                    proof {
                        reveal_strlit("error");
                        assert("error"@.len() == 5);
                        lemma_esc_identity("error"@);
                        assert(val matches JsonValue::Obj(ms) ==> pairs_prefix(ms, 0)
                            == Seq::<char>::empty());
                        assert(val matches JsonValue::Obj(ms) ==> json_text(val) =~= seq!['{']
                            + seq!['}']);
                        assert(pairs_prefix(orig, 1) == str_text(orig@[0].0@) + seq![':']
                            + json_text(orig@[0].1));
                        assert(document_text(d) =~= json_text(JsonValue::Obj(orig)));
                    }
                    Option::Some(d)
                } else {
                    Option::None
                }
            },
            _ => Option::None,
        }
    }
}

} // verus!
