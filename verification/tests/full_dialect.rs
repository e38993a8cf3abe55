use amicis::json::JsonValue;
use amicis::v1::links::{Link, LinksObject};
use amicis::v1::resource::{
    RelationshipObject, ResourceIdentifierObject, ResourceLinkage, ResourceObject,
};
use amicis::v1::{Data, Document, ErrorObject};

fn resource_json(r: &ResourceObject) -> String {
    let mut out = String::new();
    amicis::v1::resource::write_resource(r, &mut out);
    out
}

fn link_json(l: &Link) -> String {
    let mut out = String::new();
    amicis::v1::links::write_link(l, &mut out);
    out
}

fn relationship_json(r: &RelationshipObject) -> String {
    let mut out = String::new();
    amicis::v1::resource::write_relationship(r, &mut out);
    out
}

#[test]
fn empty_relationships_key_omitted() {
    let r = ResourceObject::new("widget", "1")
        .attribute(String::from("name"), JsonValue::Str(String::from("x")));
    let text = resource_json(&r);
    assert_eq!(
        text,
        r#"{"type":"widget","id":"1","attributes":{"name":"x"},"links":{}}"#
    );
    assert!(!text.contains("relationships"));
}

#[test]
fn populated_relationships_key_present() {
    let rel = RelationshipObject::builder()
        .data(ResourceLinkage::to_one(ResourceIdentifierObject::new("widget", "2")))
        .build();
    let r = ResourceObject::new("widget", "1").relationship(String::from("parts"), rel);
    let text = resource_json(&r);
    assert_eq!(
        text,
        r#"{"type":"widget","id":"1","attributes":{},"relationships":{"parts":{"data":{"type":"widget","id":"2"}}},"links":{}}"#
    );
}

#[test]
fn shorthand_link_serializes_as_string() {
    let l = Link::from_uri("/api/things/1");
    assert_eq!(link_json(&l), r#""/api/things/1""#);
    let l2 = Link::builder().href("/api/things/2").build();
    assert_eq!(link_json(&l2), r#""/api/things/2""#);
}

#[test]
fn link_with_optional_fields_serializes_as_object() {
    let l = Link::builder().href("/api/things/1").title("A thing").build();
    assert_eq!(link_json(&l), r#"{"href":"/api/things/1","title":"A thing"}"#);

    let l2 = Link::builder()
        .href("/api/things/1")
        .rel("item")
        .kind("thing")
        .hreflang("en")
        .build();
    assert_eq!(
        link_json(&l2),
        r#"{"href":"/api/things/1","rel":"item","type":"thing","hreflang":"en"}"#
    );

    let inner = Link::from_uri("/api/schema");
    let l3 = Link::builder().href("/api/things/1").described_by(inner).build();
    assert_eq!(
        link_json(&l3),
        r#"{"href":"/api/things/1","describedby":"/api/schema"}"#
    );
}

#[test]
fn relationship_always_carries_links_or_data() {
    let mut links = LinksObject::new();
    links.insert(String::from("self"), Link::from_uri("/api/widgets/1/parts"));
    let with_links = RelationshipObject::builder().links(links).build();
    assert!(with_links.check_links_or_data());
    assert_eq!(
        relationship_json(&with_links),
        r#"{"links":{"self":"/api/widgets/1/parts"}}"#
    );

    let with_data = RelationshipObject::builder()
        .data(ResourceLinkage::to_many(vec![
            ResourceIdentifierObject::new("widget", "2"),
            ResourceIdentifierObject::new("widget", "3"),
        ]))
        .build();
    assert!(with_data.check_links_or_data());
    assert_eq!(
        relationship_json(&with_data),
        r#"{"data":[{"type":"widget","id":"2"},{"type":"widget","id":"3"}]}"#
    );

    let mut links2 = LinksObject::new();
    links2.insert(String::from("related"), Link::from_uri("/api/related"));
    let with_both = RelationshipObject::builder()
        .links(links2)
        .data(ResourceLinkage::to_one_nullable(None))
        .build();
    assert!(with_both.check_links_or_data());
    assert_eq!(
        relationship_json(&with_both),
        r#"{"links":{"related":"/api/related"},"data":null}"#
    );
}

#[test]
fn document_carries_exactly_one_of_data_and_error() {
    let data_doc = Document::builder()
        .data(Data::builder().resource(ResourceObject::new("widget", "1")).build())
        .build();
    let data_text = data_doc.to_json_text();
    assert!(data_text.starts_with(r#"{"data":"#));
    assert!(!data_text.contains(r#""error""#));

    let error_doc = Document::builder().error(ErrorObject).build();
    let error_text = error_doc.to_json_text();
    assert_eq!(error_text, r#"{"error":{}}"#);
    assert!(!error_text.contains(r#""data""#));
}

#[test]
fn identifier_collection_document() {
    let doc = Document::builder()
        .data(
            Data::builder()
                .resource_identifiers(vec![
                    ResourceIdentifierObject::new("widget", "1"),
                    ResourceIdentifierObject::new("widget", "2"),
                ])
                .build(),
        )
        .build();
    assert_eq!(
        doc.to_json_text(),
        r#"{"data":[{"type":"widget","id":"1"},{"type":"widget","id":"2"}]}"#
    );
}

#[test]
fn resource_collection_document() {
    let doc = Document::builder()
        .data(
            Data::builder()
                .resources(vec![
                    ResourceObject::new("widget", "1"),
                    ResourceObject::new("widget", "2"),
                ])
                .build(),
        )
        .build();
    assert_eq!(
        doc.to_json_text(),
        r#"{"data":[{"type":"widget","id":"1","attributes":{},"links":{}},{"type":"widget","id":"2","attributes":{},"links":{}}]}"#
    );
}

/// Parses the compact JSON the encoder emits back into the library's
/// value model, preserving member order.
fn parse_value(b: &[u8], i: usize) -> Option<(JsonValue, usize)> {
    match b[i] {
        b'n' => {
            if b[i..].starts_with(b"null") {
                Some((JsonValue::Null, i + 4))
            } else {
                None
            }
        }
        b't' => {
            if b[i..].starts_with(b"true") {
                Some((JsonValue::Bool(true), i + 4))
            } else {
                None
            }
        }
        b'f' => {
            if b[i..].starts_with(b"false") {
                Some((JsonValue::Bool(false), i + 5))
            } else {
                None
            }
        }
        b'"' => {
            let (s, j) = parse_string(b, i + 1)?;
            Some((JsonValue::Str(s), j))
        }
        b'[' => {
            let mut items = Vec::new();
            let mut j = i + 1;
            if b[j] == b']' {
                return Some((JsonValue::Arr(items), j + 1));
            }
            loop {
                let (v, k) = parse_value(b, j)?;
                items.push(v);
                match b[k] {
                    b',' => j = k + 1,
                    b']' => return Some((JsonValue::Arr(items), k + 1)),
                    _ => return None,
                }
            }
        }
        b'{' => {
            let mut members = Vec::new();
            let mut j = i + 1;
            if b[j] == b'}' {
                return Some((JsonValue::Obj(members), j + 1));
            }
            loop {
                if b[j] != b'"' {
                    return None;
                }
                let (key, k) = parse_string(b, j + 1)?;
                if b[k] != b':' {
                    return None;
                }
                let (v, m) = parse_value(b, k + 1)?;
                members.push((key, v));
                match b[m] {
                    b',' => j = m + 1,
                    b'}' => return Some((JsonValue::Obj(members), m + 1)),
                    _ => return None,
                }
            }
        }
        b'-' | b'0'..=b'9' => {
            let mut j = i;
            if b[j] == b'-' {
                j += 1;
            }
            while j < b.len() && b[j].is_ascii_digit() {
                j += 1;
            }
            let n: i64 = std::str::from_utf8(&b[i..j]).ok()?.parse().ok()?;
            Some((JsonValue::Int(n), j))
        }
        _ => None,
    }
}

fn parse_string(b: &[u8], mut i: usize) -> Option<(String, usize)> {
    let mut out = String::new();
    loop {
        match b[i] {
            b'"' => return Some((out, i + 1)),
            b'\\' => {
                match b[i + 1] {
                    b'"' => out.push('"'),
                    b'\\' => out.push('\\'),
                    b'n' => out.push('\n'),
                    b'r' => out.push('\r'),
                    b't' => out.push('\t'),
                    _ => return None,
                }
                i += 2;
            }
            c if c < 0x80 => {
                out.push(c as char);
                i += 1;
            }
            _ => {
                let text = std::str::from_utf8(&b[i..]).ok()?;
                let ch = text.chars().next()?;
                out.push(ch);
                i += ch.len_utf8();
            }
        }
    }
}

fn parse_document(text: &str) -> Option<Document> {
    let (v, end) = parse_value(text.as_bytes(), 0)?;
    if end != text.len() {
        return None;
    }
    Document::from_json(v)
}

#[test]
fn round_trip_single_resource_document() {
    let doc = Document::builder()
        .data(
            Data::builder()
                .resource(
                    ResourceObject::new("widget", "1")
                        .attribute(String::from("name"), JsonValue::Str(String::from("x"))),
                )
                .build(),
        )
        .build();
    let encoded = doc.to_json_text();
    let decoded: serde_json::Value = serde_json::from_str(&encoded).expect("valid JSON");
    let resource = &decoded["data"];
    assert_eq!(resource["type"], "widget");
    assert_eq!(resource["id"], "1");
    assert_eq!(resource["attributes"]["name"], "x");

    let document = parse_document(&encoded).expect("decodes");
    assert_eq!(document.to_json_text(), encoded);
}

#[test]
fn round_trip_identifier_collection_document() {
    let doc = Document::builder()
        .data(
            Data::builder()
                .resource_identifiers(vec![
                    ResourceIdentifierObject::new("widget", "1"),
                    ResourceIdentifierObject::new("widget", "2"),
                ])
                .build(),
        )
        .build();
    let encoded = doc.to_json_text();
    let document = parse_document(&encoded).expect("decodes");
    assert_eq!(document.to_json_text(), encoded);
}

#[test]
fn round_trip_error_document() {
    let doc = Document::builder().error(ErrorObject).build();
    let encoded = doc.to_json_text();
    let document = parse_document(&encoded).expect("decodes");
    assert_eq!(document.to_json_text(), encoded);
}

#[test]
fn malformed_documents_are_rejected() {
    // A bare scalar where a resource or identifier is expected.
    assert!(parse_document(r#"{"data":"widget"}"#).is_none());
    // An object with neither the resource nor the identifier shape.
    assert!(parse_document(r#"{"data":{}}"#).is_none());
    // A collection mixing identifiers into a resource collection.
    assert!(parse_document(
        r#"{"data":[{"type":"widget","id":"1","attributes":{},"links":{}},{"type":"widget","id":"2"}]}"#
    )
    .is_none());
    // An identifier with an empty id.
    assert!(parse_document(r#"{"data":{"type":"widget","id":""}}"#).is_none());
    // An error body that is not an empty object.
    assert!(parse_document(r#"{"error":{"code":1}}"#).is_none());
    // Two top-level members.
    assert!(parse_document(r#"{"data":{"type":"widget","id":"1"},"error":{}}"#).is_none());
}

#[test]
fn encoding_twice_is_byte_identical() {
    let doc = Document::builder()
        .data(
            Data::builder()
                .resource(
                    ResourceObject::new("widget", "1")
                        .attribute(String::from("count"), JsonValue::Int(3))
                        .attribute(String::from("flag"), JsonValue::Bool(true)),
                )
                .build(),
        )
        .build();
    let first = doc.to_json_text();
    let second = doc.to_json_text();
    assert_eq!(first.as_bytes(), second.as_bytes());
}

#[test]
fn attribute_insertion_replaces_and_keeps_order() {
    let r = ResourceObject::new("widget", "1")
        .attribute(String::from("a"), JsonValue::Int(1))
        .attribute(String::from("b"), JsonValue::Int(2))
        .attribute(String::from("a"), JsonValue::Int(9));
    assert_eq!(
        resource_json(&r),
        r#"{"type":"widget","id":"1","attributes":{"a":9,"b":2},"links":{}}"#
    );
}

#[test]
fn json_value_encoding_covers_every_shape() {
    let r = ResourceObject::new("widget", "1")
        .attribute(String::from("s"), JsonValue::Str(String::from("he said \"hi\"\n")))
        .attribute(String::from("neg"), JsonValue::Int(-45))
        .attribute(String::from("zero"), JsonValue::Int(0))
        .attribute(String::from("big"), JsonValue::Int(9007199254740993))
        .attribute(String::from("null"), JsonValue::Null)
        .attribute(
            String::from("arr"),
            JsonValue::Arr(vec![
                JsonValue::Bool(false),
                JsonValue::Obj(vec![(String::from("k"), JsonValue::Int(7))]),
            ]),
        );
    assert_eq!(
        resource_json(&r),
        "{\"type\":\"widget\",\"id\":\"1\",\"attributes\":{\"s\":\"he said \\\"hi\\\"\\n\",\"neg\":-45,\"zero\":0,\"big\":9007199254740993,\"null\":null,\"arr\":[false,{\"k\":7}]},\"links\":{}}"
    );
}

#[test]
fn control_characters_are_escaped() {
    let r = ResourceObject::new("widget", "1")
        .attribute(String::from("c"), JsonValue::Str(String::from("\u{1}\t")));
    assert_eq!(
        resource_json(&r),
        "{\"type\":\"widget\",\"id\":\"1\",\"attributes\":{\"c\":\"\\u0001\\t\"},\"links\":{}}"
    );
}
