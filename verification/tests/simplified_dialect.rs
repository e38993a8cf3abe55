use amicis::json::JsonValue;
use amicis::v2::{Document, ProblemDetails, Relationship, RelationshipObject, Resource};

fn resource_json(r: &Resource) -> String {
    let mut out = String::new();
    amicis::v2::write_resource(r, &mut out);
    out
}

#[test]
fn teaser_resource_serializes_exactly() {
    let transmission = RelationshipObject::builder()
        .rel("item")
        .href("/api/transmissions/7d0b0a51-37d5-4e55-b2d8-d6d8bbd3f3e6")
        .build();
    let resource = Resource::builder()
        .kind("correspondence:teaser")
        .uri("/api/correspondences/1")
        .attribute(
            String::from("title"),
            JsonValue::Str(String::from("Keeping in touch")),
        )
        .relationship(
            String::from("transmissions"),
            Relationship::from_object(transmission),
        )
        .build();
    assert_eq!(
        resource_json(&resource),
        r#"{"type":"correspondence:teaser","uri":"/api/correspondences/1","attributes":{"title":"Keeping in touch"},"relationships":{"transmissions":{"rel":"item","href":"/api/transmissions/7d0b0a51-37d5-4e55-b2d8-d6d8bbd3f3e6"}}}"#
    );
}

#[test]
fn empty_maps_are_omitted() {
    let resource = Resource::builder().kind("thing").uri("/api/things/1").build();
    assert_eq!(resource_json(&resource), r#"{"type":"thing","uri":"/api/things/1"}"#);
}

#[test]
fn included_serializes_in_insertion_order() {
    let primary = Resource::builder().kind("overview").uri("/api/overview").build();
    let first = Resource::builder().kind("item").uri("/api/items/1").build();
    let second = Resource::builder().kind("item").uri("/api/items/2").build();
    let doc = Document::builder().data(primary).includes(first).includes(second).build();
    assert_eq!(
        doc.to_json_text(),
        r#"{"data":{"type":"overview","uri":"/api/overview"},"included":[{"type":"item","uri":"/api/items/1"},{"type":"item","uri":"/api/items/2"}]}"#
    );
}

#[test]
fn included_absent_without_includes() {
    let primary = Resource::builder().kind("overview").uri("/api/overview").build();
    let doc = Document::builder().data(primary).build();
    let text = doc.to_json_text();
    assert_eq!(text, r#"{"data":{"type":"overview","uri":"/api/overview"}}"#);
    assert!(!text.contains("included"));
}

#[test]
fn relationship_extensions_are_flattened() {
    let obj = RelationshipObject::builder()
        .rel("item")
        .href("/api/items/1")
        .extension(String::from("title"), JsonValue::Str(String::from("An item")))
        .build();
    let resource = Resource::builder()
        .kind("overview")
        .uri("/api/overview")
        .relationship(String::from("items"), Relationship::from_object(obj))
        .build();
    assert_eq!(
        resource_json(&resource),
        r#"{"type":"overview","uri":"/api/overview","relationships":{"items":{"rel":"item","href":"/api/items/1","title":"An item"}}}"#
    );
}

#[test]
fn relationship_list_serializes_as_array() {
    let one = RelationshipObject::builder().rel("item").href("/api/items/1").build();
    let two = RelationshipObject::builder().rel("item").href("/api/items/2").build();
    let resource = Resource::builder()
        .kind("overview")
        .uri("/api/overview")
        .relationship(String::from("items"), Relationship::from_vec(vec![one, two]))
        .build();
    assert_eq!(
        resource_json(&resource),
        r#"{"type":"overview","uri":"/api/overview","relationships":{"items":[{"rel":"item","href":"/api/items/1"},{"rel":"item","href":"/api/items/2"}]}}"#
    );
}

#[test]
fn empty_relationship_list_serializes_as_empty_array() {
    let resource = Resource::builder()
        .kind("overview")
        .uri("/api/overview")
        .relationship(String::from("items"), Relationship::from_vec(vec![]))
        .build();
    assert_eq!(
        resource_json(&resource),
        r#"{"type":"overview","uri":"/api/overview","relationships":{"items":[]}}"#
    );
}

#[test]
fn simplified_document_encoding_is_deterministic() {
    let primary = Resource::builder()
        .kind("overview")
        .uri("/api/overview")
        .attribute(String::from("n"), JsonValue::Int(7))
        .build();
    let doc = Document::builder().data(primary).build();
    assert_eq!(doc.to_json_text().as_bytes(), doc.to_json_text().as_bytes());
}

#[test]
fn problem_details_serializes_type() {
    let p = ProblemDetails::new("about:blank");
    assert_eq!(p.to_json_text(), r#"{"type":"about:blank"}"#);
}
