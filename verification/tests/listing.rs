use amicis::web::{
    correspondences_document, health_status, home_screen_example_document, CorrespondenceTeaser,
    HealthStatus, ResourceType, TransmissionTeaser,
};

#[test]
fn health_is_up() {
    let status = health_status();
    assert_eq!(status, HealthStatus::Up);
    assert_eq!(status.label(), "Up");
    assert_eq!(HealthStatus::Down.label(), "Down");
}

#[test]
fn resource_type_labels() {
    assert_eq!(ResourceType::CorrespondenceOverview.label(), "correspondence:overview");
    assert_eq!(ResourceType::CorrespondenceTeaser.label(), "correspondence:teaser");
    assert_eq!(ResourceType::TransmissionTeaser.label(), "transmission:teaser");
}

#[test]
fn correspondences_listing_serializes() {
    let doc = correspondences_document();
    let text = doc.to_json_text();
    let parsed: serde_json::Value = serde_json::from_str(&text).expect("valid JSON");
    assert_eq!(parsed["data"]["kind"], "CorrespondenceOverview");
    assert_eq!(parsed["data"]["uri"], "/correspondences");
    assert_eq!(parsed["data"]["attributes"]["title"], "Correspondences");
    let links = &parsed["data"]["relationships"]["correspondences"];
    assert_eq!(links.as_array().expect("array").len(), 2);
    assert_eq!(links[0]["href"], "/correspondences/1");
    assert_eq!(links[0]["target_title"], "Keeping in touch");
    assert_eq!(links[0]["target_type"], serde_json::Value::Null);
    let included = parsed["included"].as_array().expect("array");
    assert_eq!(included.len(), 3);
    assert_eq!(included[0]["uri"], "/correspondences/1");
    assert_eq!(included[1]["uri"], "/correspondences/2");
    assert_eq!(included[2]["kind"], "TransmissionTeaser");
    assert_eq!(included[2]["attributes"]["body"], "Wazzup, bruh?");
    assert_eq!(included[1]["relationships"], serde_json::Value::Null);
}

#[test]
fn transmission_teaser_cuts_subject_to_preview() {
    let teaser = TransmissionTeaser::new(
        "7d0b0a51-37d5-4e55-b2d8-d6d8bbd3f3e6",
        "Wazzup, bruh?",
        "Trying this out. Here is some snipped content for the preview text. This will be cut out.",
    );
    let resource = teaser.into_resource();
    let mut out = String::new();
    amicis::v2::write_resource(&resource, &mut out);
    let parsed: serde_json::Value = serde_json::from_str(&out).expect("valid JSON");
    assert_eq!(parsed["type"], "transmission:teaser");
    assert_eq!(
        parsed["uri"],
        "/api/transmissions/7d0b0a51-37d5-4e55-b2d8-d6d8bbd3f3e6"
    );
    assert_eq!(
        parsed["attributes"]["subject"],
        "Trying this out. Here is some snipped content for the preview tex..."
    );
}

#[test]
fn correspondence_teaser_counts_transmissions() {
    let transmission = TransmissionTeaser::new(
        "42",
        "body text",
        "A subject line that is definitely long enough to be cut by the preview logic.",
    );
    let teaser = CorrespondenceTeaser::new("1", "Keeping in touch", vec![transmission]);
    let resource = teaser.into_resource();
    let mut out = String::new();
    amicis::v2::write_resource(&resource, &mut out);
    let parsed: serde_json::Value = serde_json::from_str(&out).expect("valid JSON");
    assert_eq!(parsed["type"], "correspondence:teaser");
    assert_eq!(parsed["uri"], "/api/correspondences/1");
    assert_eq!(parsed["attributes"]["transmission_count"], 1);
    assert_eq!(
        parsed["relationships"]["transmissions"][0]["href"],
        "/api/transmissions/42"
    );
}

#[test]
fn home_screen_example_shape() {
    let doc = home_screen_example_document("7d0b0a51-37d5-4e55-b2d8-d6d8bbd3f3e6");
    let text = doc.to_json_text();
    let parsed: serde_json::Value = serde_json::from_str(&text).expect("valid JSON");
    assert_eq!(parsed["data"]["type"], "correspondence:overview");
    assert_eq!(parsed["data"]["uri"], "/api/correspondences");
    let included = parsed["included"].as_array().expect("array");
    assert_eq!(included.len(), 3);
    assert_eq!(included[0]["uri"], "/api/correspondences/1");
    assert_eq!(included[1]["uri"], "/api/correspondences/2");
    assert_eq!(
        included[2]["uri"],
        "/api/transmissions/7d0b0a51-37d5-4e55-b2d8-d6d8bbd3f3e6"
    );
    assert_eq!(included[0]["attributes"]["transmission_count"], 1);
    assert_eq!(included[1]["attributes"]["transmission_count"], 0);
}
