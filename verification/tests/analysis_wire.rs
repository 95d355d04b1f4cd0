use rover_ops::analysis::{
    compact_json_text, coords_json, image_call_json, parse_image_response, response_json,
};
use rover_ops::types::{ImageCoordinates, ImageResponse};

fn coord(x: &str, y: &str, confidence: &str) -> ImageCoordinates {
    ImageCoordinates { x: x.to_string(), y: y.to_string(), confidence: confidence.to_string() }
}

#[test]
fn request_text_quotes_and_escapes_the_payload() {
    assert_eq!(image_call_json("b64payload"), "{\"image\":\"b64payload\"}".to_string());
    assert_eq!(image_call_json(""), "{\"image\":\"\"}".to_string());
    assert_eq!(image_call_json("a\"b\\c"), "{\"image\":\"a\\\"b\\\\c\"}".to_string());
}

#[test]
fn coordinates_serialize_to_the_canonical_array() {
    let empty: Vec<ImageCoordinates> = Vec::new();
    assert_eq!(coords_json(&empty), "[]".to_string());
    let one = vec![coord("100", "500", "0.5")];
    assert_eq!(
        coords_json(&one),
        "[{\"x\":100,\"y\":500,\"confidence\":0.5}]".to_string()
    );
    let two = vec![coord("1.5", "-2", "0.25"), coord("3e2", "4", "1")];
    assert_eq!(
        coords_json(&two),
        "[{\"x\":1.5,\"y\":-2,\"confidence\":0.25},{\"x\":3e2,\"y\":4,\"confidence\":1}]"
            .to_string()
    );
}

#[test]
fn reply_text_decodes_to_its_fields() {
    let body = "{\"status\":1,\"image\":\"out\",\"coordinates\":[{\"x\":100,\"y\":500,\"confidence\":0.5}]}";
    let resp = parse_image_response(body).expect("canonical reply decodes");
    assert_eq!(resp.status, "1".to_string());
    assert_eq!(resp.image, "out".to_string());
    assert_eq!(resp.image_result.len(), 1);
    assert_eq!(resp.image_result[0], coord("100", "500", "0.5"));
}

#[test]
fn reply_with_no_coordinates_decodes() {
    let body = "{\"status\":0,\"image\":\"\",\"coordinates\":[]}";
    let resp = parse_image_response(body).expect("canonical reply decodes");
    assert_eq!(resp.status, "0".to_string());
    assert_eq!(resp.image, "".to_string());
    assert!(resp.image_result.is_empty());
}

#[test]
fn reply_round_trips_through_its_text() {
    let resp = ImageResponse {
        status: "1".to_string(),
        image: "processed \"image\"".to_string(),
        image_result: vec![coord("1", "2", "0.5"), coord("-3.25", "4e-2", "0.125")],
    };
    let text = response_json(&resp);
    let back = parse_image_response(text.as_str()).expect("canonical reply decodes");
    assert_eq!(back, resp);
}

#[test]
fn malformed_replies_are_rejected() {
    assert_eq!(parse_image_response(""), None);
    assert_eq!(parse_image_response("{}"), None);
    assert_eq!(parse_image_response("{\"status\":1}"), None);
    assert_eq!(
        parse_image_response("{\"status\":1,\"image\":\"out\",\"coordinates\":"),
        None
    );
    assert_eq!(
        parse_image_response(
            "{\"status\":1,\"image\":\"out\",\"coordinates\":[{\"x\":1,\"y\":2}]}"
        ),
        None
    );
    // the raw spaced form is not canonical; it decodes once compacted
    assert_eq!(
        parse_image_response("{\"status\": 1, \"image\": \"out\", \"coordinates\": []}"),
        None
    );
    // trailing text is rejected
    assert_eq!(
        parse_image_response("{\"status\":1,\"image\":\"o\",\"coordinates\":[]}x"),
        None
    );
}

#[test]
fn compaction_drops_whitespace_outside_strings_only() {
    assert_eq!(
        compact_json_text("{\"status\": 1,\n  \"image\": \"a b\tc\", \"coordinates\": [] }\n"),
        "{\"status\":1,\"image\":\"a b\tc\",\"coordinates\":[]}".to_string()
    );
    assert_eq!(compact_json_text(""), "".to_string());
    assert_eq!(
        compact_json_text("\"esc \\\" kept \""),
        "\"esc \\\" kept \"".to_string()
    );
}

#[test]
fn spaced_reply_decodes_once_compacted() {
    let spaced = "{\"status\": 1, \"image\": \"out\", \"coordinates\": [{\"x\": 100, \"y\": 500, \"confidence\": 0.5}]}";
    let compact = compact_json_text(spaced);
    let resp = parse_image_response(compact.as_str()).expect("compacted reply decodes");
    assert_eq!(resp.image, "out".to_string());
    assert_eq!(resp.image_result.len(), 1);
}
