use rover_ops::coordinator::{
    HttpReply, NextAction, OperationCoordinator, Phase, SubmitError, SubmitResponse,
};
use rover_ops::types::RoverData;

fn sample(rover_id: i32, random_id: i32, image: Option<&str>) -> RoverData {
    RoverData {
        rover_id,
        random_id,
        battery_status: "3.7".to_string(),
        temp: "21.5".to_string(),
        humidity: "40.0".to_string(),
        image_data: image.map(|s| s.to_string()),
    }
}

#[test]
fn start_writes_intake_checkpoint_and_asks_for_status() {
    let (c, step) = OperationCoordinator::start(sample(42, 7, Some("img")));
    assert_eq!(c.current_phase(), Phase::AwaitStatus);
    assert_eq!(c.checkpoint_key(), "42".to_string());
    assert_eq!(step.writes.len(), 1);
    let w = &step.writes[0];
    assert!(w.one && !w.two && !w.three && !w.four && !w.five && !w.six);
    assert_eq!(w.error, "".to_string());
    match step.next {
        NextAction::FetchDeviceStatus { device_id } => assert_eq!(device_id, 42),
        other => panic!("unexpected action: {:?}", other),
    }
}

#[test]
fn blocked_device_short_circuits_with_code_two() {
    let (mut c, _) = OperationCoordinator::start(sample(7, 9, Some("img")));
    let step = c.on_device_status(Ok("2".to_string()));
    assert_eq!(c.current_phase(), Phase::Done);
    assert_eq!(step.writes.len(), 1);
    let w = &step.writes[0];
    assert!(w.one && !w.two && !w.three && !w.four && !w.five && !w.six);
    assert_eq!(w.error, "status is 2".to_string());
    match step.next {
        NextAction::Finish { response: SubmitResponse::Outcome(o) } => {
            assert_eq!(o.rover_state, 2);
            assert_eq!(o.random_id, "9".to_string());
            assert_eq!(o.base64_image, "".to_string());
            assert!(o.image_result.is_empty());
        },
        other => panic!("unexpected action: {:?}", other),
    }
}

#[test]
fn suspended_device_short_circuits_with_code_three() {
    let (mut c, _) = OperationCoordinator::start(sample(7, 9, Some("img")));
    let step = c.on_device_status(Ok("3".to_string()));
    assert_eq!(c.current_phase(), Phase::Done);
    assert_eq!(step.writes[0].error, "status is 3".to_string());
    match step.next {
        NextAction::Finish { response: SubmitResponse::Outcome(o) } => {
            assert_eq!(o.rover_state, 3);
            assert!(o.image_result.is_empty());
        },
        other => panic!("unexpected action: {:?}", other),
    }
}

#[test]
fn store_error_at_status_gate_aborts_the_run() {
    let (mut c, _) = OperationCoordinator::start(sample(1, 2, Some("img")));
    let step = c.on_device_status(Err("connection refused".to_string()));
    assert_eq!(c.current_phase(), Phase::Done);
    assert_eq!(step.writes.len(), 1);
    assert_eq!(step.writes[0].error, "connection refused".to_string());
    match step.next {
        NextAction::Finish { response: SubmitResponse::Fault(SubmitError::Upstream(m)) } => {
            assert_eq!(m, "Database query failed: connection refused".to_string());
        },
        other => panic!("unexpected action: {:?}", other),
    }
}

#[test]
fn missing_payload_is_a_soft_failure_with_code_four() {
    let (mut c, _) = OperationCoordinator::start(sample(5, 6, None));
    let step = c.on_device_status(Ok("1".to_string()));
    assert_eq!(c.current_phase(), Phase::Done);
    let w = &step.writes[0];
    assert!(w.one && w.two && !w.three);
    assert_eq!(w.error, "Image data is null".to_string());
    match step.next {
        NextAction::Finish { response: SubmitResponse::Outcome(o) } => {
            assert_eq!(o.rover_state, 4);
            assert!(o.image_result.is_empty());
        },
        other => panic!("unexpected action: {:?}", other),
    }
}

#[test]
fn empty_payload_is_a_soft_failure_with_code_four() {
    let (mut c, _) = OperationCoordinator::start(sample(5, 6, Some("")));
    let step = c.on_device_status(Ok("1".to_string()));
    match step.next {
        NextAction::Finish { response: SubmitResponse::Outcome(o) } => {
            assert_eq!(o.rover_state, 4);
            assert!(o.image_result.is_empty());
        },
        other => panic!("unexpected action: {:?}", other),
    }
}

#[test]
fn unrecognized_status_proceeds_with_error_cleared() {
    let (mut c, _) = OperationCoordinator::start(sample(5, 6, Some("img")));
    let step = c.on_device_status(Ok("7".to_string()));
    assert_eq!(c.current_phase(), Phase::AwaitEndpoint);
    let w = &step.writes[0];
    assert!(w.one && w.two && !w.three);
    assert_eq!(w.error, "".to_string());
    match step.next {
        NextAction::FetchEndpointUrl { key } => assert_eq!(key, "imageserverurl".to_string()),
        other => panic!("unexpected action: {:?}", other),
    }
}

#[test]
fn endpoint_error_aborts_the_run() {
    let (mut c, _) = OperationCoordinator::start(sample(5, 6, Some("img")));
    c.on_device_status(Ok("1".to_string()));
    let step = c.on_endpoint(Err("no url".to_string()));
    assert_eq!(c.current_phase(), Phase::Done);
    assert_eq!(step.writes[0].error, "no url".to_string());
    match step.next {
        NextAction::Finish { response: SubmitResponse::Fault(SubmitError::Upstream(m)) } => {
            assert_eq!(m, "no url".to_string());
        },
        other => panic!("unexpected action: {:?}", other),
    }
}

#[test]
fn analysis_request_carries_the_payload_as_a_json_string_field() {
    let (mut c, _) = OperationCoordinator::start(sample(5, 6, Some("b64payload")));
    c.on_device_status(Ok("1".to_string()));
    let step = c.on_endpoint(Ok("http://svc/data".to_string()));
    assert_eq!(c.current_phase(), Phase::AwaitAnalysis);
    assert_eq!(step.writes.len(), 0);
    match step.next {
        NextAction::CallAnalysis { url, body } => {
            assert_eq!(url, "http://svc/data".to_string());
            assert_eq!(body, "{\"image\":\"b64payload\"}".to_string());
        },
        other => panic!("unexpected action: {:?}", other),
    }
}

#[test]
fn transport_failure_aborts_the_run() {
    let (mut c, _) = OperationCoordinator::start(sample(5, 6, Some("img")));
    c.on_device_status(Ok("1".to_string()));
    c.on_endpoint(Ok("http://svc".to_string()));
    let step = c.on_analysis(Err("timed out".to_string()));
    assert_eq!(c.current_phase(), Phase::Done);
    assert_eq!(
        step.writes[0].error,
        "response from image processing API error".to_string()
    );
    match step.next {
        NextAction::Finish { response: SubmitResponse::Fault(SubmitError::Upstream(m)) } => {
            assert_eq!(m, "Request error: timed out".to_string());
        },
        other => panic!("unexpected action: {:?}", other),
    }
}

#[test]
fn non_2xx_reply_is_a_soft_failure_with_placeholder_image() {
    let (mut c, _) = OperationCoordinator::start(sample(5, 6, Some("img")));
    c.on_device_status(Ok("1".to_string()));
    c.on_endpoint(Ok("http://svc".to_string()));
    let step = c.on_analysis(Ok(HttpReply {
        status_code: 503,
        body: "busy".to_string(),
    }));
    assert_eq!(c.current_phase(), Phase::Done);
    assert_eq!(step.writes[0].error, "busy".to_string());
    match step.next {
        NextAction::Finish { response: SubmitResponse::Outcome(o) } => {
            assert_eq!(o.rover_state, 4);
            assert_eq!(o.base64_image, "Image Processing is not working".to_string());
            assert!(!o.base64_image.is_empty());
            assert!(o.image_result.is_empty());
        },
        other => panic!("unexpected action: {:?}", other),
    }
}

#[test]
fn undecodable_2xx_reply_aborts_as_a_decoding_failure() {
    let (mut c, _) = OperationCoordinator::start(sample(5, 6, Some("img")));
    c.on_device_status(Ok("1".to_string()));
    c.on_endpoint(Ok("http://svc".to_string()));
    let step = c.on_analysis(Ok(HttpReply {
        status_code: 200,
        body: "not json".to_string(),
    }));
    assert_eq!(c.current_phase(), Phase::Done);
    assert_eq!(step.writes[0].error, "JSON parse error".to_string());
    match step.next {
        NextAction::Finish {
            response: SubmitResponse::Fault(SubmitError::Serialization(m)),
        } => {
            assert_eq!(m, "JSON parse error".to_string());
        },
        other => panic!("unexpected action: {:?}", other),
    }
}

#[test]
fn persist_error_aborts_the_run() {
    let (mut c, _) = OperationCoordinator::start(sample(5, 6, Some("img")));
    c.on_device_status(Ok("1".to_string()));
    c.on_endpoint(Ok("http://svc".to_string()));
    c.on_analysis(Ok(HttpReply {
        status_code: 200,
        body: "{\"status\":1,\"image\":\"out\",\"coordinates\":[]}".to_string(),
    }));
    let step = c.on_persist(Err("insert failed".to_string()));
    assert_eq!(c.current_phase(), Phase::Done);
    assert_eq!(step.writes[0].error, "insert failed".to_string());
    match step.next {
        NextAction::Finish { response: SubmitResponse::Fault(SubmitError::Upstream(m)) } => {
            assert_eq!(m, "Database insertion failed: insert failed".to_string());
        },
        other => panic!("unexpected action: {:?}", other),
    }
}

#[test]
fn persistence_inconsistency_is_recorded_but_does_not_abort() {
    let (mut c, _) = OperationCoordinator::start(sample(5, 6, Some("img")));
    c.on_device_status(Ok("1".to_string()));
    c.on_endpoint(Ok("http://svc".to_string()));
    c.on_analysis(Ok(HttpReply {
        status_code: 200,
        body: "{\"status\":1,\"image\":\"out\",\"coordinates\":[]}".to_string(),
    }));
    let step = c.on_persist(Ok(Some("0".to_string())));
    assert_eq!(step.writes.len(), 2);
    assert_eq!(step.writes[0].error, "".to_string());
    assert!(step.writes[0].five && !step.writes[0].six);
    assert_eq!(step.writes[1].error, "Error on storing DB".to_string());
    assert!(step.writes[1].six);
    match step.next {
        NextAction::Finish { response: SubmitResponse::Outcome(o) } => {
            assert_eq!(o.rover_state, 1);
        },
        other => panic!("unexpected action: {:?}", other),
    }
}

#[test]
fn missing_persistence_result_is_recorded_but_does_not_abort() {
    let (mut c, _) = OperationCoordinator::start(sample(5, 6, Some("img")));
    c.on_device_status(Ok("1".to_string()));
    c.on_endpoint(Ok("http://svc".to_string()));
    c.on_analysis(Ok(HttpReply {
        status_code: 200,
        body: "{\"status\":1,\"image\":\"out\",\"coordinates\":[]}".to_string(),
    }));
    let step = c.on_persist(Ok(None));
    assert_eq!(
        step.writes[1].error,
        "Failed to retrieve result value".to_string()
    );
    match step.next {
        NextAction::Finish { response: SubmitResponse::Outcome(o) } => {
            assert_eq!(o.rover_state, 1);
        },
        other => panic!("unexpected action: {:?}", other),
    }
}

#[test]
fn full_run_returns_the_reply_coordinates_in_order_and_completes_all_stages() {
    // deviceId 42, active status, one detected coordinate
    let (mut c, step) = OperationCoordinator::start(sample(42, 1, Some("b64payload")));
    assert!(step.writes[0].one);
    let step = c.on_device_status(Ok("1".to_string()));
    assert!(step.writes[0].two);
    let step = c.on_endpoint(Ok("http://svc/data".to_string()));
    match step.next {
        NextAction::CallAnalysis { body, .. } => {
            assert_eq!(body, "{\"image\":\"b64payload\"}".to_string());
        },
        other => panic!("unexpected action: {:?}", other),
    }
    let body = "{\"status\":1,\"image\":\"out\",\"coordinates\":[{\"x\":100,\"y\":500,\"confidence\":0.5}]}";
    let step = c.on_analysis(Ok(HttpReply { status_code: 200, body: body.to_string() }));
    assert_eq!(step.writes.len(), 2);
    assert!(step.writes[0].three && !step.writes[0].four);
    assert!(step.writes[1].three && step.writes[1].four);
    match step.next {
        NextAction::PersistResult {
            device_id,
            sample_id,
            battery,
            temp,
            humidity,
            result_image,
            coordinates_json,
        } => {
            assert_eq!(device_id, 42);
            assert_eq!(sample_id, 1);
            assert_eq!(battery, "3.7".to_string());
            assert_eq!(temp, "21.5".to_string());
            assert_eq!(humidity, "40.0".to_string());
            assert_eq!(result_image, "out".to_string());
            assert_eq!(
                coordinates_json,
                "[{\"x\":100,\"y\":500,\"confidence\":0.5}]".to_string()
            );
        },
        other => panic!("unexpected action: {:?}", other),
    }
    let step = c.on_persist(Ok(Some("1".to_string())));
    assert_eq!(step.writes.len(), 2);
    let last = &step.writes[1];
    assert!(last.one && last.two && last.three && last.four && last.five && last.six);
    assert_eq!(last.error, "".to_string());
    match step.next {
        NextAction::Finish { response: SubmitResponse::Outcome(o) } => {
            assert_eq!(o.rover_state, 1);
            assert_eq!(o.random_id, "1".to_string());
            assert_eq!(o.base64_image, "".to_string());
            assert_eq!(o.image_result.len(), 1);
            assert_eq!(o.image_result[0].x, "100".to_string());
            assert_eq!(o.image_result[0].y, "500".to_string());
            assert_eq!(o.image_result[0].confidence, "0.5".to_string());
        },
        other => panic!("unexpected action: {:?}", other),
    }
}

#[test]
fn coordinates_keep_the_reply_order() {
    let (mut c, _) = OperationCoordinator::start(sample(8, 3, Some("img")));
    c.on_device_status(Ok("1".to_string()));
    c.on_endpoint(Ok("http://svc".to_string()));
    let body = "{\"status\":1,\"image\":\"im\",\"coordinates\":[{\"x\":1,\"y\":2,\"confidence\":0.9},{\"x\":3,\"y\":4,\"confidence\":0.8},{\"x\":5,\"y\":6,\"confidence\":0.7}]}";
    c.on_analysis(Ok(HttpReply { status_code: 200, body: body.to_string() }));
    let step = c.on_persist(Ok(Some("1".to_string())));
    match step.next {
        NextAction::Finish { response: SubmitResponse::Outcome(o) } => {
            let xs: Vec<&str> = o.image_result.iter().map(|c| c.x.as_str()).collect();
            assert_eq!(xs, vec!["1", "3", "5"]);
            let confs: Vec<&str> = o.image_result.iter().map(|c| c.confidence.as_str()).collect();
            assert_eq!(confs, vec!["0.9", "0.8", "0.7"]);
        },
        other => panic!("unexpected action: {:?}", other),
    }
}

#[test]
fn checkpoint_flags_only_rise_across_a_run() {
    let (mut c, step0) = OperationCoordinator::start(sample(9, 4, Some("img")));
    let mut seen = step0.writes;
    seen.extend(c.on_device_status(Ok("1".to_string())).writes);
    seen.extend(c.on_endpoint(Ok("http://svc".to_string())).writes);
    seen.extend(
        c
            .on_analysis(Ok(HttpReply {
                status_code: 200,
                body: "{\"status\":1,\"image\":\"x\",\"coordinates\":[]}".to_string(),
            }))
            .writes,
    );
    seen.extend(c.on_persist(Ok(Some("1".to_string()))).writes);
    for pair in seen.windows(2) {
        let (a, b) = (&pair[0], &pair[1]);
        assert!(!a.one || b.one);
        assert!(!a.two || b.two);
        assert!(!a.three || b.three);
        assert!(!a.four || b.four);
        assert!(!a.five || b.five);
        assert!(!a.six || b.six);
    }
}

#[test]
fn spaced_analysis_reply_is_accepted() {
    let (mut c, _) = OperationCoordinator::start(sample(8, 3, Some("img")));
    c.on_device_status(Ok("1".to_string()));
    c.on_endpoint(Ok("http://svc".to_string()));
    let body = "{\"status\": 1, \"image\": \"out\", \"coordinates\": [{\"x\": 1, \"y\": 2, \"confidence\": 0.5}]}";
    let step = c.on_analysis(Ok(HttpReply { status_code: 200, body: body.to_string() }));
    match step.next {
        NextAction::PersistResult { result_image, coordinates_json, .. } => {
            assert_eq!(result_image, "out".to_string());
            assert_eq!(
                coordinates_json,
                "[{\"x\":1,\"y\":2,\"confidence\":0.5}]".to_string()
            );
        },
        other => panic!("unexpected action: {:?}", other),
    }
}

#[test]
fn checkpoint_key_is_the_decimal_device_id() {
    let (c, _) = OperationCoordinator::start(sample(-17, 0, None));
    assert_eq!(c.checkpoint_key(), "-17".to_string());
}
