use rover_ops::types::OperationState;

fn state(flags: [bool; 6], time: &str, error: &str) -> OperationState {
    OperationState {
        one: flags[0],
        two: flags[1],
        three: flags[2],
        four: flags[3],
        five: flags[4],
        six: flags[5],
        time: time.to_string(),
        error: error.to_string(),
    }
}

#[test]
fn checkpoint_text_is_the_canonical_object() {
    let st = state([true, false, false, false, false, false], "1700000000", "");
    assert_eq!(
        st.to_json(),
        "{\"one\":true,\"two\":false,\"three\":false,\"four\":false,\"five\":false,\"six\":false,\"time\":\"1700000000\",\"error\":\"\"}"
            .to_string()
    );
}

#[test]
fn checkpoint_text_escapes_quotes_and_backslashes() {
    let st = state([true, true, false, false, false, false], "5", "a \"b\" \\ c\nd");
    assert_eq!(
        st.to_json(),
        "{\"one\":true,\"two\":true,\"three\":false,\"four\":false,\"five\":false,\"six\":false,\"time\":\"5\",\"error\":\"a \\\"b\\\" \\\\ c\\nd\"}"
            .to_string()
    );
}

#[test]
fn decoding_the_stored_text_returns_the_same_checkpoint() {
    let st = state([true, true, true, false, false, false], "1700000001", "late error");
    let text = st.to_json();
    let back = OperationState::from_json(text.as_str()).expect("canonical text decodes");
    assert_eq!(back, st);
}

#[test]
fn decoding_round_trips_escaped_fields() {
    let st = state(
        [true, true, true, true, true, true],
        "0",
        "quote \" backslash \\ newline \n tab \t return \r done",
    );
    let text = st.to_json();
    let back = OperationState::from_json(text.as_str()).expect("canonical text decodes");
    assert_eq!(back, st);
}

#[test]
fn repeated_decoding_of_one_stored_value_is_identical() {
    let st = state([true, true, false, false, false, false], "1700000002", "");
    let text = st.to_json();
    let first = OperationState::from_json(text.as_str()).expect("decodes");
    let second = OperationState::from_json(text.as_str()).expect("decodes");
    assert_eq!(first, second);
}

#[test]
fn garbage_is_rejected() {
    assert_eq!(OperationState::from_json(""), None);
    assert_eq!(OperationState::from_json("{}"), None);
    assert_eq!(OperationState::from_json("not a checkpoint"), None);
    assert_eq!(
        OperationState::from_json("{\"one\":true,\"two\":false}"),
        None
    );
}

#[test]
fn non_canonical_spacing_is_rejected() {
    // the reader accepts exactly what the writer emits
    assert_eq!(
        OperationState::from_json(
            "{\"one\": true,\"two\":false,\"three\":false,\"four\":false,\"five\":false,\"six\":false,\"time\":\"1\",\"error\":\"\"}"
        ),
        None
    );
}

#[test]
fn trailing_text_is_rejected() {
    let st = state([true, false, false, false, false, false], "1", "");
    let mut text = st.to_json();
    text.push('x');
    assert_eq!(OperationState::from_json(text.as_str()), None);
}

#[test]
fn unknown_escape_is_rejected() {
    assert_eq!(
        OperationState::from_json(
            "{\"one\":true,\"two\":false,\"three\":false,\"four\":false,\"five\":false,\"six\":false,\"time\":\"1\",\"error\":\"\\q\"}"
        ),
        None
    );
}

#[test]
fn reordered_fields_are_rejected() {
    assert_eq!(
        OperationState::from_json(
            "{\"two\":false,\"one\":true,\"three\":false,\"four\":false,\"five\":false,\"six\":false,\"time\":\"1\",\"error\":\"\"}"
        ),
        None
    );
}
