use niri_bar::json;
use niri_bar::json::Json;
use niri_bar::niri::ipc::{
    action_result, build_action_request, check_line, close_window, event_refusal, fetch_outputs, fetch_windows,
    fetch_workspaces, focus_window, move_window_to_column, move_window_to_monitor, parse_niri_response,
    read_answer, read_stream_line, resource_request, ReadError, StreamLine, MAX_LINE,
};
use niri_bar::niri::model::{truncate_opt, Event, WindowInfo, WorkspaceInfo};

fn read(line: &str) -> Event {
    match read_stream_line(line) {
        StreamLine::Event(e) => e,
        other => panic!("no event: {other:?}"),
    }
}

fn object(name: &str, value: Json) -> Json {
    Json::Object(vec![(name.to_string(), value)])
}

#[test]
fn test_workspace_info_lean_fields() {
    let ws = WorkspaceInfo {
        id: 1,
        output: Some("eDP-1".to_string()),
        is_active: true,
        is_focused: true,
    };
    assert_eq!(ws.id, 1);
    assert_eq!(ws.output.as_deref(), Some("eDP-1"));
    assert!(ws.is_active);
    assert!(ws.is_focused);
}

#[test]
fn test_deserialize_workspaces_changed() {
    let json = r#"{"WorkspacesChanged":{"workspaces":[{"id":1,"output":"eDP-1","is_active":true,"is_focused":true,"active_window_id":null}]}}"#;
    let event: Event = read(json);
    match event {
        Event::WorkspacesChanged { workspaces } => {
            assert_eq!(workspaces.len(), 1);
            assert_eq!(workspaces[0].id, 1);
            assert_eq!(workspaces[0].output.as_deref(), Some("eDP-1"));
        }
        _ => panic!("Expected WorkspacesChanged variant"),
    }
}

#[test]
fn test_deserialize_workspace_activated() {
    let json = r#"{"WorkspaceActivated":{"id":2,"focused":true}}"#;
    let event: Event = read(json);
    match event {
        Event::WorkspaceActivated { id, focused } => {
            assert_eq!(id, 2);
            assert!(focused);
        }
        _ => panic!("Expected WorkspaceActivated variant"),
    }
}

#[test]
fn test_deserialize_window_layouts_changed() {
    let json = r#"{"WindowLayoutsChanged":{"changes":[[42,{"pos_in_scrolling_layout":[1,0]}]]}}"#;
    let event: Event = read(json);
    match event {
        Event::WindowLayoutsChanged { changes } => {
            assert_eq!(changes.len(), 1);
            assert_eq!(changes[0].0, 42);
            assert_eq!(changes[0].1.pos_in_scrolling_layout, Some((1, 0)));
        }
        _ => panic!("Expected WindowLayoutsChanged variant"),
    }
}

#[test]
fn test_deserialize_unknown_event_to_other() {
    let json = r#"{"FutureNiriEvent":{"unknown_field":123}}"#;
    let event: Event = read(json);
    match event {
        Event::Other => {}
        _ => panic!("Expected Other variant for unknown event"),
    }
}

#[test]
fn test_deserialize_window_opened_or_changed() {
    let json = r#"{"WindowOpenedOrChanged":{"window":{"id":100,"title":"Terminal","app_id":"kitty","workspace_id":1,"is_focused":true,"layout":{"pos_in_scrolling_layout":[0,0]}}}}"#;
    let event: Event = read(json);
    match event {
        Event::WindowOpenedOrChanged { window } => {
            assert_eq!(window.id, 100);
            assert_eq!(window.title.as_deref(), Some("Terminal"));
            assert_eq!(window.app_id.as_deref(), Some("kitty"));
            assert_eq!(window.workspace_id, Some(1));
            assert!(window.is_focused);
            assert_eq!(window.layout.unwrap().pos_in_scrolling_layout, Some((0, 0)));
        }
        _ => panic!("Expected WindowOpenedOrChanged variant"),
    }
}

#[test]
fn test_deserialize_window_closed() {
    let json = r#"{"WindowClosed":{"id":100}}"#;
    let event: Event = read(json);
    match event {
        Event::WindowClosed { id } => {
            assert_eq!(id, 100);
        }
        _ => panic!("Expected WindowClosed variant"),
    }
}

#[test]
fn test_deserialize_window_focus_changed() {
    let json = r#"{"WindowFocusChanged":{"id":100}}"#;
    let event: Event = read(json);
    match event {
        Event::WindowFocusChanged { id } => {
            assert_eq!(id, Some(100));
        }
        _ => panic!("Expected WindowFocusChanged variant"),
    }

    let json_null = r#"{"WindowFocusChanged":{"id":null}}"#;
    let event_null: Event = read(json_null);
    match event_null {
        Event::WindowFocusChanged { id } => {
            assert_eq!(id, None);
        }
        _ => panic!("Expected WindowFocusChanged variant"),
    }
}

#[test]
fn test_deserialize_workspace_active_window_changed() {
    let json = r#"{"WorkspaceActiveWindowChanged":{"workspace_id":2,"active_window_id":55}}"#;
    let event: Event = read(json);
    match event {
        Event::WorkspaceActiveWindowChanged {
            workspace_id,
            active_window_id,
        } => {
            assert_eq!(workspace_id, 2);
            assert_eq!(active_window_id, Some(55));
        }
        _ => panic!("Expected WorkspaceActiveWindowChanged variant"),
    }
}

#[test]
fn test_deserialize_outputs_changed() {
    let json = r#"{"OutputsChanged":{"outputs":{"DP-1":{"name":"DP-1","make":"Dell","model":"U2720Q","physical_size":[600,340],"logical":{"x":0,"y":0,"width":3840,"height":2160,"scale":1.5}}}}}"#;
    let event: Event = read(json);
    match event {
        Event::OutputsChanged { outputs } => {
            let map = outputs.unwrap();
            assert_eq!(map.len(), 1);
            let out = map.get("DP-1").unwrap();
            assert_eq!(out.name.as_deref(), Some("DP-1"));
            assert_eq!(out.make.as_deref(), Some("Dell"));
            let logical = out.logical.as_ref().unwrap();
            assert_eq!(logical.width, 3840);
            assert_eq!(logical.scale.as_deref(), Some("1.5"));
        }
        _ => panic!("Expected OutputsChanged variant"),
    }
}

#[test]
fn test_privacy_summary() {
    let closed = Event::WindowClosed { id: 10 };
    assert_eq!(closed.privacy_summary(), "WindowClosed(id: 10)");

    let activated = Event::WorkspaceActivated { id: 1, focused: true };
    assert_eq!(activated.privacy_summary(), "WorkspaceActivated(id: 1, focused: true)");

    let other = Event::Other;
    assert_eq!(other.privacy_summary(), "Other");
}

#[test]
fn test_build_action_request() {
    let focus_req = build_action_request(object("FocusWindow", object("id", Json::Uint(42))));
    assert_eq!(focus_req, "{\"Action\":{\"FocusWindow\":{\"id\":42}}}\n");

    let move_req = build_action_request(object("MoveColumnToMonitor", object("output", Json::Text("eDP-1".into()))));
    assert_eq!(
        move_req,
        "{\"Action\":{\"MoveColumnToMonitor\":{\"output\":\"eDP-1\"}}}\n"
    );
}

#[test]
fn test_parse_niri_response_ok() {
    let line =
        "{\"Ok\": {\"Windows\": [{\"id\": 1, \"is_focused\": true, \"layout\": null, \"workspace_id\": 1}]}}\n";
    let windows = fetch_windows(line).expect("Should parse Ok response");
    assert_eq!(windows.len(), 1);
    assert_eq!(windows[0].id, 1);
}

#[test]
fn test_parse_niri_response_err() {
    let line = "{\"Err\": \"no window with id 99\"}";
    let parsed: Result<Json, String> = parse_niri_response(line).map_err(|e| e.message("", line));
    assert!(parsed.is_err());
    assert!(parsed.unwrap_err().contains("no window with id 99"));
}

#[test]
fn test_parse_niri_response_malformed() {
    let line = "invalid json payload";
    let said = "expected value at line 1 column 1";
    let parsed: Result<Json, String> = parse_niri_response(line).map_err(|e| e.message(said, line));
    assert!(parsed.is_err());
    assert!(parsed.unwrap_err().contains("Failed to parse response"));
}

#[test]
fn requests_are_lines_of_json() {
    assert_eq!(focus_window(7), vec!["{\"Action\":{\"FocusWindow\":{\"id\":7}}}\n"]);
    assert_eq!(close_window(7), vec!["{\"Action\":{\"CloseWindow\":{\"id\":7}}}\n"]);
    assert_eq!(
        move_window_to_column(7, 2),
        vec![
            "{\"Action\":{\"FocusWindow\":{\"id\":7}}}\n",
            "{\"Action\":{\"MoveColumnToIndex\":{\"index\":2}}}\n"
        ]
    );
    assert_eq!(move_window_to_monitor(7, "a\"b", None).len(), 2);
    assert_eq!(
        move_window_to_monitor(7, "a\"b", Some(3)),
        vec![
            "{\"Action\":{\"FocusWindow\":{\"id\":7}}}\n",
            "{\"Action\":{\"MoveColumnToMonitor\":{\"output\":\"a\\\"b\"}}}\n",
            "{\"Action\":{\"MoveColumnToIndex\":{\"index\":3}}}\n"
        ]
    );
    assert_eq!(resource_request("Outputs"), "\"Outputs\"\n");
}

#[test]
fn json_is_read_and_written() {
    let j = json::parse(" {\"a\": [1, -2, true, null, \"x\\u00e9\"] , \"b\" : { } } ");
    assert_eq!(json::print(&j), "{\"a\":[1,-2,true,null,\"x\u{e9}\"],\"b\":{}}");
    assert!(matches!(json::parse("{}"), Json::Object(o) if o.is_empty()));
    assert!(matches!(json::parse("1.5"), Json::Float(s) if s == "1.5"));
    for bad in [
        "", "{", "}", "{\"a\"}", "{\"a\":}", "{\"a\":1,}", "{\"a\":1}x", "{\"a\" 1}", "{a:1}", "{1:2}", "{,}",
        "{\"a\":1 \"b\":2}", "{\"a\":1x}", "{\"a\":[}", "{\"\\ud800\":1}", "[1,]", "[1", "tru", "1 2",
    ] {
        assert!(matches!(json::parse(bad), Json::Other), "{bad}");
    }
    assert!(json::parse_whole("{").is_none());
    assert!(json::parse_whole("[1]").is_some());
}

#[test]
fn entries_stand_in_order_also_where_they_stand_twice() {
    match json::parse("{\"b\":1,\"a\":2,\"b\":3}") {
        Json::Object(o) => {
            let names: Vec<&str> = o.iter().map(|e| e.0.as_str()).collect();
            assert_eq!(names, vec!["b", "a", "b"]);
        }
        other => panic!("{other:?}"),
    }
    let j = json::parse("{\"b\":1,\"a\":2,\"b\":3}");
    assert!(matches!(j.get("a", 0), Some(Json::Uint(2))));
    assert!(matches!(j.get("b", 0), Some(Json::Other)));
    assert!(j.get("c", 0).is_none());
}

#[test]
fn a_known_field_stands_once_and_an_unknown_one_as_often_as_it_likes() {
    let event = |line: &str| read_stream_line(line);
    assert!(matches!(event("{\"WindowClosed\":{\"id\":1,\"id\":2}}"), StreamLine::Unreadable));
    assert!(matches!(
        event("{\"WindowClosed\":{\"id\":1,\"x\":2,\"x\":3}}"),
        StreamLine::Event(Event::WindowClosed { id: 1 })
    ));
    // A list may stand for the fields in order.
    assert!(matches!(event("{\"WindowClosed\":[7]}"), StreamLine::Event(Event::WindowClosed { id: 7 })));
    assert!(matches!(event("{\"WindowClosed\":[7,8]}"), StreamLine::Unreadable));
    // Of outputs with the same name the last counts, and all of them have to be readable.
    let twice = fetch_outputs("{\"Ok\":{\"Outputs\":{\"A\":{\"make\":\"x\"},\"A\":{\"make\":\"y\"}}}}").unwrap();
    assert_eq!(twice.get("A").unwrap().make.as_deref(), Some("y"));
    assert!(fetch_outputs("{\"Ok\":{\"Outputs\":{\"A\":{\"make\":1},\"A\":{\"make\":\"y\"}}}}").is_err());
}

#[test]
fn the_last_known_name_of_an_event_counts() {
    let line = "{\"WindowClosed\":{\"id\":1},\"WindowFocusChanged\":{\"id\":2},\"WindowClosed\":{\"id\":3},\"New\":0}";
    assert!(matches!(read_stream_line(line), StreamLine::Event(Event::WindowClosed { id: 3 })));
    let bad = "{\"WindowClosed\":{\"id\":\"x\"},\"WindowClosed\":{\"id\":3}}";
    assert!(matches!(read_stream_line(bad), StreamLine::Unreadable));
    // Names are written without escapes.
    let escaped = "{\"Window\\u0043losed\":{\"id\":3}}";
    assert!(matches!(read_stream_line(escaped), StreamLine::Unreadable));
    let field = "{\"WindowClosed\":{\"\\u0069d\":3}}";
    assert!(matches!(read_stream_line(field), StreamLine::Event(Event::WindowClosed { id: 3 })));
}

#[test]
fn what_is_ignored_may_hold_anything_well_formed() {
    let deep = format!("{}{}", "[".repeat(300), "]".repeat(300));
    for ignored in ["1e999", "\"\\ud800\"", deep.as_str(), "{\"a\":1,\"a\":2}"] {
        let line = format!("{{\"New\":{ignored},\"WindowClosed\":{{\"x\":{ignored},\"id\":4}}}}");
        assert!(matches!(read_stream_line(&line), StreamLine::Event(Event::WindowClosed { id: 4 })), "{ignored}");
        let answer = format!("{{\"Ok\":{{\"New\":{ignored},\"Windows\":[]}}}}");
        assert!(fetch_windows(&answer).unwrap().is_empty());
        let read = format!("{{\"WindowClosed\":{{\"id\":{ignored}}}}}");
        assert!(matches!(read_stream_line(&read), StreamLine::Unreadable));
    }
    assert!(matches!(read_stream_line("{\"New\":[1,}"), StreamLine::Unreadable));
    // The payload of an answer to an action is read as a whole.
    assert!(action_result("{\"Ok\":1e999}").is_err());
    assert!(action_result(&format!("{{\"Ok\":{deep}}}")).is_err());
    let shallow = format!("{}{}", "[".repeat(100), "]".repeat(100));
    assert!(action_result(&format!("{{\"Ok\":{shallow}}}")).is_ok());
}

#[test]
fn answers_are_read_by_their_single_entry() {
    let ok = read_answer(object("Ok", Json::Text("x".into())));
    assert!(matches!(ok, Ok(Json::Text(s)) if s == "x"));
    let err = read_answer(object("Err", Json::Text("no".into())));
    assert_eq!(err.err().unwrap().message("", ""), "Niri error: no");
    let odd = read_answer(Json::Null).err().unwrap();
    assert!(matches!(odd, ReadError::Unreadable));
    assert_eq!(odd.message("what it says", " line "), "Failed to parse response: what it says. Line: line");
    assert!(fetch_windows("{\"Ok\":{},\"Ok\":{}}").is_err());
    assert!(action_result("{\"Ok\":1,\"Ok\":2}").is_err());
    assert!(action_result("{\"\\u004fk\":1}").is_ok());
    assert!(action_result("\"Ok\"").is_err());
}

#[test]
fn errors_tell_no_more_than_the_front_of_a_line() {
    let line = format!("[{}", "1,".repeat(1000));
    let words = parse_niri_response(&line).err().unwrap().message("why", &line);
    let tail = words.split(". Line: ").nth(1).unwrap();
    assert_eq!(tail.chars().count(), 500);
}

#[test]
fn resources_may_be_null_or_missing() {
    assert!(fetch_windows("{\"Ok\":{\"Windows\":null}}").unwrap().is_empty());
    assert!(fetch_workspaces("{\"Ok\":{}}").unwrap().is_empty());
    assert!(fetch_outputs("{\"Ok\":{}}").unwrap().is_empty());
    assert!(fetch_windows("{\"Ok\":{\"Windows\":[{\"id\":\"x\"}]}}").is_err());
    let outputs = fetch_outputs("{\"Ok\":{\"Outputs\":{\"A\":{\"name\":\"A\"}}}}").unwrap();
    assert_eq!(outputs.get("A").unwrap().name.as_deref(), Some("A"));
}

#[test]
fn overlong_lines_are_refused() {
    let line = " ".repeat(MAX_LINE as usize);
    assert_eq!(check_line("Windows", &line).err().as_deref(), Some("Windows response exceeds 8MB cap"));
    assert_eq!(action_result(&line).err().unwrap().message("", ""), "Action response exceeds 8MB cap");
    assert!(check_line("Windows", "short").is_ok());
}

#[test]
fn actions_succeed_with_any_payload() {
    assert!(action_result("{\"Ok\":\"Handled\"}\n").is_ok());
    assert_eq!(action_result("{\"Err\":\"x\"}").err().unwrap().message("", ""), "Niri error: x");
}

#[test]
fn lines_of_the_stream_may_be_blank_or_unreadable() {
    assert!(matches!(read_stream_line("  \n"), StreamLine::Blank));
    let line = " {\"WindowClosed\":{\"id\":\"x\"}}\n";
    assert!(matches!(read_stream_line(line), StreamLine::Unreadable));
    assert_eq!(
        event_refusal("invalid type", line),
        "Failed to parse IPC event: invalid type. Payload: {\"WindowClosed\":{\"id\":\"x\"}}"
    );
    assert!(matches!(read_stream_line("nonsense"), StreamLine::Unreadable));
}

#[test]
fn long_titles_are_cut() {
    let title = "\u{e9}".repeat(600);
    let cut = truncate_opt(Some(title)).unwrap();
    assert_eq!(cut.chars().count(), 512);
    assert_eq!(truncate_opt(Some("x".repeat(512))).unwrap().len(), 512);
    assert_eq!(truncate_opt(None), None);
    let line = format!(
        "{{\"WindowOpenedOrChanged\":{{\"window\":{{\"id\":1,\"title\":\"{}\",\"is_focused\":false}}}}}}",
        "y".repeat(700)
    );
    match read(&line) {
        Event::WindowOpenedOrChanged { window } => assert_eq!(window.title.unwrap().len(), 512),
        other => panic!("{other:?}"),
    }
}

#[test]
fn summaries_hold_no_titles() {
    let window = WindowInfo {
        id: 3,
        title: Some("my secret".into()),
        app_id: Some("a\"b".into()),
        workspace_id: None,
        is_focused: false,
        layout: None,
    };
    let words = Event::WindowOpenedOrChanged { window }.privacy_summary();
    assert!(!words.contains("secret"));
    assert!(words.contains("a\\\"b"));
}
