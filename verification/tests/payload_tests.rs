use app_library::debounce::RecomputeGate;
use app_library::launch::launch_command;
use app_library::payload::AppletString;

#[test]
fn mime_lists_offer_uri_list_only() {
    assert_eq!(AppletString::allowed(), vec!["text/uri-list".to_string()]);
    let payload = AppletString("/usr/share/applications/a.desktop".to_string());
    assert_eq!(payload.available(), vec!["text/uri-list".to_string()]);
}

#[test]
fn payload_encodes_as_file_uri() {
    let payload = AppletString("/usr/share/applications/writer.desktop".to_string());
    let bytes = payload.as_mime_bytes("text/uri-list").expect("absolute path must encode");
    assert_eq!(bytes, b"file:///usr/share/applications/writer.desktop".to_vec());
}

#[test]
fn payload_refuses_other_mime_types() {
    let payload = AppletString("/usr/share/applications/writer.desktop".to_string());
    assert!(payload.as_mime_bytes("text/plain").is_none());
}

#[test]
fn relative_path_does_not_encode() {
    let payload = AppletString("applications/writer.desktop".to_string());
    assert!(payload.as_mime_bytes("text/uri-list").is_none());
}

#[test]
fn payload_round_trips_through_the_wire() {
    let payload = AppletString("/usr/share/applications/space bar.desktop".to_string());
    let bytes = payload.as_mime_bytes("text/uri-list").expect("absolute path must encode");
    let back = AppletString::try_from_mime_data(&bytes, "text/uri-list")
        .expect("own encoding must decode");
    assert_eq!(back.0, "/usr/share/applications/space bar.desktop");
}

#[test]
fn decode_rejects_wrong_mime() {
    let bytes = b"file:///usr/share/applications/a.desktop".to_vec();
    assert!(AppletString::try_from_mime_data(&bytes, "text/plain").is_none());
}

#[test]
fn decode_rejects_non_utf8() {
    let bytes = vec![0xff, 0xfe, 0x00, 0x80];
    assert!(AppletString::try_from_mime_data(&bytes, "text/uri-list").is_none());
}

#[test]
fn decode_rejects_non_url_text() {
    let bytes = b"not a uri".to_vec();
    assert!(AppletString::try_from_mime_data(&bytes, "text/uri-list").is_none());
}

#[test]
fn decode_rejects_remote_urls() {
    let bytes = b"https://example.com/a.desktop".to_vec();
    assert!(AppletString::try_from_mime_data(&bytes, "text/uri-list").is_none());
}

#[test]
fn launch_command_tokenizes_and_strips_placeholders() {
    let cmd = launch_command("soffice --writer %U 'my file'").expect("plain line must launch");
    assert_eq!(cmd.program, "soffice");
    assert_eq!(cmd.args, vec!["--writer".to_string(), "my file".to_string()]);
}

#[test]
fn launch_command_rejects_env_assignment_lines() {
    assert!(launch_command("FOO=bar soffice").is_none());
}

#[test]
fn launch_command_rejects_empty_lines() {
    assert!(launch_command("").is_none());
    assert!(launch_command("   ").is_none());
}

#[test]
fn launch_command_keeps_mid_argument_placeholders() {
    let cmd = launch_command("run --url=%u target").expect("line must launch");
    assert_eq!(cmd.program, "run");
    assert_eq!(cmd.args, vec!["--url=%u".to_string(), "target".to_string()]);
}

#[test]
fn recompute_gate_debounces_to_one_in_flight() {
    let mut gate = RecomputeGate::new();
    assert!(gate.request());
    assert!(!gate.request());
    assert!(!gate.request());
}

#[test]
fn recompute_gate_respawns_only_on_stale_input() {
    let mut gate = RecomputeGate::new();
    assert!(gate.request());
    let unchanged = gate.complete(&"office".to_string(), &"office".to_string());
    assert!(!unchanged);
    assert!(gate.request());
    let changed = gate.complete(&"offi".to_string(), &"office".to_string());
    assert!(changed);
    // the fresh computation it asked for counts as the one in flight
    assert!(!gate.request());
}
