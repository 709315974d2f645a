use hyprwatch::endpoints::instance_env_name;
use hyprwatch::endpoints::resolve_endpoints;
use hyprwatch::endpoints::ConfigError;
use hyprwatch::event::count_triggers;
use hyprwatch::event::extract_prefix;
use hyprwatch::event::match_cmds;
use hyprwatch::mode::Mode;
use hyprwatch::response::strip_newlines;
use hyprwatch::response::ResponseBuilder;

#[test]
fn prefix_stops_at_first_delimiter() {
    // The payload holds the delimiter again; the prefix still ends at the
    // first occurrence.
    let line = b"activewindow>>0x1234,class,ti>>tle";
    assert_eq!(extract_prefix(line), Some(&b"activewindow"[..]));
}

#[test]
fn prefix_of_leading_delimiter_is_empty() {
    assert_eq!(extract_prefix(b">>payload"), Some(&b""[..]));
}

#[test]
fn line_without_delimiter_is_ignored() {
    assert_eq!(extract_prefix(b"no delimiter here"), None);
    assert_eq!(extract_prefix(b""), None);
    assert_eq!(extract_prefix(b">"), None);
    assert!(!match_cmds(b"no delimiter here", &["no", "delimiter", "here"]));
    assert_eq!(count_triggers(b"no delimiter here", &["no"]), 0);
}

#[test]
fn active_window_record_queries_once() {
    let mode = Mode::ActiveWindow;
    assert_eq!(mode.triggers(), vec!["activewindow", "windowtitle"]);
    assert_eq!(mode.query(), "j/activewindow");
    assert_eq!(mode.chunk_query_count(b"activewindow>>0x1234,class,title"), 1);
    assert_eq!(mode.chunk_query_count(b"workspace>>2"), 0);
}

#[test]
fn mode_queries_and_triggers() {
    assert_eq!(Mode::ActiveWorkspace.query(), "j/activeworkspace");
    assert_eq!(Mode::Workspaces.query(), "j/workspaces");
    assert_eq!(
        Mode::ActiveWorkspace.triggers(),
        vec!["workspace", "activewindow"]
    );
    assert_eq!(
        Mode::Workspaces.triggers(),
        vec!["createworkspace", "destroyworkspace"]
    );
}

#[test]
fn two_trigger_lines_query_twice() {
    let chunk = b"activewindow>>0x1,a,b\nwindowtitle>>0x1\n";
    assert_eq!(Mode::ActiveWindow.chunk_query_count(chunk), 2);
    // An irrelevant record between two relevant ones changes nothing.
    let chunk = b"activewindow>>0x1,a,b\nmonitorfocus>>DP-1\nwindowtitle>>0x1";
    assert_eq!(Mode::ActiveWindow.chunk_query_count(chunk), 2);
    assert!(Mode::ActiveWindow.chunk_matches(chunk));
}

#[test]
fn match_cmds_scans_all_lines() {
    let buffer = b"workspace>>2\nactivewindow>>0x1,class,title";
    assert!(match_cmds(buffer, &["activewindow", "windowtitle"]));
    assert!(!match_cmds(buffer, &["createworkspace", "destroyworkspace"]));
    // The command must equal the whole prefix, not a part of it.
    assert!(!match_cmds(b"activewindowx>>1", &["activewindow"]));
}

#[test]
fn response_split_across_two_reads() {
    // The first read exactly fills an 8-byte buffer, so the message is not
    // complete; the second is shorter and ends it.  The output is the full
    // concatenation with the embedded newlines removed.
    let first = b"{\"a\":\n12";
    assert_eq!(first.len(), 8);
    let second = b"3}\n";
    let mut builder = ResponseBuilder::new();
    builder.push_chunk(first, 8);
    assert!(!builder.complete());
    builder.push_chunk(second, 8);
    assert!(builder.complete());
    assert_eq!(builder.output_line(), b"{\"a\":123}".to_vec());
}

#[test]
fn short_first_read_completes_response() {
    let mut builder = ResponseBuilder::new();
    builder.push_chunk(b"{}", 1024);
    assert!(builder.complete());
    assert_eq!(builder.output_line(), b"{}".to_vec());
}

#[test]
fn strip_newlines_exact() {
    assert_eq!(strip_newlines(b"a\nb\nc"), b"abc".to_vec());
    assert_eq!(strip_newlines(b""), b"".to_vec());
    assert_eq!(strip_newlines(b"\n\n"), b"".to_vec());
    assert_eq!(strip_newlines(b"plain"), b"plain".to_vec());
}

#[test]
fn missing_paths_and_instance_fail_startup() {
    let r = resolve_endpoints(None, None, None);
    assert_eq!(r.err(), Some(ConfigError::MissingInstance));
    let r = resolve_endpoints(Some("/tmp/ctl".to_owned()), None, None);
    assert_eq!(r.err(), Some(ConfigError::MissingInstance));
    let r = resolve_endpoints(None, Some("/tmp/evt".to_owned()), None);
    assert_eq!(r.err(), Some(ConfigError::MissingInstance));
}

#[test]
fn explicit_paths_need_no_instance() {
    let r = resolve_endpoints(
        Some("/tmp/ctl".to_owned()),
        Some("/tmp/evt".to_owned()),
        None,
    );
    let e = r.unwrap();
    assert_eq!(e.control, "/tmp/ctl");
    assert_eq!(e.events, "/tmp/evt");
}

#[test]
fn implicit_paths_derive_from_instance() {
    let r = resolve_endpoints(None, None, Some("SIG".to_owned()));
    let e = r.unwrap();
    assert_eq!(e.control, "/tmp/hypr/SIG/.socket.sock");
    assert_eq!(e.events, "/tmp/hypr/SIG/.socket2.sock");
    // One explicit path keeps its value; the other is still derived.
    let r = resolve_endpoints(Some("/tmp/ctl".to_owned()), None, Some("SIG".to_owned()));
    let e = r.unwrap();
    assert_eq!(e.control, "/tmp/ctl");
    assert_eq!(e.events, "/tmp/hypr/SIG/.socket2.sock");
}

#[test]
fn config_error_message_names_the_variable() {
    let msg = ConfigError::MissingInstance.message();
    assert!(msg.contains(instance_env_name()));
}
