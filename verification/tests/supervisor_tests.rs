use squirrel_scanner::supervisor::{
    camera_run_requests_shutdown, main_loop_step, webserver_port, MainStep, WebStep,
    WebSupervisor,
};
use squirrel_scanner::text::{
    any_process_named, bytes_contain, is_interrupted_system_call, prelude_skipped,
    str_contains, str_equal,
};

#[test]
fn main_loop_decisions() {
    assert_eq!(main_loop_step(true, true), MainStep::Exit);
    assert_eq!(main_loop_step(true, false), MainStep::Exit);
    assert_eq!(main_loop_step(false, true), MainStep::WaitForFfmpeg);
    assert_eq!(main_loop_step(false, false), MainStep::RunCamera);
}

#[test]
fn interrupted_system_call_detection() {
    let msg = "Os { code: 4, kind: Interrupted, message: \"Interrupted system call\" }";
    assert!(is_interrupted_system_call(msg));
    assert!(camera_run_requests_shutdown(Some(msg)));
    assert!(!camera_run_requests_shutdown(Some("Os { code: 16, kind: ResourceBusy, message: \"Device or resource busy\" }")));
    assert!(!camera_run_requests_shutdown(None));
    assert!(!is_interrupted_system_call("interrupted system call"));
}

#[test]
fn web_supervisor_gives_up_after_eight_starts() {
    let mut s = WebSupervisor::new();
    for n in 1..=8u32 {
        assert_eq!(s.step(false), WebStep::Serve);
        assert_eq!(s.starts(), n);
        assert!(!s.run_requests_shutdown(None));
    }
    assert_eq!(s.step(false), WebStep::Serve);
    assert!(s.run_requests_shutdown(None));
    assert_eq!(s.step(true), WebStep::Stop);
    assert_eq!(s.starts(), 9);
}

#[test]
fn web_supervisor_stops_on_signal() {
    let mut s = WebSupervisor::new();
    assert_eq!(s.step(false), WebStep::Serve);
    assert!(s.run_requests_shutdown(Some("Custom { kind: Interrupted, error: \"system call\" }")));
    assert!(!s.run_requests_shutdown(Some("bind failed")));
}

#[test]
fn port_choice() {
    assert_eq!(webserver_port(Some(0)), 80);
    assert_eq!(webserver_port(Some(1000)), 8080);
    assert_eq!(webserver_port(None), 8080);
}

#[test]
fn prelude_switch() {
    assert!(!prelude_skipped(None));
    assert!(prelude_skipped(Some("true")));
    assert!(prelude_skipped(Some("TRUE")));
    assert!(prelude_skipped(Some("1")));
    assert!(!prelude_skipped(Some("no")));
    assert!(!prelude_skipped(Some("")));
}

#[test]
fn text_matching() {
    assert!(bytes_contain(b"hello", b"ll"));
    assert!(bytes_contain(b"hello", b""));
    assert!(!bytes_contain(b"hel", b"hello"));
    assert!(!bytes_contain(b"hello", b"lo!"));
    assert!(str_contains("squirrel", "rre"));
    assert!(str_equal("ffmpeg", "ffmpeg"));
    assert!(!str_equal("ffmpeg", "ffprobe"));
}

#[test]
fn process_lookup() {
    let names = vec!["bash".to_string(), "ffmpeg".to_string()];
    assert!(any_process_named(&names, "ffmpeg"));
    assert!(!any_process_named(&names, "ffmpe"));
    assert!(!any_process_named(&[], "ffmpeg"));
}
