//! Decisions of the two supervisor loops: the main loop that (re)starts the
//! camera capture, and the loop that (re)starts the web server.

use vstd::prelude::*;
use vstd::string::StringSliceAdditionalSpecFns;

use crate::text::{
    is_interrupted_system_call, lemma_contains_bytes_windows, lemma_signal_words,
    mentions_interrupted_system_call,
};

verus! {

/// Pause of the main loop while ffmpeg is running, in milliseconds.
pub const FFMPEG_WAIT_MS: u64 = 1250;

/// Pause at the end of every round of both loops, in milliseconds.
pub const LOOP_PAUSE_MS: u64 = 250;

/// Delay between a shutdown request and stopping the web server, in milliseconds.
pub const SHUTDOWN_DELAY_MS: u64 = 350;

/// Starts of the web server after which it is not restarted again.
pub const MAX_WEBSERVER_STARTS: u32 = 8;

/// HTTP port when the process runs as root.
pub const ROOT_PORT: u16 = 80;

/// HTTP port otherwise.
pub const USER_PORT: u16 = 8080;

/// What a round of the main loop does.
#[derive(Debug, PartialEq, Eq, Structural)]
pub enum MainStep {
    /// Leave the loop: an exit was requested.
    Exit,
    /// ffmpeg runs (someone is developing on the machine): wait
    /// `FFMPEG_WAIT_MS` and look again.
    WaitForFfmpeg,
    /// Run the capture loop, then pause `LOOP_PAUSE_MS`.
    RunCamera,
}

/// The next round of the main loop: exit when requested, else wait while
/// ffmpeg runs, else run the camera.
pub fn main_loop_step(exit_requested: bool, ffmpeg_running: bool) -> (step: MainStep)
    ensures
        step == (if exit_requested {
            MainStep::Exit
        } else if ffmpeg_running {
            MainStep::WaitForFfmpeg
        } else {
            MainStep::RunCamera
        }),
{
    if exit_requested {
        MainStep::Exit
    } else if ffmpeg_running {
        MainStep::WaitForFfmpeg
    } else {
        MainStep::RunCamera
    }
}

/// Whether a failed run ends the program: `error` is the debug text of the
/// error (`None` when the run succeeded), and an interrupted system call
/// (a termination signal) asks for a shutdown.
pub open spec fn error_requests_shutdown(error: Option<Seq<u8>>) -> bool {
    match error {
        Some(m) => mentions_interrupted_system_call(m),
        None => false,
    }
}

/// After the capture loop returned: whether to shut down (see
/// `error_requests_shutdown`).
pub fn camera_run_requests_shutdown(error: Option<&str>) -> (shutdown: bool)
    ensures
        shutdown == error_requests_shutdown(
            match error {
                Some(m) => Some(m.spec_bytes()),
                None => None,
            },
        ),
{
    match error {
        Some(m) => is_interrupted_system_call(m),
        None => false,
    }
}

/// What a round of the web-server loop does.
#[derive(Debug, PartialEq, Eq, Structural)]
pub enum WebStep {
    /// Leave the loop: an exit was requested.
    Stop,
    /// Start the web server and wait until it stops.
    Serve,
}

/// Starts after one more: one more, held at `u32::MAX`.
pub open spec fn next_start_count(starts: nat) -> nat {
    if starts < u32::MAX {
        starts + 1
    } else {
        starts
    }
}

/// Whether a web server run that ended after `starts` starts, with
/// `error` the debug text of its error, ends the program: on an
/// interrupted system call, or once it has been started more than
/// `MAX_WEBSERVER_STARTS` times.
pub open spec fn web_run_requests_shutdown(starts: nat, error: Option<Seq<u8>>) -> bool {
    error_requests_shutdown(error) || starts > MAX_WEBSERVER_STARTS
}

/// The state of the web-server loop: how often the server was started.
pub struct WebSupervisor {
    starts: u32,
}

impl View for WebSupervisor {
    type V = nat;

    closed spec fn view(&self) -> nat {
        self.starts as nat
    }
}

impl WebSupervisor {
    /// No start yet.
    pub fn new() -> (s: WebSupervisor)
        ensures
            s@ == 0,
    {
        WebSupervisor { starts: 0 }
    }

    /// Number of starts so far.
    pub fn starts(&self) -> (n: u32)
        ensures
            n == self@,
    {
        self.starts
    }

    /// The next round: stop when an exit was requested, else count one
    /// more start and serve.
    pub fn step(&mut self, exit_requested: bool) -> (step: WebStep)
        ensures
            exit_requested ==> step == WebStep::Stop && final(self)@ == old(self)@,
            !exit_requested ==> step == WebStep::Serve && final(self)@ == next_start_count(
                old(self)@,
            ),
    {
        if exit_requested {
            WebStep::Stop
        } else {
            self.starts = self.starts.saturating_add(1);
            WebStep::Serve
        }
    }

    /// After a run of the web server: whether to shut down (see
    /// `web_run_requests_shutdown`).
    pub fn run_requests_shutdown(&self, error: Option<&str>) -> (shutdown: bool)
        ensures
            shutdown == web_run_requests_shutdown(
                self@,
                match error {
                    Some(m) => Some(m.spec_bytes()),
                    None => None,
                },
            ),
    {
        let caught_signal = camera_run_requests_shutdown(error);
        caught_signal || self.starts > MAX_WEBSERVER_STARTS
    }
}

/// Starts counted after `serves` rounds that served, from a new supervisor.
pub open spec fn starts_after(serves: nat) -> nat
    decreases serves,
{
    if serves == 0 {
        0
    } else {
        next_start_count(starts_after((serves - 1) as nat))
    }
}

/// The web server is restarted at most `MAX_WEBSERVER_STARTS` times in
/// all: a run that ends without error after the `n`-th start asks for a
/// shutdown exactly when `n > MAX_WEBSERVER_STARTS`.
pub proof fn lemma_restart_limit(serves: nat)
    requires
        serves <= u32::MAX,
    ensures
        starts_after(serves) == serves,
        web_run_requests_shutdown(starts_after(serves), None) <==> serves > MAX_WEBSERVER_STARTS,
    decreases serves,
{
    if serves > 0 {
        lemma_restart_limit((serves - 1) as nat);
    }
}

/// The HTTP port: 80 when the process runs as root (`uid` is the owner of
/// `/proc/self`, `None` when it cannot be read), else 8080.
pub fn webserver_port(uid: Option<u32>) -> (port: u16)
    ensures
        port == (if uid == Some(0u32) {
            ROOT_PORT
        } else {
            USER_PORT
        }),
{
    match uid {
        Some(0) => ROOT_PORT,
        _ => USER_PORT,
    }
}

/// The error text of a run asks for a shutdown exactly when it contains
/// the words `Interrupted`, `system` and `call` (as bytes, anywhere); a run
/// without error never does.
pub proof fn lemma_error_shutdown_rule(m: Seq<u8>)
    ensures
        !error_requests_shutdown(None),
        error_requests_shutdown(Some(m)) <==> (exists|i: int|
                0 <= i && i + 11 <= m.len() && #[trigger] m.subrange(i, i + 11) == seq![73u8, 110u8, 116u8, 101u8, 114u8, 114u8, 117u8, 112u8, 116u8, 101u8, 100u8])
            && (exists|i: int|
                0 <= i && i + 6 <= m.len() && #[trigger] m.subrange(i, i + 6) == seq![115u8, 121u8, 115u8, 116u8, 101u8, 109u8])
            && (exists|i: int|
                0 <= i && i + 4 <= m.len() && #[trigger] m.subrange(i, i + 4) == seq![99u8, 97u8, 108u8, 108u8]),
{
    lemma_signal_words();
    lemma_contains_bytes_windows(m, "Interrupted".spec_bytes());
    lemma_contains_bytes_windows(m, "system".spec_bytes());
    lemma_contains_bytes_windows(m, "call".spec_bytes());
}

/// A finished web-server run asks for a shutdown whatever its error once
/// the server was started more than 8 times; before that, exactly when its
/// error text contains `Interrupted`, `system` and `call`, and never when
/// it ended without error.
pub proof fn lemma_web_shutdown_rule(starts: nat, error: Option<Seq<u8>>)
    ensures
        starts > 8 ==> web_run_requests_shutdown(starts, error),
        starts <= 8 && error is None ==> !web_run_requests_shutdown(starts, error),
        starts <= 8 ==> (error matches Some(m) ==> (web_run_requests_shutdown(starts, error) <==> (exists|i: int|
                0 <= i && i + 11 <= m.len() && #[trigger] m.subrange(i, i + 11) == seq![73u8, 110u8, 116u8, 101u8, 114u8, 114u8, 117u8, 112u8, 116u8, 101u8, 100u8])
            && (exists|i: int|
                0 <= i && i + 6 <= m.len() && #[trigger] m.subrange(i, i + 6) == seq![115u8, 121u8, 115u8, 116u8, 101u8, 109u8])
            && (exists|i: int|
                0 <= i && i + 4 <= m.len() && #[trigger] m.subrange(i, i + 4) == seq![99u8, 97u8, 108u8, 108u8]))),
{
    if let Some(m) = error {
        lemma_error_shutdown_rule(m);
    }
}

/// The loop settings: wait 1250 ms while ffmpeg runs, pause 250 ms between
/// rounds, stop the web server 350 ms after a shutdown request, at most 8
/// starts of the web server, and port 80 for root, 8080 otherwise.
pub proof fn lemma_loop_settings()
    ensures
        FFMPEG_WAIT_MS == 1250,
        LOOP_PAUSE_MS == 250,
        SHUTDOWN_DELAY_MS == 350,
        MAX_WEBSERVER_STARTS == 8,
        ROOT_PORT == 80,
        USER_PORT == 8080,
{
}

} // verus!
