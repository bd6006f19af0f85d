//! Decisions of the camera capture loop: which device to open, which
//! format to ask for and accept, and the bookkeeping of frame times from
//! which the rolling frame rate is computed.

use vstd::prelude::*;

verus! {

/// Frame width requested from the camera.
pub const CAPTURE_WIDTH: u32 = 1920;

/// Frame height requested from the camera.
pub const CAPTURE_HEIGHT: u32 = 1080;

/// Pixel format requested from the camera: the four character code `YUYV`
/// (packed YUV 4:2:2).
pub const CAPTURE_FOURCC: [u8; 4] = [89u8, 85u8, 89u8, 86u8];

/// Number of frame times the rolling frame rate is computed over.
pub const FRAME_HISTORY: usize = 8;

/// Largest value of the capture loop counter; the next iteration starts over at 0.
pub const LOOP_COUNTER_MAX: usize = 100000000;

/// The rolling frame rate is recomputed on every iteration whose counter is
/// a multiple of this.
pub const FPS_REPORT_PERIOD: usize = 6;

/// Nanoseconds per millisecond.
pub const NANOS_PER_MILLI: u128 = 1000000;

/// Device opened when no device path is configured.
pub open spec fn spec_default_device() -> Seq<char> {
    "/dev/video2"@
}

/// The video device to open: the configured path if there is one (the
/// value of the environment variable `VDEV`), else `/dev/video2`.
pub fn video_device_path(configured: Option<String>) -> (path: String)
    ensures
        path@ == (match configured {
            Some(p) => p@,
            None => spec_default_device(),
        }),
{
    match configured {
        Some(p) => p,
        None => String::from_str("/dev/video2"),
    }
}

/// What the capture loop works with once the camera accepted the format.
pub struct CapturePlan {
    pub width: usize,
    pub height: usize,
    /// Bytes per pixel of the frames, derived from the frame size that the
    /// device reported.
    pub bytes_per_pixel: usize,
}

/// Accepts the format the camera assigned, or refuses it: `None` exactly
/// when its four character code differs from `YUYV`, in which case capture
/// stops.  Otherwise the plan holds the requested dimensions and
/// `frame_size / (width * height)` bytes per pixel.
pub fn capture_plan(assigned_fourcc: [u8; 4], frame_size: u32) -> (plan: Option<CapturePlan>)
    ensures
        plan is None <==> assigned_fourcc@ != CAPTURE_FOURCC@,
        plan matches Some(p) ==> {
            &&& p.width == CAPTURE_WIDTH
            &&& p.height == CAPTURE_HEIGHT
            &&& p.bytes_per_pixel == (frame_size as int) / (CAPTURE_WIDTH * CAPTURE_HEIGHT)
        },
{
    let wanted = CAPTURE_FOURCC;
    let mut i: usize = 0;
    while i < 4
        invariant
            i <= 4,
            wanted@ == CAPTURE_FOURCC@,
            forall|j: int| 0 <= j < i ==> assigned_fourcc@[j] == wanted@[j],
        decreases 4 - i,
    {
        if assigned_fourcc[i] != wanted[i] {
            return None;
        }
        i = i + 1;
    }
    assert(assigned_fourcc@ =~= CAPTURE_FOURCC@);
    let pixels: u32 = CAPTURE_WIDTH * CAPTURE_HEIGHT;
    let bpp: u32 = frame_size / pixels;
    Some(CapturePlan {
        width: CAPTURE_WIDTH as usize,
        height: CAPTURE_HEIGHT as usize,
        bytes_per_pixel: bpp as usize,
    })
}

/// The loop counter after `i`: one more, starting over at 0 past
/// `LOOP_COUNTER_MAX`.
pub open spec fn next_loop_counter(i: nat) -> nat {
    if i + 1 > LOOP_COUNTER_MAX {
        0
    } else {
        i + 1
    }
}

/// Abstract state of the capture loop.
pub ghost struct FrameClockView {
    pub counter: nat,
    pub times: Seq<i128>,
}

/// The frame bookkeeping of the capture loop: an iteration counter and the
/// times (nanoseconds since the Unix epoch) of the last `FRAME_HISTORY`
/// frames, kept in a ring indexed by the counter.
pub struct FrameClock {
    counter: usize,
    times: [i128; 8],
}

impl View for FrameClock {
    type V = FrameClockView;

    closed spec fn view(&self) -> FrameClockView {
        FrameClockView { counter: self.counter as nat, times: self.times@ }
    }
}

impl FrameClock {
    #[verifier::type_invariant]
    spec fn counter_in_range(self) -> bool {
        self.counter <= LOOP_COUNTER_MAX
    }

    /// The state before the first frame: counter 0, every slot holding the
    /// start time.
    pub fn new(start: i128) -> (c: FrameClock)
        ensures
            c@.counter == 0,
            c@.times == Seq::new(FRAME_HISTORY as nat, |_i: int| start),
    {
        let c = FrameClock { counter: 0, times: [start; 8] };
        assert(c@.times =~= Seq::new(FRAME_HISTORY as nat, |_i: int| start));
        c
    }

    /// Records a frame captured at `now`: the counter advances (starting
    /// over past `LOOP_COUNTER_MAX`), `now` goes to slot
    /// `counter % FRAME_HISTORY`, and the result says whether the rolling
    /// frame rate is due, which it is when the new counter is a multiple of
    /// `FPS_REPORT_PERIOD`.
    pub fn record_frame(&mut self, now: i128) -> (report_fps: bool)
        ensures
            final(self)@.counter == next_loop_counter(old(self)@.counter),
            final(self)@.times == old(self)@.times.update(
                (final(self)@.counter % (FRAME_HISTORY as nat)) as int,
                now,
            ),
            report_fps == (final(self)@.counter % (FPS_REPORT_PERIOD as nat) == 0),
    {
        proof {
            use_type_invariant(&*self);
        }
        let next = if self.counter + 1 > LOOP_COUNTER_MAX {
            0
        } else {
            self.counter + 1
        };
        self.counter = next;
        self.times[next % FRAME_HISTORY] = now;
        next % FPS_REPORT_PERIOD == 0
    }

    /// The iteration counter.
    pub fn counter(&self) -> (i: usize)
        ensures
            i == self@.counter,
            i <= LOOP_COUNTER_MAX,
    {
        proof {
            use_type_invariant(self);
        }
        self.counter
    }

    /// The recorded frame times, slot by slot.
    pub fn frame_times(&self) -> (t: Vec<i128>)
        ensures
            t@ == self@.times,
    {
        let mut t: Vec<i128> = Vec::new();
        let mut i: usize = 0;
        while i < FRAME_HISTORY
            invariant
                i <= FRAME_HISTORY,
                self.times@.len() == FRAME_HISTORY,
                t@ == self.times@.subrange(0, i as int),
            decreases FRAME_HISTORY - i,
        {
            t.push(self.times[i]);
            i = i + 1;
        }
        assert(t@ =~= self@.times);
        t
    }
}

/// Whole milliseconds from `earlier` to `later` (nanosecond timestamps), or
/// nothing when `later` comes before `earlier`.
pub open spec fn gap_ms(earlier: i128, later: i128) -> nat {
    if later >= earlier {
        ((later - earlier) / 1000000) as nat
    } else {
        0
    }
}

/// Whole milliseconds from `earlier` to `later`, 0 when `later` comes first.
fn gap_millis(earlier: i128, later: i128) -> (g: u128)
    ensures
        g == gap_ms(earlier, later),
{
    if later < earlier {
        0
    } else if earlier >= 0 {
        let d: i128 = later - earlier;
        (d as u128) / NANOS_PER_MILLI
    } else if later < 0 {
        let d: i128 = later - earlier;
        (d as u128) / NANOS_PER_MILLI
    } else {
        // earlier < 0 <= later: the distance may exceed i128::MAX.
        let neg: i128 = -(earlier + 1);
        let d: u128 = (later as u128) + (neg as u128) + 1;
        d / NANOS_PER_MILLI
    }
}

/// The frame gaps that the rolling frame rate adds up: for each pair of
/// neighbouring slots, the whole milliseconds from one to the next, 0 where
/// the clock went backwards.
pub fn frame_gaps_ms(times: &[i128]) -> (gaps: Vec<u128>)
    requires
        times@.len() >= 1,
    ensures
        gaps@.len() == times@.len() - 1,
        forall|i: int| 0 <= i < gaps@.len() ==> gaps@[i] == gap_ms(times@[i], times@[i + 1]),
{
    let mut gaps: Vec<u128> = Vec::new();
    let mut i: usize = 0;
    let n = times.len() - 1;
    while i < n
        invariant
            n == times@.len() - 1,
            i <= n,
            gaps@.len() == i,
            forall|j: int| 0 <= j < i ==> gaps@[j] == gap_ms(times@[j], times@[j + 1]),
        decreases n - i,
    {
        let g = gap_millis(times[i], times[i + 1]);
        gaps.push(g);
        i = i + 1;
    }
    gaps
}

/// The loop counter runs through `0..=LOOP_COUNTER_MAX` in a cycle: each
/// iteration moves it one step forward modulo `LOOP_COUNTER_MAX + 1`.
pub proof fn lemma_loop_counter_cycles(i: nat)
    requires
        i <= LOOP_COUNTER_MAX,
    ensures
        next_loop_counter(i) == (i + 1) % (LOOP_COUNTER_MAX as nat + 1),
        next_loop_counter(i) <= LOOP_COUNTER_MAX,
{
    if i + 1 > LOOP_COUNTER_MAX {
        assert(i + 1 == LOOP_COUNTER_MAX + 1);
        vstd::arithmetic::div_mod::lemma_mod_self_0(LOOP_COUNTER_MAX as int + 1);
    } else {
        vstd::arithmetic::div_mod::lemma_small_mod((i + 1) as nat, LOOP_COUNTER_MAX as nat + 1);
    }
}

/// Sum of the frame gaps of `times`, in milliseconds.
pub open spec fn total_gap_ms(times: Seq<i128>) -> nat
    decreases times.len(),
{
    if times.len() <= 1 {
        0
    } else {
        total_gap_ms(times.drop_last()) + gap_ms(times[times.len() - 2], times.last())
    }
}

/// When the clock never went backwards, the frame gaps add up to no more
/// than the whole milliseconds between the first and the last frame.
pub proof fn lemma_total_gap_within_span(times: Seq<i128>)
    requires
        times.len() >= 1,
        forall|i: int| 0 <= i < times.len() - 1 ==> times[i] <= #[trigger] times[i + 1],
    ensures
        total_gap_ms(times) * 1000000 <= times.last() - times[0],
    decreases times.len(),
{
    if times.len() > 1 {
        let front = times.drop_last();
        assert forall|i: int| 0 <= i < front.len() - 1 implies front[i] <= #[trigger] front[i + 1] by {
            assert(times[i] <= times[i + 1]);
        }
        lemma_total_gap_within_span(front);
        let a = times[times.len() - 2];
        let b = times.last();
        assert(times[times.len() - 2] <= times[times.len() - 2 + 1]);
        assert(front.last() == a);
        let d = (b - a) as int;
        assert(gap_ms(a, b) == d / 1000000);
        vstd::arithmetic::div_mod::lemma_fundamental_div_mod(d, 1000000);
        assert(d / 1000000 * 1000000 <= d) by {
            vstd::arithmetic::div_mod::lemma_mod_pos_bound(d, 1000000);
        }
    }
}

/// A frame gap is the elapsed time in whole milliseconds, rounded down:
/// when `later >= earlier`, `gap * 1_000_000 <= later - earlier <
/// (gap + 1) * 1_000_000`; when the clock went backwards it is 0.
pub proof fn lemma_gap_ms_rounds_down(earlier: i128, later: i128)
    ensures
        later >= earlier ==> gap_ms(earlier, later) * 1000000 <= later - earlier < (gap_ms(
            earlier,
            later,
        ) + 1) * 1000000,
        later < earlier ==> gap_ms(earlier, later) == 0,
{
    if later >= earlier {
        let d = (later - earlier) as int;
        vstd::arithmetic::div_mod::lemma_fundamental_div_mod(d, 1000000);
        vstd::arithmetic::div_mod::lemma_mod_pos_bound(d, 1000000);
    }
}

/// The capture settings: 1920x1080 frames in `YUYV`, frame rate over the
/// last 8 frames, reported every 6th iteration, counter starting over past
/// 100000000, and `/dev/video2` when no device is configured.
pub proof fn lemma_capture_settings()
    ensures
        CAPTURE_WIDTH == 1920,
        CAPTURE_HEIGHT == 1080,
        CAPTURE_FOURCC@ == seq![89u8, 85u8, 89u8, 86u8],
        FRAME_HISTORY == 8,
        FPS_REPORT_PERIOD == 6,
        LOOP_COUNTER_MAX == 100000000,
        NANOS_PER_MILLI == 1000000,
        spec_default_device() == "/dev/video2"@,
{
    assert(CAPTURE_FOURCC@ =~= seq![89u8, 85u8, 89u8, 86u8]);
}

} // verus!
