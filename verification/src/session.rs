use vstd::prelude::*;
use crate::id_map::IdMap;
use crate::capture::CapturedFrame;
use crate::models::{AppSettings, MonitorCaptureTarget, RecordingMode, RecordingProgress, RecordingState, RecordingStatus, clone_opt_string, clone_strings};
use crate::text::{decimal, push_decimal};

verus! {

/// The shared status of the recording session: where it stands, the latest
/// progress report, and the error that ended the last session.
#[derive(Debug)]
pub struct SessionStatus {
    pub state: RecordingState,
    pub progress: Option<RecordingProgress>,
    pub last_error: Option<String>,
}

/// The message for a start request while a session is active.
pub open spec fn already_active_message() -> Seq<char> {
    "A recording session is already active"@
}

impl SessionStatus {
    /// An idle session with no progress and no error.
    pub fn new() -> (r: SessionStatus)
        ensures
            r.state == RecordingState::Idle,
            r.progress.is_none(),
            r.last_error.is_none(),
    {
        SessionStatus { state: RecordingState::Idle, progress: None, last_error: None }
    }

    /// The current state.
    pub fn state(&self) -> (r: RecordingState)
        ensures
            r == self.state,
    {
        self.state
    }

    /// A copy of the latest progress report.
    pub fn progress(&self) -> (r: Option<RecordingProgress>)
        ensures
            r is Some == self.progress is Some,
            r matches Some(p) ==> ({
                let q = self.progress.unwrap();
                &&& p.elapsed_secs == q.elapsed_secs
                &&& p.state == q.state
                &&& p.display_count == q.display_count
                &&& p.output_paths@ == q.output_paths@
                &&& p.file_size_bytes == q.file_size_bytes
                &&& p.system_audio == q.system_audio
                &&& p.microphone == q.microphone
            }),
    {
        match &self.progress {
            Some(p) => Some(p.clone()),
            None => None,
        }
    }

    /// A copy of the last error.
    pub fn last_error(&self) -> (r: Option<String>)
        ensures
            r == self.last_error,
    {
        clone_opt_string(&self.last_error)
    }

    /// The answer to a status query: state, progress and last error.
    pub fn status(&self) -> (r: RecordingStatus)
        ensures
            r.state == self.state,
            r.progress is Some == self.progress is Some,
            r.progress matches Some(p) ==> p.output_paths@ == self.progress.unwrap().output_paths@
                && p.elapsed_secs == self.progress.unwrap().elapsed_secs
                && p.state == self.progress.unwrap().state
                && p.display_count == self.progress.unwrap().display_count
                && p.file_size_bytes == self.progress.unwrap().file_size_bytes
                && p.system_audio == self.progress.unwrap().system_audio
                && p.microphone == self.progress.unwrap().microphone,
            r.last_error == self.last_error,
    {
        RecordingStatus { state: self.state, progress: self.progress(), last_error: self.last_error() }
    }

    /// Admits a new session: from idle, completed or failed the session
    /// becomes starting and forgets its last error; while one is starting,
    /// recording or stopping the request is refused and nothing changes.
    pub fn begin_start(&mut self) -> (r: Result<(), String>)
        ensures
            r is Ok <==> old(self).state.spec_is_startable(),
            r is Ok ==> final(self).state == RecordingState::Starting && final(self).last_error.is_none()
                && final(self).progress == old(self).progress,
            r matches Err(e) ==> e@ == already_active_message() && *final(self) == *old(self),
    {
        if !self.state.is_startable() {
            proof {
                reveal_strlit("A recording session is already active");
            }
            return Err(String::from_str("A recording session is already active"));
        }
        self.state = RecordingState::Starting;
        self.last_error = None;
        Ok(())
    }

    /// A stop request: the session is stopping, whatever it was doing.
    pub fn request_stop(&mut self)
        ensures
            final(self).state == RecordingState::Stopping,
            final(self).progress == old(self).progress,
            final(self).last_error == old(self).last_error,
    {
        self.state = RecordingState::Stopping;
    }

    /// Capture and encoders are running.
    pub fn mark_recording(&mut self)
        ensures
            final(self).state == RecordingState::Recording,
            final(self).progress == old(self).progress,
            final(self).last_error == old(self).last_error,
    {
        self.state = RecordingState::Recording;
    }

    /// Publishes a progress report.
    pub fn set_progress(&mut self, progress: RecordingProgress)
        ensures
            final(self).state == old(self).state,
            final(self).progress == Some(progress),
            final(self).last_error == old(self).last_error,
    {
        self.progress = Some(progress);
    }

    /// The session ended well: completed, with no progress left to report.
    pub fn complete(&mut self)
        ensures
            final(self).state == RecordingState::Completed,
            final(self).progress.is_none(),
            final(self).last_error == old(self).last_error,
    {
        self.state = RecordingState::Completed;
        self.progress = None;
    }

    /// The session ended with `error`.
    pub fn fail(&mut self, error: String)
        ensures
            final(self).state == RecordingState::Error,
            final(self).progress == old(self).progress,
            final(self).last_error == Some(error),
    {
        self.last_error = Some(error);
        self.state = RecordingState::Error;
    }

    /// Whether a finished worker may be joined: the session is stopping,
    /// completed, failed or idle.
    pub fn may_join_worker(&self) -> (r: bool)
        ensures
            r == (self.state == RecordingState::Stopping || self.state == RecordingState::Completed
                || self.state == RecordingState::Error || self.state == RecordingState::Idle),
    {
        self.state == RecordingState::Stopping || self.state == RecordingState::Completed
            || self.state == RecordingState::Error || self.state == RecordingState::Idle
    }
}

/// Once a start is admitted the session is starting, and a second start
/// request is refused until the session has completed, failed or gone
/// back to idle; a stop request does not make room for one either.
pub proof fn law_no_overlapping_sessions(s: SessionStatus)
    requires
        s.state == RecordingState::Starting || s.state == RecordingState::Recording
            || s.state == RecordingState::Stopping,
    ensures
        !s.state.spec_is_startable(),
{
}

/// What the global shortcut does in a given state.
#[derive(Clone, Copy, Debug, PartialEq, Eq, Structural)]
pub enum HotkeyAction {
    StopRecording,
    StartRecording,
    Nothing,
}

/// The shortcut stops an active session, starts one when none is running
/// (idle, completed or failed), and does nothing while one is stopping.
pub fn hotkey_action(state: RecordingState) -> (r: HotkeyAction)
    ensures
        state.spec_is_active() ==> r == HotkeyAction::StopRecording,
        state.spec_is_startable() ==> r == HotkeyAction::StartRecording,
        state == RecordingState::Stopping ==> r == HotkeyAction::Nothing,
{
    if state.is_active() {
        HotkeyAction::StopRecording
    } else if state.is_startable() {
        HotkeyAction::StartRecording
    } else {
        HotkeyAction::Nothing
    }
}

/// The tray's "Exit" is honoured only while no session is active.
pub fn tray_exit_allowed(state: RecordingState) -> (r: bool)
    ensures
        r == !state.spec_is_active(),
{
    !state.is_active()
}

/// The event sent when progress reporting stops.
#[derive(Debug)]
pub enum SessionNotice {
    Stopped,
    Failed(String),
    Silent,
}

/// The notice after the progress loop ends: "stopped" for a completed
/// session, "error" with the last error (or "Recording failed") for a
/// failed one, nothing otherwise.
pub fn final_notice(state: RecordingState, last_error: Option<String>) -> (r: SessionNotice)
    ensures
        state == RecordingState::Completed ==> r is Stopped,
        state == RecordingState::Error ==> (r matches SessionNotice::Failed(e) && e@ == match last_error {
            Some(m) => m@,
            None => "Recording failed"@,
        }),
        state != RecordingState::Completed && state != RecordingState::Error ==> r is Silent,
{
    if state == RecordingState::Completed {
        SessionNotice::Stopped
    } else if state == RecordingState::Error {
        match last_error {
            Some(m) => SessionNotice::Failed(m),
            None => {
                proof {
                    reveal_strlit("Recording failed");
                }
                SessionNotice::Failed(String::from_str("Recording failed"))
            },
        }
    } else {
        SessionNotice::Silent
    }
}

/// The progress to report: the session's own, or while it has none, an
/// empty report in its current state for the selected displays and the
/// audio settings.
pub fn progress_payload(progress: Option<RecordingProgress>, state: RecordingState, settings: &AppSettings) -> (r: RecordingProgress)
    ensures
        progress matches Some(p) ==> r == p,
        progress is None ==> {
            &&& r.elapsed_secs == 0
            &&& r.state == state
            &&& r.display_count == settings.selected_monitor_ids@.len()
            &&& r.output_paths@.len() == 0
            &&& r.file_size_bytes.is_none()
            &&& r.system_audio == settings.system_audio_enabled
            &&& r.microphone == settings.microphone_enabled
        },
{
    match progress {
        Some(p) => p,
        None => RecordingProgress {
            elapsed_secs: 0,
            state,
            display_count: settings.selected_monitor_ids.len(),
            output_paths: Vec::new(),
            file_size_bytes: None,
            system_audio: settings.system_audio_enabled,
            microphone: settings.microphone_enabled,
        },
    }
}

/// A start request needs at least one selected display.
pub fn check_selection(settings: &AppSettings) -> (r: Result<(), String>)
    ensures
        r is Ok <==> settings.selected_monitor_ids@.len() > 0,
        r matches Err(e) ==> e@ == "Select at least one display before recording."@,
{
    if settings.selected_monitor_ids.len() == 0 {
        proof {
            reveal_strlit("Select at least one display before recording.");
        }
        return Err(String::from_str("Select at least one display before recording."));
    }
    Ok(())
}

/// The progress report while recording: elapsed whole seconds, the number
/// of displays, the output paths, their total size so far and the audio
/// settings.
pub fn recording_progress(elapsed_secs: u64, display_count: usize, output_paths: &Vec<String>, file_size_bytes: u64, settings: &AppSettings) -> (r: RecordingProgress)
    ensures
        r.elapsed_secs == elapsed_secs,
        r.state == RecordingState::Recording,
        r.display_count == display_count,
        r.output_paths@ == output_paths@,
        r.file_size_bytes == Some(file_size_bytes),
        r.system_audio == settings.system_audio_enabled,
        r.microphone == settings.microphone_enabled,
{
    RecordingProgress {
        elapsed_secs,
        state: RecordingState::Recording,
        display_count,
        output_paths: clone_strings(output_paths),
        file_size_bytes: Some(file_size_bytes),
        system_audio: settings.system_audio_enabled,
        microphone: settings.microphone_enabled,
    }
}

/// The stem of a combined recording's file name.
pub open spec fn combined_stem(stamp: Seq<char>) -> Seq<char> {
    "SimpleRecorder_"@ + stamp
}

/// The stem of the file of the monitor numbered `index`.
pub open spec fn monitor_stem(stamp: Seq<char>, index: nat) -> Seq<char> {
    "SimpleRecorder_"@ + stamp + "_Monitor-"@ + decimal(index)
}

/// The file-name stems of a session started at `stamp`: one for a combined
/// recording, else one per target in target order, named by the target's
/// monitor number.
pub fn output_stems(mode: RecordingMode, stamp: &str, targets: &Vec<MonitorCaptureTarget>) -> (r: Vec<String>)
    ensures
        mode == RecordingMode::Combined ==> r@.len() == 1 && r@[0]@ == combined_stem(stamp@),
        mode == RecordingMode::Separate ==> r@.len() == targets@.len()
            && forall|i: int| 0 <= i < targets@.len() ==> (#[trigger] r@[i])@ == monitor_stem(stamp@, targets@[i].info.index as nat),
{
    let mut out: Vec<String> = Vec::new();
    match mode {
        RecordingMode::Combined => {
            let mut s = String::from_str("SimpleRecorder_");
            s.append(stamp);
            out.push(s);
        },
        RecordingMode::Separate => {
            let mut i: usize = 0;
            while i < targets.len()
                invariant
                    i <= targets@.len(),
                    out@.len() == i,
                    forall|k: int| 0 <= k < i ==> (#[trigger] out@[k])@ == monitor_stem(stamp@, targets@[k].info.index as nat),
                decreases targets@.len() - i,
            {
                let mut s = String::from_str("SimpleRecorder_");
                s.append(stamp);
                s.append("_Monitor-");
                push_decimal(&mut s, targets[i].info.index as u64);
                out.push(s);
                i = i + 1;
            }
        },
    }
    out
}

/// The `attempt`-th candidate file name for a stem: "<stem><ext>" first,
/// then "<stem>_1<ext>", "<stem>_2<ext>", ...
pub open spec fn candidate_name(stem: Seq<char>, ext: Seq<char>, attempt: nat) -> Seq<char> {
    if attempt == 0 {
        stem + ext
    } else {
        stem + "_"@ + decimal(attempt) + ext
    }
}

/// The `attempt`-th candidate file name for a stem; the caller tries them
/// in order until one names no existing file.
pub fn unique_name_candidate(stem: &str, ext: &str, attempt: u64) -> (r: String)
    ensures
        r@ == candidate_name(stem@, ext@, attempt as nat),
{
    let mut s = String::from_str(stem);
    if attempt > 0 {
        s.append("_");
        push_decimal(&mut s, attempt);
    }
    s.append(ext);
    s
}

/// Two different attempts never give the same candidate name, so a search
/// that moves past every taken name ends on a free one.
pub proof fn law_candidates_distinct(stem: Seq<char>, ext: Seq<char>, a: nat, b: nat)
    requires
        a != b,
    ensures
        candidate_name(stem, ext, a) != candidate_name(stem, ext, b),
{
    reveal_strlit("_");
    if a == 0 || b == 0 {
        let n = if a == 0 { b } else { a };
        lemma_decimal_nonempty(n);
        assert(candidate_name(stem, ext, n).len() > candidate_name(stem, ext, 0).len());
    } else {
        let ca = candidate_name(stem, ext, a);
        let cb = candidate_name(stem, ext, b);
        assert("_"@.len() == 1);
        assert(ca == stem + "_"@ + decimal(a) + ext);
        assert(ca.len() == stem.len() + 1 + decimal(a).len() + ext.len());
        assert(cb.len() == stem.len() + 1 + decimal(b).len() + ext.len());
        if ca == cb {
            let la = decimal(a).len();
            let lb = decimal(b).len();
            assert(la == lb);
            assert(decimal(a) =~= ca.subrange(stem.len() + 1int, stem.len() + 1int + la));
            assert(decimal(b) =~= cb.subrange(stem.len() + 1int, stem.len() + 1int + lb));
            lemma_decimal_injective(a, b);
        }
    }
}

proof fn lemma_decimal_nonempty(n: nat)
    ensures
        decimal(n).len() >= 1,
    decreases n,
{
    if n >= 10 {
        lemma_decimal_nonempty(n / 10);
    }
}

proof fn lemma_digit_char_injective(a: int, b: int)
    requires
        0 <= a < 10,
        0 <= b < 10,
        crate::text::digit_char(a) == crate::text::digit_char(b),
    ensures
        a == b,
{
}

proof fn lemma_decimal_injective(a: nat, b: nat)
    requires
        decimal(a) == decimal(b),
    ensures
        a == b,
    decreases a + b,
{
    lemma_decimal_nonempty(a);
    lemma_decimal_nonempty(b);
    if a < 10 && b < 10 {
        assert(decimal(a) == seq![crate::text::digit_char(a as int)]);
        assert(decimal(b) == seq![crate::text::digit_char(b as int)]);
        assert(decimal(a)[0] == decimal(b)[0]);
        assert(seq![crate::text::digit_char(a as int)][0] == crate::text::digit_char(a as int));
        assert(seq![crate::text::digit_char(b as int)][0] == crate::text::digit_char(b as int));
        lemma_digit_char_injective(a as int, b as int);
    } else if a >= 10 && b >= 10 {
        let da = decimal(a);
        assert(da.drop_last() == decimal(a / 10));
        assert(decimal(b).drop_last() == decimal(b / 10));
        assert(da.last() == decimal(b).last());
        lemma_digit_char_injective((a % 10) as int, (b % 10) as int);
        lemma_decimal_injective(a / 10, b / 10);
    } else {
        let big = if a >= 10 { a } else { b };
        lemma_decimal_nonempty(big / 10);
        assert(decimal(big).len() >= 2);
    }
}

/// The encoder that a session opens: its frame size and whether it
/// carries the audio track.
#[derive(Clone, Copy, Debug, PartialEq, Eq, Structural)]
pub struct WriterPlan {
    pub width: u32,
    pub height: u32,
    pub with_audio: bool,
}

/// Whether a session records any audio.
pub open spec fn includes_audio(settings: AppSettings) -> bool {
    settings.system_audio_enabled || settings.microphone_enabled
}

/// The encoders a session opens: a combined recording has one at the
/// canvas size; a separate recording has one per target at that monitor's
/// size, and only the first carries the audio.
pub fn writer_plans(settings: &AppSettings, targets: &Vec<MonitorCaptureTarget>, canvas_w: u32, canvas_h: u32) -> (r: Vec<WriterPlan>)
    ensures
        settings.recording_mode == RecordingMode::Combined ==> r@ == seq![WriterPlan { width: canvas_w, height: canvas_h, with_audio: includes_audio(*settings) }],
        settings.recording_mode == RecordingMode::Separate ==> r@.len() == targets@.len()
            && forall|i: int| 0 <= i < targets@.len() ==> #[trigger] r@[i] == (WriterPlan {
                width: targets@[i].info.width,
                height: targets@[i].info.height,
                with_audio: includes_audio(*settings) && i == 0,
            }),
{
    let include_audio = settings.system_audio_enabled || settings.microphone_enabled;
    let mut plans: Vec<WriterPlan> = Vec::new();
    match settings.recording_mode {
        RecordingMode::Combined => {
            plans.push(WriterPlan { width: canvas_w, height: canvas_h, with_audio: include_audio });
        },
        RecordingMode::Separate => {
            let mut i: usize = 0;
            while i < targets.len()
                invariant
                    i <= targets@.len(),
                    include_audio == includes_audio(*settings),
                    plans@.len() == i,
                    forall|k: int| 0 <= k < i ==> #[trigger] plans@[k] == (WriterPlan {
                        width: targets@[k].info.width,
                        height: targets@[k].info.height,
                        with_audio: include_audio && k == 0,
                    }),
                decreases targets@.len() - i,
            {
                plans.push(WriterPlan {
                    width: targets[i].info.width,
                    height: targets[i].info.height,
                    with_audio: include_audio && i == 0,
                });
                i = i + 1;
            }
        },
    }
    plans
}

/// Milliseconds between encoded frames at `fps` (a rate of 0 counts as 1).
pub fn frame_period_ms(fps: u32) -> (r: u64)
    ensures
        r == 1000int / (if fps == 0 { 1int } else { fps as int }),
{
    let f: u32 = if fps == 0 { 1 } else { fps };
    (1000 / f) as u64
}

/// What one pass of the session loop does.
#[derive(Clone, Copy, Debug, PartialEq, Eq, Structural)]
pub struct LoopActions {
    pub publish_progress: bool,
    pub refresh_preview: bool,
    pub encode: bool,
}

/// The timers of the session loop, in milliseconds since the session
/// started: progress is published every 500 ms, the preview refreshed every
/// 800 ms, and a frame encoded once a frame period has passed since the
/// last frame written.
#[derive(Clone, Copy, Debug)]
pub struct LoopClock {
    pub frame_period_ms: i64,
    pub last_progress_ms: i64,
    pub last_preview_ms: i64,
    pub last_encode_ms: i64,
}

impl LoopClock {
    /// The timers at the start: progress counted from now, the preview due
    /// at once, and the first frame due at once.
    pub fn start(fps: u32) -> (r: LoopClock)
        ensures
            r.frame_period_ms == 1000int / (if fps == 0 { 1int } else { fps as int }),
            r.last_progress_ms == 0,
            r.last_preview_ms == -1000,
            r.last_encode_ms == -r.frame_period_ms,
    {
        let period = frame_period_ms(fps) as i64;
        LoopClock { frame_period_ms: period, last_progress_ms: 0, last_preview_ms: -1000, last_encode_ms: -period }
    }

    /// The actions due at `now_ms`; the progress and preview timers restart
    /// when their action is due.
    pub fn tick(&mut self, now_ms: i64) -> (r: LoopActions)
        requires
            0 <= now_ms <= i64::MAX - 1000,
            0 <= old(self).frame_period_ms <= 1000,
            -1000 <= old(self).last_progress_ms <= now_ms,
            -1000 <= old(self).last_preview_ms <= now_ms,
            -1000 <= old(self).last_encode_ms <= now_ms,
        ensures
            r.publish_progress == (now_ms - old(self).last_progress_ms >= 500),
            r.refresh_preview == (now_ms - old(self).last_preview_ms >= 800),
            r.encode == (now_ms - old(self).last_encode_ms >= old(self).frame_period_ms),
            final(self).last_progress_ms == if r.publish_progress { now_ms } else { old(self).last_progress_ms },
            final(self).last_preview_ms == if r.refresh_preview { now_ms } else { old(self).last_preview_ms },
            final(self).last_encode_ms == old(self).last_encode_ms,
            final(self).frame_period_ms == old(self).frame_period_ms,
    {
        let publish_progress = now_ms - self.last_progress_ms >= 500;
        let refresh_preview = now_ms - self.last_preview_ms >= 800;
        let encode = now_ms - self.last_encode_ms >= self.frame_period_ms;
        if publish_progress {
            self.last_progress_ms = now_ms;
        }
        if refresh_preview {
            self.last_preview_ms = now_ms;
        }
        LoopActions { publish_progress, refresh_preview, encode }
    }

    /// A frame was written at `now_ms`: the next is due a period later.
    pub fn frame_written(&mut self, now_ms: i64)
        ensures
            final(self).last_encode_ms == now_ms,
            final(self).last_progress_ms == old(self).last_progress_ms,
            final(self).last_preview_ms == old(self).last_preview_ms,
            final(self).frame_period_ms == old(self).frame_period_ms,
    {
        self.last_encode_ms = now_ms;
    }
}

/// The timestamp last written for a monitor, or -1 before its first frame.
pub open spec fn last_written(last: Map<Seq<char>, i64>, id: Seq<char>) -> int {
    if last.contains_key(id) { last[id] as int } else { -1 }
}

/// A frame is written when its timestamp differs from the one last
/// written for its monitor (-1 before the first).
pub fn frame_is_new(last: &IdMap<i64>, id: &String, timestamp_100ns: i64) -> (r: bool)
    ensures
        r == (timestamp_100ns != last_written(last.view(), id@)),
{
    let prev: i64 = match last.get(id) {
        Some(t) => *t,
        None => -1,
    };
    timestamp_100ns != prev
}

/// The separate-mode writes of one pass over the first `k` targets: the
/// indices of the targets whose latest frame is new, in order, and the
/// last-written timestamps after them. A target's frame counts as written
/// as soon as it is chosen, so a monitor selected twice is written once.
pub open spec fn separate_writes(
    ts: Seq<MonitorCaptureTarget>, frames: Map<Seq<char>, CapturedFrame>, last: Map<Seq<char>, i64>, k: int,
) -> (Seq<usize>, Map<Seq<char>, i64>)
    decreases k,
{
    if k <= 0 {
        (Seq::empty(), last)
    } else {
        let (due, written) = separate_writes(ts, frames, last, k - 1);
        let id = ts[k - 1].info.id@;
        if frames.contains_key(id) && frames[id].timestamp_100ns != last_written(written, id) {
            (due.push((k - 1) as usize), written.insert(id, frames[id].timestamp_100ns))
        } else {
            (due, written)
        }
    }
}

/// Chooses, in target order, the targets whose latest frame differs from
/// the one last written for their monitor, and records those frames as
/// written.
pub fn plan_separate_writes(
    targets: &Vec<MonitorCaptureTarget>,
    frames: &IdMap<CapturedFrame>,
    last: &mut IdMap<i64>,
) -> (r: Vec<usize>)
    ensures
        r@ == separate_writes(targets@, frames.view(), old(last).view(), targets@.len() as int).0,
        final(last).view() == separate_writes(targets@, frames.view(), old(last).view(), targets@.len() as int).1,
{
    let ghost last0 = last.view();
    let mut due: Vec<usize> = Vec::new();
    let mut i: usize = 0;
    while i < targets.len()
        invariant
            i <= targets@.len(),
            due@ == separate_writes(targets@, frames.view(), last0, i as int).0,
            last.view() == separate_writes(targets@, frames.view(), last0, i as int).1,
        decreases targets@.len() - i,
    {
        let id = &targets[i].info.id;
        match frames.get(id) {
            Some(frame) => {
                if frame_is_new(last, id, frame.timestamp_100ns) {
                    last.insert(id.clone(), frame.timestamp_100ns);
                    due.push(i);
                }
            },
            None => {},
        }
        i = i + 1;
    }
    due
}

} // verus!
