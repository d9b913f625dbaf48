use vstd::prelude::*;

verus! {

/// Whether the selected monitors are recorded onto one canvas or each to a
/// file of its own.
#[derive(Clone, Copy, Debug, PartialEq, Eq, Structural)]
pub enum RecordingMode {
    Combined,
    Separate,
}

/// Encoding quality preset.
#[derive(Clone, Copy, Debug, PartialEq, Eq, Structural)]
pub enum Quality {
    Balanced,
    High,
    VeryHigh,
}

/// The residue of `x` modulo 2^32: what a cast to `u32` keeps.
pub open spec fn wrap_u32(x: int) -> int {
    x % 0x1_0000_0000
}

/// The exact (unwrapped) video bitrate for a frame of `width` x `height`
/// pixels: a quarter bit per pixel, times 1, 3/2 or 2 by quality.
pub open spec fn video_bitrate_exact(quality: Quality, width: int, height: int) -> int {
    let base = (width * height) / 4;
    match quality {
        Quality::Balanced => base,
        Quality::High => base * 3 / 2,
        Quality::VeryHigh => base * 2,
    }
}

/// The audio bitrate of a quality preset, in bits per second.
pub open spec fn audio_bitrate(quality: Quality) -> int {
    match quality {
        Quality::Balanced => 128_000,
        Quality::High => 160_000,
        Quality::VeryHigh => 192_000,
    }
}

proof fn lemma_u64_as_u32(x: u64)
    ensures
        (x as u32) as int == wrap_u32(x as int),
{
    assert((x as u32) == x % 0x1_0000_0000) by (bit_vector);
}

impl Quality {
    /// Average H.264 bitrate in bits per second for a `width` x `height`
    /// stream; the product is taken in 64 bits and the result cast to `u32`.
    pub fn video_bitrate_bps(self, width: u32, height: u32) -> (r: u32)
        ensures
            r as int == wrap_u32(video_bitrate_exact(self, width as int, height as int)),
    {
        assert((width as int) * (height as int) <= 0xffff_ffff_ffff_ffff) by (nonlinear_arith)
            requires width <= 0xffff_ffffu32, height <= 0xffff_ffffu32;
        let pixels: u64 = width as u64 * height as u64;
        let base: u64 = pixels / 4;
        let wide: u64 = match self {
            Quality::Balanced => base,
            Quality::High => base * 3 / 2,
            Quality::VeryHigh => base * 2,
        };
        proof {
            lemma_u64_as_u32(wide);
        }
        #[verifier::truncate]
        (wide as u32)
    }

    /// Average AAC bitrate in bits per second.
    pub fn audio_bitrate_bps(self) -> (r: u32)
        ensures
            r as int == audio_bitrate(self),
    {
        match self {
            Quality::Balanced => 128_000,
            Quality::High => 160_000,
            Quality::VeryHigh => 192_000,
        }
    }
}

/// Where a recording session stands.
#[derive(Clone, Copy, Debug, PartialEq, Eq, Structural)]
pub enum RecordingState {
    Idle,
    Starting,
    Recording,
    Stopping,
    Completed,
    Error,
}

impl RecordingState {
    /// A session is active while it starts or records.
    pub open spec fn spec_is_active(self) -> bool {
        self == RecordingState::Starting || self == RecordingState::Recording
    }

    /// A new session may start from these states.
    pub open spec fn spec_is_startable(self) -> bool {
        self == RecordingState::Idle || self == RecordingState::Completed
            || self == RecordingState::Error
    }

    /// Whether the session is starting or recording.
    pub fn is_active(self) -> (r: bool)
        ensures
            r == self.spec_is_active(),
    {
        self == RecordingState::Starting || self == RecordingState::Recording
    }

    /// Whether a new session may start: idle, completed or failed.
    pub fn is_startable(self) -> (r: bool)
        ensures
            r == self.spec_is_startable(),
    {
        self == RecordingState::Idle || self == RecordingState::Completed
            || self == RecordingState::Error
    }
}

/// Copies a list of strings.
pub fn clone_strings(v: &Vec<String>) -> (r: Vec<String>)
    ensures
        r@ == v@,
{
    let mut r: Vec<String> = Vec::new();
    let mut i: usize = 0;
    while i < v.len()
        invariant
            i <= v.len(),
            r@ == v@.subrange(0, i as int),
        decreases v.len() - i,
    {
        r.push(v[i].clone());
        i = i + 1;
    }
    assert(r@ == v@);
    r
}

/// Copies an optional string.
pub fn clone_opt_string(v: &Option<String>) -> (r: Option<String>)
    ensures
        r == *v,
{
    match v {
        Some(s) => Some(s.clone()),
        None => None,
    }
}

/// A physical monitor as the operating system reports it.
#[derive(Debug)]
pub struct MonitorInfo {
    pub id: String,
    pub name: String,
    pub index: usize,
    pub x: i32,
    pub y: i32,
    pub width: u32,
    pub height: u32,
    pub refresh_rate_hz: Option<u32>,
    pub is_primary: bool,
}

impl Clone for MonitorInfo {
    fn clone(&self) -> (r: Self)
        ensures
            r == *self,
    {
        MonitorInfo {
            id: self.id.clone(),
            name: self.name.clone(),
            index: self.index,
            x: self.x,
            y: self.y,
            width: self.width,
            height: self.height,
            refresh_rate_hz: self.refresh_rate_hz,
            is_primary: self.is_primary,
        }
    }
}

/// An audio capture device.
#[derive(Debug)]
pub struct AudioDeviceInfo {
    pub id: String,
    pub name: String,
    pub is_default: bool,
}

impl Clone for AudioDeviceInfo {
    fn clone(&self) -> (r: Self)
        ensures
            r == *self,
    {
        AudioDeviceInfo { id: self.id.clone(), name: self.name.clone(), is_default: self.is_default }
    }
}

/// The user's recording settings.
#[derive(Debug)]
pub struct AppSettings {
    pub selected_monitor_ids: Vec<String>,
    pub recording_mode: RecordingMode,
    pub fps: u32,
    pub quality: Quality,
    pub system_audio_enabled: bool,
    pub microphone_enabled: bool,
    pub selected_microphone_id: Option<String>,
    pub output_directory: String,
}

impl Clone for AppSettings {
    fn clone(&self) -> (r: Self)
        ensures
            r.selected_monitor_ids@ == self.selected_monitor_ids@,
            r.recording_mode == self.recording_mode,
            r.fps == self.fps,
            r.quality == self.quality,
            r.system_audio_enabled == self.system_audio_enabled,
            r.microphone_enabled == self.microphone_enabled,
            r.selected_microphone_id == self.selected_microphone_id,
            r.output_directory == self.output_directory,
    {
        AppSettings {
            selected_monitor_ids: clone_strings(&self.selected_monitor_ids),
            recording_mode: self.recording_mode,
            fps: self.fps,
            quality: self.quality,
            system_audio_enabled: self.system_audio_enabled,
            microphone_enabled: self.microphone_enabled,
            selected_microphone_id: clone_opt_string(&self.selected_microphone_id),
            output_directory: self.output_directory.clone(),
        }
    }
}

impl AppSettings {
    /// The settings a first start uses: no monitor chosen, combined mode,
    /// 30 fps, high quality, system audio and microphone on, the default
    /// microphone, and recordings saved under `output_directory`.
    pub fn defaults_in(output_directory: String) -> (r: AppSettings)
        ensures
            r.selected_monitor_ids@.len() == 0,
            r.recording_mode == RecordingMode::Combined,
            r.fps == 30,
            r.quality == Quality::High,
            r.system_audio_enabled,
            r.microphone_enabled,
            r.selected_microphone_id.is_none(),
            r.output_directory == output_directory,
    {
        AppSettings {
            selected_monitor_ids: Vec::new(),
            recording_mode: RecordingMode::Combined,
            fps: 30,
            quality: Quality::High,
            system_audio_enabled: true,
            microphone_enabled: true,
            selected_microphone_id: None,
            output_directory,
        }
    }

    /// At start-up, settings that select no monitor select every monitor
    /// found, in enumeration order; settings that select some are kept.
    pub fn select_all_if_none(self, monitors: &Vec<MonitorInfo>) -> (r: AppSettings)
        ensures
            self.selected_monitor_ids@.len() != 0 ==> r == self,
            self.selected_monitor_ids@.len() == 0 ==> {
                &&& r.selected_monitor_ids@.len() == monitors@.len()
                &&& forall|i: int| 0 <= i < monitors@.len()
                    ==> r.selected_monitor_ids@[i] == #[trigger] monitors@[i].id
                &&& r == AppSettings { selected_monitor_ids: r.selected_monitor_ids, ..self }
            },
    {
        if self.selected_monitor_ids.len() != 0 {
            return self;
        }
        let mut ids: Vec<String> = Vec::new();
        let mut i: usize = 0;
        while i < monitors.len()
            invariant
                i <= monitors@.len(),
                ids@.len() == i,
                forall|k: int| 0 <= k < i ==> ids@[k] == #[trigger] monitors@[k].id,
            decreases monitors.len() - i,
        {
            ids.push(monitors[i].id.clone());
            i = i + 1;
        }
        AppSettings { selected_monitor_ids: ids, ..self }
    }
}

/// What the progress events report while a session records.
#[derive(Debug)]
pub struct RecordingProgress {
    pub elapsed_secs: u64,
    pub state: RecordingState,
    pub display_count: usize,
    pub output_paths: Vec<String>,
    pub file_size_bytes: Option<u64>,
    pub system_audio: bool,
    pub microphone: bool,
}

impl Clone for RecordingProgress {
    fn clone(&self) -> (r: Self)
        ensures
            r.elapsed_secs == self.elapsed_secs,
            r.state == self.state,
            r.display_count == self.display_count,
            r.output_paths@ == self.output_paths@,
            r.file_size_bytes == self.file_size_bytes,
            r.system_audio == self.system_audio,
            r.microphone == self.microphone,
    {
        RecordingProgress {
            elapsed_secs: self.elapsed_secs,
            state: self.state,
            display_count: self.display_count,
            output_paths: clone_strings(&self.output_paths),
            file_size_bytes: self.file_size_bytes,
            system_audio: self.system_audio,
            microphone: self.microphone,
        }
    }
}

/// The answer to a status query.
#[derive(Debug)]
pub struct RecordingStatus {
    pub state: RecordingState,
    pub progress: Option<RecordingProgress>,
    pub last_error: Option<String>,
}

/// A monitor chosen for capture, with the operating system's handle for it.
#[derive(Debug)]
pub struct MonitorCaptureTarget {
    pub info: MonitorInfo,
    pub hmonitor: isize,
}

impl Clone for MonitorCaptureTarget {
    fn clone(&self) -> (r: Self)
        ensures
            r == *self,
    {
        MonitorCaptureTarget { info: self.info.clone(), hmonitor: self.hmonitor }
    }
}

/// The presets are ordered: a higher quality never asks for a lower video
/// bitrate (before the cast to 32 bits) or a lower audio bitrate.
pub proof fn law_quality_presets_ordered(width: nat, height: nat)
    ensures
        video_bitrate_exact(Quality::Balanced, width as int, height as int)
            <= video_bitrate_exact(Quality::High, width as int, height as int),
        video_bitrate_exact(Quality::High, width as int, height as int)
            <= video_bitrate_exact(Quality::VeryHigh, width as int, height as int),
        audio_bitrate(Quality::Balanced) < audio_bitrate(Quality::High),
        audio_bitrate(Quality::High) < audio_bitrate(Quality::VeryHigh),
        audio_bitrate(Quality::Balanced) == 128_000,
        audio_bitrate(Quality::High) == 160_000,
        audio_bitrate(Quality::VeryHigh) == 192_000,
{
    let base = (width * height) / 4;
    assert(width * height >= 0) by (nonlinear_arith);
    assert(base >= 0);
    assert(base <= base * 3 / 2);
    assert(base * 3 / 2 <= base * 2);
}

/// The video bitrate before the cast to 32 bits: Balanced spends a
/// quarter bit per pixel (rounded down), High exactly 3/2 of that (rounded
/// down) and VeryHigh exactly twice that, at every frame size; and a value
/// that fits in 32 bits survives the cast unchanged.
pub proof fn law_video_bitrate_ratios(width: nat, height: nat, x: int)
    ensures
        video_bitrate_exact(Quality::Balanced, width as int, height as int) == (width * height) / 4,
        video_bitrate_exact(Quality::High, width as int, height as int)
            == video_bitrate_exact(Quality::Balanced, width as int, height as int) * 3 / 2,
        video_bitrate_exact(Quality::VeryHigh, width as int, height as int)
            == 2 * video_bitrate_exact(Quality::Balanced, width as int, height as int),
        0 <= x < 0x1_0000_0000 ==> wrap_u32(x) == x,
{
}

} // verus!
