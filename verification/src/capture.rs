use vstd::prelude::*;
use crate::id_map::IdMap;
use crate::models::{MonitorCaptureTarget, MonitorInfo};
use crate::text::{concat2, decimal, push_decimal};
use vstd::arithmetic::div_mod::lemma_fundamental_div_mod_converse;
use vstd::arithmetic::mul::lemma_mul_inequality;

verus! {

/// One captured monitor image: `width` x `height` pixels, four bytes per
/// pixel in blue, green, red, alpha order, stamped in 100-nanosecond units
/// from the start of the session.
#[derive(Debug)]
pub struct CapturedFrame {
    pub width: u32,
    pub height: u32,
    pub bgra: Vec<u8>,
    pub timestamp_100ns: i64,
}

impl Clone for CapturedFrame {
    fn clone(&self) -> (r: Self)
        ensures
            r.width == self.width,
            r.height == self.height,
            r.bgra@ == self.bgra@,
            r.timestamp_100ns == self.timestamp_100ns,
    {
        CapturedFrame {
            width: self.width,
            height: self.height,
            bgra: copy_bytes(&self.bgra),
            timestamp_100ns: self.timestamp_100ns,
        }
    }
}

/// A copy of a byte buffer.
pub fn copy_bytes(v: &Vec<u8>) -> (r: Vec<u8>)
    ensures
        r@ == v@,
{
    let mut r: Vec<u8> = Vec::with_capacity(v.len());
    let mut i: usize = 0;
    while i < v.len()
        invariant
            i <= v@.len(),
            r@ == v@.subrange(0, i as int),
        decreases v@.len() - i,
    {
        r.push(v[i]);
        i = i + 1;
    }
    assert(r@ == v@);
    r
}

/// A rectangle in desktop coordinates; `right` and `bottom` are exclusive.
#[derive(Clone, Copy, Debug, PartialEq, Eq, Structural)]
pub struct Rect {
    pub left: i32,
    pub top: i32,
    pub right: i32,
    pub bottom: i32,
}

/// The desktop rectangle that a monitor covers.
pub fn monitor_rect(info: &MonitorInfo) -> (r: Rect)
    requires
        i32::MIN <= info.x + (info.width as i32) <= i32::MAX,
        i32::MIN <= info.y + (info.height as i32) <= i32::MAX,
    ensures
        r == (Rect {
            left: info.x,
            top: info.y,
            right: (info.x + (info.width as i32)) as i32,
            bottom: (info.y + (info.height as i32)) as i32,
        }),
{
    Rect {
        left: info.x,
        top: info.y,
        right: info.x + info.width as i32,
        bottom: info.y + info.height as i32,
    }
}

/// Whether two rectangles have the same four edges.
pub fn rects_equal(a: Rect, b: Rect) -> (r: bool)
    ensures
        r == (a == b),
{
    a.left == b.left && a.top == b.top && a.right == b.right && a.bottom == b.bottom
}

/// Whether monitor `id` can be captured: its handle is known and the
/// enumeration lists it.
pub open spec fn resolves(id: Seq<char>, all: Seq<MonitorInfo>, handles: Map<Seq<char>, isize>) -> bool {
    &&& handles.contains_key(id)
    &&& exists|j: int| 0 <= j < all.len() && (#[trigger] all[j]).id@ == id
}

/// `j` is the first monitor of `all` whose identifier is `id`.
pub open spec fn first_match(all: Seq<MonitorInfo>, id: Seq<char>, j: int) -> bool {
    &&& 0 <= j < all.len()
    &&& all[j].id@ == id
    &&& forall|k: int| 0 <= k < j ==> (#[trigger] all[k]).id@ != id
}

/// The message for an identifier that cannot be captured.
pub open spec fn unresolved_message(id: Seq<char>, handles: Map<Seq<char>, isize>) -> Seq<char> {
    if !handles.contains_key(id) {
        "Unknown monitor: "@ + id
    } else {
        "Monitor info missing: "@ + id
    }
}

/// The first monitor of `all` with identifier `id`, if there is one.
fn find_monitor(all: &Vec<MonitorInfo>, id: &String) -> (r: Option<usize>)
    ensures
        match r {
            Some(j) => first_match(all@, id@, j as int),
            None => forall|k: int| 0 <= k < all@.len() ==> (#[trigger] all@[k]).id@ != id@,
        },
{
    let mut j: usize = 0;
    while j < all.len()
        invariant
            j <= all@.len(),
            forall|k: int| 0 <= k < j ==> (#[trigger] all@[k]).id@ != id@,
        decreases all@.len() - j,
    {
        if all[j].id == *id {
            return Some(j);
        }
        j = j + 1;
    }
    None
}

/// Turns the identifiers the user selected into capture targets, in the
/// order given. `all` is the current monitor enumeration and `handles` maps
/// each enumerated identifier to its operating-system handle. Each target
/// carries the first enumerated monitor with its identifier. The first
/// identifier without a handle gives "Unknown monitor: <id>", the first
/// with a handle but no enumerated monitor "Monitor info missing: <id>",
/// and an empty selection "No monitors selected".
pub fn resolve_capture_targets(ids: &Vec<String>, all: &Vec<MonitorInfo>, handles: &IdMap<isize>) -> (r: Result<Vec<MonitorCaptureTarget>, String>)
    ensures
        r is Ok <==> ids@.len() > 0 && forall|i: int| 0 <= i < ids@.len() ==> resolves((#[trigger] ids@[i])@, all@, handles.view()),
        r matches Ok(out) ==> {
            &&& out@.len() == ids@.len()
            &&& forall|i: int| 0 <= i < ids@.len() ==> {
                &&& (#[trigger] out@[i]).hmonitor == handles.view()[ids@[i]@]
                &&& exists|j: int| first_match(all@, ids@[i]@, j) && out@[i].info == all@[j]
            }
        },
        r matches Err(e) ==> {
            ||| exists|k: int| 0 <= k < ids@.len()
                && (forall|m: int| 0 <= m < k ==> resolves((#[trigger] ids@[m])@, all@, handles.view()))
                && !resolves(ids@[k]@, all@, handles.view())
                && e@ == unresolved_message(ids@[k]@, handles.view())
            ||| ids@.len() == 0 && e@ == "No monitors selected"@
        },
{
    let mut out: Vec<MonitorCaptureTarget> = Vec::new();
    let mut i: usize = 0;
    while i < ids.len()
        invariant
            i <= ids@.len(),
            out@.len() == i,
            forall|m: int| 0 <= m < i ==> resolves((#[trigger] ids@[m])@, all@, handles.view()),
            forall|m: int| 0 <= m < i ==> {
                &&& (#[trigger] out@[m]).hmonitor == handles.view()[ids@[m]@]
                &&& exists|j: int| first_match(all@, ids@[m]@, j) && out@[m].info == all@[j]
            },
        decreases ids@.len() - i,
    {
        let id = &ids[i];
        let hmon = match handles.get(id) {
            Some(h) => *h,
            None => {
                let e = concat2("Unknown monitor: ", id.as_str());
                assert(!resolves(ids@[i as int]@, all@, handles.view()));
                return Err(e);
            },
        };
        let j = match find_monitor(all, id) {
            Some(j) => j,
            None => {
                let e = concat2("Monitor info missing: ", id.as_str());
                assert(!resolves(ids@[i as int]@, all@, handles.view()));
                return Err(e);
            },
        };
        let info = all[j].clone();
        out.push(MonitorCaptureTarget { info, hmonitor: hmon });
        assert(first_match(all@, ids@[i as int]@, j as int));
        i = i + 1;
    }
    if out.len() == 0 {
        proof {
            reveal_strlit("No monitors selected");
        }
        return Err(String::from_str("No monitors selected"));
    }
    Ok(out)
}

/// Numbers monitors 1, 2, ... in enumeration order.
pub fn renumber_monitors(monitors: &mut Vec<MonitorInfo>)
    requires
        old(monitors)@.len() < usize::MAX,
    ensures
        final(monitors)@.len() == old(monitors)@.len(),
        forall|i: int| 0 <= i < old(monitors)@.len() ==> #[trigger] final(monitors)@[i] == (MonitorInfo { index: (i + 1) as usize, ..old(monitors)@[i] }),
{
    let mut i: usize = 0;
    while i < monitors.len()
        invariant
            i <= monitors@.len(),
            monitors@.len() == old(monitors)@.len(),
            old(monitors)@.len() < usize::MAX,
            forall|k: int| 0 <= k < i ==> #[trigger] monitors@[k] == (MonitorInfo { index: (k + 1) as usize, ..old(monitors)@[k] }),
            forall|k: int| i <= k < monitors@.len() ==> #[trigger] monitors@[k] == old(monitors)@[k],
        decreases monitors@.len() - i,
    {
        let mut m = monitors[i].clone();
        m.index = i + 1;
        monitors.set(i, m);
        i = i + 1;
    }
}

/// What `String::from_utf16_lossy` gives for a sequence of UTF-16 code units.
pub uninterp spec fn utf16_lossy(units: Seq<u16>) -> Seq<char>;

/// What `str::trim` leaves of a string: it without its leading and trailing
/// Unicode white space.
pub uninterp spec fn trim_white_space(s: Seq<char>) -> Seq<char>;

/// Decodes UTF-16 code units, with U+FFFD in place of invalid sequences.
/// Calls `String::from_utf16_lossy`; the contract names its result.
#[verifier::external_body]
fn string_from_utf16_lossy(units: &[u16]) -> (r: String)
    ensures
        r@ == utf16_lossy(units@),
{
    String::from_utf16_lossy(units)
}

/// The string without leading and trailing white space. Calls `str::trim`;
/// the contract names its result.
#[verifier::external_body]
fn trim_str(s: &str) -> (r: &str)
    ensures
        r@ == trim_white_space(s@),
{
    s.trim()
}

/// The number of code units before the first NUL (all of them if none is
/// NUL).
pub open spec fn nul_index(s: Seq<u16>) -> int
    decreases s.len(),
{
    if s.len() == 0 || s[0] == 0 {
        0
    } else {
        1 + nul_index(s.drop_first())
    }
}

proof fn lemma_nul_index_step(s: Seq<u16>, i: int)
    requires
        0 <= i < s.len(),
        s[i] != 0,
    ensures
        nul_index(s.subrange(i, s.len() as int)) == 1 + nul_index(s.subrange(i + 1, s.len() as int)),
{
    assert(s.subrange(i, s.len() as int).drop_first() == s.subrange(i + 1, s.len() as int));
}

/// The code units of a NUL-terminated device name, up to the terminator.
pub fn until_nul(units: &[u16]) -> (r: Vec<u16>)
    ensures
        r@ == units@.take(nul_index(units@)),
{
    let mut r: Vec<u16> = Vec::new();
    let mut i: usize = 0;
    assert(units@.subrange(0, units@.len() as int) == units@);
    while i < units.len() && units[i] != 0
        invariant
            i <= units@.len(),
            r@ == units@.take(i as int),
            nul_index(units@) == i + nul_index(units@.subrange(i as int, units@.len() as int)),
        decreases units@.len() - i,
    {
        proof {
            lemma_nul_index_step(units@, i as int);
        }
        r.push(units[i]);
        i = i + 1;
    }
    proof {
        let rest = units@.subrange(i as int, units@.len() as int);
        assert(rest.len() == 0 || rest[0] == 0);
    }
    r
}

/// "Monitor <n>" for a nameless device, else "Monitor <n> (<name trimmed>)".
pub open spec fn monitor_label(n: nat, name: Seq<char>) -> Seq<char> {
    if name.len() == 0 {
        "Monitor "@ + decimal(n)
    } else {
        "Monitor "@ + decimal(n) + " ("@ + trim_white_space(name) + ")"@
    }
}

/// "Monitor <n> (<trimmed>)".
pub fn labelled_monitor_name(n: u64, trimmed: &str) -> (r: String)
    ensures
        r@ == "Monitor "@ + decimal(n as nat) + " ("@ + trimmed@ + ")"@,
{
    let mut s = String::from_str("Monitor ");
    push_decimal(&mut s, n);
    s.append(" (");
    s.append(trimmed);
    s.append(")");
    s
}

/// The name shown for the `n`-th monitor, whose device is called
/// `device_name`.
pub fn monitor_display_name(n: usize, device_name: &str) -> (r: String)
    ensures
        r@ == monitor_label(n as nat, device_name@),
{
    if device_name.is_empty() {
        let mut s = String::from_str("Monitor ");
        push_decimal(&mut s, n as u64);
        s
    } else {
        labelled_monitor_name(n as u64, trim_str(device_name))
    }
}

/// Describes a monitor found by enumeration after `prior_count` others:
/// `device` holds its NUL-terminated device name, `rect` its desktop
/// rectangle and `flags` its flags, of which bit 0 marks the primary
/// monitor. It is numbered `prior_count + 1`; its refresh rate is unknown.
pub fn describe_monitor(id: String, device: &[u16], prior_count: usize, rect: Rect, flags: u32) -> (r: MonitorInfo)
    requires
        prior_count < usize::MAX,
        i32::MIN <= rect.right - rect.left <= i32::MAX,
        i32::MIN <= rect.bottom - rect.top <= i32::MAX,
    ensures
        r.id == id,
        r.name@ == monitor_label((prior_count + 1) as nat, utf16_lossy(device@.take(nul_index(device@)))),
        r.index == prior_count + 1,
        r.x == rect.left,
        r.y == rect.top,
        r.width == ((rect.right - rect.left) as i32) as u32,
        r.height == ((rect.bottom - rect.top) as i32) as u32,
        r.refresh_rate_hz.is_none(),
        r.is_primary == (flags % 2 == 1),
{
    let units = until_nul(device);
    let name = string_from_utf16_lossy(units.as_slice());
    let n = prior_count + 1;
    let display_name = monitor_display_name(n, name.as_str());
    let is_primary = flags & 1 != 0;
    assert(is_primary == (flags % 2 == 1)) by (bit_vector)
        requires is_primary == (flags & 1 != 0);
    MonitorInfo {
        id,
        name: display_name,
        index: n,
        x: rect.left,
        y: rect.top,
        width: (rect.right - rect.left) as u32,
        height: (rect.bottom - rect.top) as u32,
        refresh_rate_hz: None,
        is_primary,
    }
}

/// The byte of a mapped texture, with rows `row_pitch` bytes apart, that
/// byte `k` of the packed image with rows of `row_len` bytes comes from.
pub open spec fn packed_source(k: int, row_len: int, row_pitch: int) -> int {
    (k / row_len) * row_pitch + k % row_len
}

/// Copies `height` rows of `width` four-byte pixels out of a mapped
/// texture, whose rows lie `row_pitch` bytes apart, into a tightly packed
/// buffer of `width * height * 4` bytes.
pub fn pack_rows(mapped: &[u8], row_pitch: usize, width: u32, height: u32) -> (r: Vec<u8>)
    requires
        width * height * 4 <= u32::MAX,
        height > 0 ==> (height - 1) * row_pitch + width * 4 <= mapped@.len(),
    ensures
        r@.len() == width * height * 4,
        forall|k: int| 0 <= k < r@.len() ==> #[trigger] r@[k] == mapped@[packed_source(k, width * 4, row_pitch as int)],
{
    let total = (width * height * 4) as usize;
    let mut out: Vec<u8> = vec![0u8; total];
    if height == 0 {
        return out;
    }
    assert(width * 4 <= width * height * 4) by (nonlinear_arith)
        requires height >= 1;
    let row_len = width as usize * 4;
    let rows = height as usize;
    let mapped_len = mapped.len();
    assert(total as int == rows * row_len) by (nonlinear_arith)
        requires total == width * height * 4, rows == height, row_len == width * 4;
    let mut y: usize = 0;
    while y < rows
        invariant
            y <= rows,
            rows == height,
            row_len == width * 4,
            total == rows * row_len,
            out@.len() == total,
            height > 0 ==> (height - 1) * row_pitch + width * 4 <= mapped@.len(),
            mapped_len == mapped@.len(),
            forall|k: int| 0 <= k < y * row_len ==> #[trigger] out@[k] == mapped@[packed_source(k, row_len as int, row_pitch as int)],
        decreases rows - y,
    {
        proof {
            lemma_mul_inequality(y as int, (rows - 1) as int, row_pitch as int);
            lemma_mul_inequality(y as int + 1, rows as int, row_len as int);
            assert(y * row_pitch + row_len <= mapped@.len());
            assert((y + 1) * row_len == y * row_len + row_len) by (nonlinear_arith);
        }
        let src_off = y * row_pitch;
        let dst_off = y * row_len;
        let mut i: usize = 0;
        while i < row_len
            invariant
                i <= row_len,
                y < rows,
                rows == height,
                row_len == width * 4,
                total == rows * row_len,
                out@.len() == total,
                src_off == y * row_pitch,
                dst_off == y * row_len,
                src_off + row_len <= mapped@.len(),
                mapped_len == mapped@.len(),
                dst_off + row_len <= total,
                forall|k: int| 0 <= k < dst_off + i ==> #[trigger] out@[k] == mapped@[packed_source(k, row_len as int, row_pitch as int)],
            decreases row_len - i,
        {
            proof {
                lemma_fundamental_div_mod_converse((dst_off + i) as int, row_len as int, y as int, i as int);
            }
            out.set(dst_off + i, mapped[src_off + i]);
            i = i + 1;
        }
        y = y + 1;
    }
    out
}

/// The shortest time between two emitted frames at `fps` frames per second,
/// in nanoseconds; a rate of 0 counts as 1.
pub fn frame_interval_nanos(fps: u32) -> (r: u64)
    ensures
        r == 1_000_000_000int / (if fps == 0 { 1int } else { fps as int }),
{
    let f: u32 = if fps == 0 { 1 } else { fps };
    1_000_000_000u64 / (f as u64)
}

} // verus!
