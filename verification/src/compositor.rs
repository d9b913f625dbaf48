use vstd::prelude::*;
use vstd::arithmetic::div_mod::{lemma_fundamental_div_mod, lemma_fundamental_div_mod_converse, lemma_mod_pos_bound};
use vstd::arithmetic::mul::lemma_mul_inequality;
use crate::capture::CapturedFrame;
use crate::id_map::IdMap;
use crate::models::{MonitorCaptureTarget, RecordingMode};

verus! {

/// Canvas byte `i` lies in the copied part: its pixel, at column
/// `(i / 4) % cw` and row `(i / 4) / cw` of a `cw`-pixel-wide canvas, falls
/// in the source image placed at (`dx`, `dy`), inside the canvas height
/// `ch`, in a row before `ry` or in row `ry` before column `rx` of the
/// source, and both its four source bytes and its four canvas bytes exist.
pub open spec fn blit_covers(
    cw: int, ch: int, dx: int, dy: int, sw: int, sh: int,
    src_len: int, canvas_len: int, i: int, ry: int, rx: int,
) -> bool {
    let p = i / 4;
    let cx = p % cw;
    let cy = p / cw;
    &&& cw > 0
    &&& 0 <= i < canvas_len
    &&& dx <= cx < dx + sw
    &&& dy <= cy < dy + sh
    &&& cy < ch
    &&& (cy - dy < ry || (cy - dy == ry && cx - dx < rx))
    &&& ((cy - dy) * sw + (cx - dx)) * 4 + 3 < src_len
    &&& p * 4 + 3 < canvas_len
}

/// The source byte that canvas byte `i` takes when it is covered.
pub open spec fn blit_source_index(cw: int, dx: int, dy: int, sw: int, i: int) -> int {
    let p = i / 4;
    ((p / cw - dy) * sw + (p % cw - dx)) * 4 + i % 4
}

/// The canvas after the source rows before `ry`, and the first `rx` pixels
/// of row `ry`, have been copied.
pub open spec fn blit_partial(
    canvas: Seq<u8>, cw: int, ch: int, dx: int, dy: int, sw: int, sh: int,
    src: Seq<u8>, ry: int, rx: int,
) -> Seq<u8> {
    Seq::new(
        canvas.len(),
        |i: int|
            if blit_covers(cw, ch, dx, dy, sw, sh, src.len() as int, canvas.len() as int, i, ry, rx) {
                src[blit_source_index(cw, dx, dy, sw, i)]
            } else {
                canvas[i]
            },
    )
}

/// `canvas` (`cw` x `ch` pixels, four bytes each) with the `sw` x `sh`
/// source image `src` copied onto it at (`dx`, `dy`). What falls outside the
/// canvas is clipped; a pixel is copied only where its four source bytes
/// and its four canvas bytes all exist.
pub open spec fn blit(canvas: Seq<u8>, cw: int, ch: int, dx: int, dy: int, sw: int, sh: int, src: Seq<u8>) -> Seq<u8> {
    blit_partial(canvas, cw, ch, dx, dy, sw, sh, src, sh, 0)
}

/// A copied image paints only inside its own rectangle: a canvas byte
/// whose pixel lies outside the `sw` x `sh` rectangle at (`dx`, `dy`) keeps
/// its value, and one inside it, on the canvas and with its source and
/// canvas bytes present, takes the matching source byte.
pub proof fn law_blit_stays_in_place(
    canvas: Seq<u8>, cw: int, ch: int, dx: int, dy: int, sw: int, sh: int, src: Seq<u8>, i: int,
)
    requires
        cw > 0,
        0 <= i < canvas.len(),
    ensures
        ({
            let cx = (i / 4) % cw;
            let cy = (i / 4) / cw;
            &&& !(dx <= cx < dx + sw && dy <= cy < dy + sh) ==> blit(canvas, cw, ch, dx, dy, sw, sh, src)[i] == canvas[i]
            &&& (dx <= cx < dx + sw && dy <= cy < dy + sh && cy < ch
                && ((cy - dy) * sw + (cx - dx)) * 4 + 3 < src.len() && (i / 4) * 4 + 3 < canvas.len())
                ==> blit(canvas, cw, ch, dx, dy, sw, sh, src)[i] == src[((cy - dy) * sw + (cx - dx)) * 4 + i % 4]
        }),
{
}

/// The 32-bit offsets of the source pixel (`x`, `y`) and of the canvas
/// pixel it lands on stay in range.
pub open spec fn pixel_fits(cw: int, dx: int, dy: int, sw: int, y: int, x: int) -> bool {
    &&& y * sw + x <= 0x3fff_ffff
    &&& (dy + y) * cw + (dx + x) <= 0x3fff_ffff
}

/// Every pixel the copy visits has its byte offsets within 32 bits.
pub open spec fn blit_fits(cw: int, ch: int, dx: int, dy: int, sw: int, sh: int) -> bool {
    forall|y: int, x: int|
        0 <= y < sh && dy + y < ch && 0 <= x < sw && dx + x < cw ==> #[trigger] pixel_fits(cw, dx, dy, sw, y, x)
}

proof fn lemma_pixel_of(cw: int, cx: int, cy: int, i: int)
    requires
        cw > 0,
        0 <= cx < cw,
        cy >= 0,
        (cy * cw + cx) * 4 <= i < (cy * cw + cx) * 4 + 4,
    ensures
        i / 4 == cy * cw + cx,
        (i / 4) % cw == cx,
        (i / 4) / cw == cy,
        i % 4 == i - (cy * cw + cx) * 4,
{
    lemma_fundamental_div_mod_converse(i, 4, cy * cw + cx, i - (cy * cw + cx) * 4);
    lemma_fundamental_div_mod_converse(cy * cw + cx, cw, cy, cx);
}

proof fn lemma_other_pixel(cw: int, cx: int, cy: int, i: int)
    requires
        cw > 0,
        0 <= i,
        !((cy * cw + cx) * 4 <= i < (cy * cw + cx) * 4 + 4),
    ensures
        !((i / 4) % cw == cx && (i / 4) / cw == cy),
        0 <= (i / 4) % cw < cw,
{
    assert(i / 4 >= 0);
    lemma_fundamental_div_mod(i / 4, cw);
    lemma_fundamental_div_mod(i, 4);
    lemma_mod_pos_bound(i / 4, cw);
    lemma_mod_pos_bound(i, 4);
    if (i / 4) % cw == cx && (i / 4) / cw == cy {
        assert(i / 4 == cy * cw + cx) by (nonlinear_arith)
            requires i / 4 == cw * ((i / 4) / cw) + (i / 4) % cw, (i / 4) % cw == cx, (i / 4) / cw == cy;
    }
}

proof fn lemma_col_bound(cw: int, i: int)
    requires
        cw > 0,
        i >= 0,
    ensures
        0 <= (i / 4) % cw < cw,
{
    assert(i / 4 >= 0);
    lemma_mod_pos_bound(i / 4, cw);
}

/// Copies the `src_w` x `src_h` image `src` onto `canvas`, a
/// `canvas_w` x `canvas_h` image, with its top-left pixel at
/// (`dst_x`, `dst_y`). Rows and columns past the canvas edge are skipped,
/// and so is any pixel whose source or canvas bytes are missing.
pub fn blit_bgra(
    canvas: &mut Vec<u8>,
    canvas_w: u32,
    canvas_h: u32,
    dst_x: u32,
    dst_y: u32,
    src_w: u32,
    src_h: u32,
    src: &[u8],
)
    requires
        blit_fits(canvas_w as int, canvas_h as int, dst_x as int, dst_y as int, src_w as int, src_h as int),
    ensures
        final(canvas)@ == blit(old(canvas)@, canvas_w as int, canvas_h as int, dst_x as int, dst_y as int, src_w as int, src_h as int, src@),
{
    let ghost c0 = canvas@;
    let ghost cw = canvas_w as int;
    let ghost ch = canvas_h as int;
    let ghost dx = dst_x as int;
    let ghost dy = dst_y as int;
    let ghost sw = src_w as int;
    let ghost sh = src_h as int;
    let mut y: u32 = 0;
    while y < src_h
        invariant_except_break
            y <= src_h,
            y == 0 || dst_y + y <= canvas_h,
            canvas@ == blit_partial(c0, cw, ch, dx, dy, sw, sh, src@, y as int, 0),
        invariant
            cw == canvas_w as int, ch == canvas_h as int, dx == dst_x as int, dy == dst_y as int,
            sw == src_w as int, sh == src_h as int,
            blit_fits(cw, ch, dx, dy, sw, sh),
            canvas@.len() == c0.len(),
        ensures
            canvas@ == blit(c0, cw, ch, dx, dy, sw, sh, src@),
        decreases src_h - y,
    {
        let cy = dst_y + y;
        if cy >= canvas_h {
            proof {
                assert forall|i: int| 0 <= i < c0.len() implies
                    blit_covers(cw, ch, dx, dy, sw, sh, src@.len() as int, c0.len() as int, i, y as int, 0)
                    == blit_covers(cw, ch, dx, dy, sw, sh, src@.len() as int, c0.len() as int, i, sh, 0) by {
                }
                assert(canvas@ =~= blit(c0, cw, ch, dx, dy, sw, sh, src@));
            }
            break;
        }
        let mut x: u32 = 0;
        while x < src_w
            invariant_except_break
                x <= src_w,
                x == 0 || dst_x + x <= canvas_w,
                canvas@ == blit_partial(c0, cw, ch, dx, dy, sw, sh, src@, y as int, x as int),
            invariant
                cw == canvas_w as int, ch == canvas_h as int, dx == dst_x as int, dy == dst_y as int,
                sw == src_w as int, sh == src_h as int,
                blit_fits(cw, ch, dx, dy, sw, sh),
                canvas@.len() == c0.len(),
                y < src_h,
                cy == dst_y + y,
                cy < canvas_h,
            ensures
                canvas@ == blit_partial(c0, cw, ch, dx, dy, sw, sh, src@, y + 1, 0),
            decreases src_w - x,
        {
            let cx = dst_x + x;
            if cx >= canvas_w {
                proof {
                    assert forall|i: int| 0 <= i < c0.len() implies
                        blit_covers(cw, ch, dx, dy, sw, sh, src@.len() as int, c0.len() as int, i, y as int, x as int)
                        == blit_covers(cw, ch, dx, dy, sw, sh, src@.len() as int, c0.len() as int, i, y + 1, 0) by {
                        if cw > 0 {
                            lemma_col_bound(cw, i);
                        }
                    }
                    assert(canvas@ =~= blit_partial(c0, cw, ch, dx, dy, sw, sh, src@, y + 1, 0));
                }
                break;
            }
            assert(pixel_fits(cw, dx, dy, sw, y as int, x as int));
            let src_i = ((y * src_w + x) * 4) as usize;
            let dst_i = ((cy * canvas_w + cx) * 4) as usize;
            let ghost prev = canvas@;
            let ghost p = cy * canvas_w + cx;
            if src_i < src.len() && src.len() - src_i > 3 && dst_i < canvas.len() && canvas.len() - dst_i > 3 {
                canvas.set(dst_i, src[src_i]);
                canvas.set(dst_i + 1, src[src_i + 1]);
                canvas.set(dst_i + 2, src[src_i + 2]);
                canvas.set(dst_i + 3, src[src_i + 3]);
                proof {
                    assert forall|i: int| 0 <= i < c0.len() implies
                        canvas@[i] == blit_partial(c0, cw, ch, dx, dy, sw, sh, src@, y as int, x + 1)[i] by {
                        if dst_i <= i < dst_i + 4 {
                            lemma_pixel_of(cw, cx as int, cy as int, i);
                        } else {
                            lemma_other_pixel(cw, cx as int, cy as int, i);
                            assert(canvas@[i] == prev[i]);
                        }
                    }
                    assert(canvas@ =~= blit_partial(c0, cw, ch, dx, dy, sw, sh, src@, y as int, x + 1));
                }
            } else {
                proof {
                    assert forall|i: int| 0 <= i < c0.len() implies
                        canvas@[i] == blit_partial(c0, cw, ch, dx, dy, sw, sh, src@, y as int, x + 1)[i] by {
                        if dst_i <= i < dst_i + 4 {
                            lemma_pixel_of(cw, cx as int, cy as int, i);
                        } else {
                            lemma_other_pixel(cw, cx as int, cy as int, i);
                        }
                    }
                    assert(canvas@ =~= blit_partial(c0, cw, ch, dx, dy, sw, sh, src@, y as int, x + 1));
                }
            }
            x = x + 1;
        }
        proof {
            if x == src_w {
                assert forall|i: int| 0 <= i < c0.len() implies
                    blit_covers(cw, ch, dx, dy, sw, sh, src@.len() as int, c0.len() as int, i, y as int, x as int)
                    == blit_covers(cw, ch, dx, dy, sw, sh, src@.len() as int, c0.len() as int, i, y + 1, 0) by {
                }
                assert(canvas@ =~= blit_partial(c0, cw, ch, dx, dy, sw, sh, src@, y + 1, 0));
            }
        }
        y = y + 1;
    }
}

/// The right edge of a target in desktop coordinates.
pub open spec fn right_edge(t: MonitorCaptureTarget) -> int {
    t.info.x + (t.info.width as i32)
}

/// The bottom edge of a target in desktop coordinates.
pub open spec fn bottom_edge(t: MonitorCaptureTarget) -> int {
    t.info.y + (t.info.height as i32)
}

/// The smallest left edge of the targets (0 for none).
pub open spec fn min_left(ts: Seq<MonitorCaptureTarget>) -> int
    decreases ts.len(),
{
    if ts.len() == 0 {
        0
    } else if ts.len() == 1 {
        ts[0].info.x as int
    } else {
        let m = min_left(ts.drop_last());
        if ts.last().info.x < m { ts.last().info.x as int } else { m }
    }
}

/// The smallest top edge of the targets (0 for none).
pub open spec fn min_top(ts: Seq<MonitorCaptureTarget>) -> int
    decreases ts.len(),
{
    if ts.len() == 0 {
        0
    } else if ts.len() == 1 {
        ts[0].info.y as int
    } else {
        let m = min_top(ts.drop_last());
        if ts.last().info.y < m { ts.last().info.y as int } else { m }
    }
}

/// The largest right edge of the targets (1920 for none).
pub open spec fn max_right(ts: Seq<MonitorCaptureTarget>) -> int
    decreases ts.len(),
{
    if ts.len() == 0 {
        1920
    } else if ts.len() == 1 {
        right_edge(ts[0])
    } else {
        let m = max_right(ts.drop_last());
        if right_edge(ts.last()) > m { right_edge(ts.last()) } else { m }
    }
}

/// The largest bottom edge of the targets (1080 for none).
pub open spec fn max_bottom(ts: Seq<MonitorCaptureTarget>) -> int
    decreases ts.len(),
{
    if ts.len() == 0 {
        1080
    } else if ts.len() == 1 {
        bottom_edge(ts[0])
    } else {
        let m = max_bottom(ts.drop_last());
        if bottom_edge(ts.last()) > m { bottom_edge(ts.last()) } else { m }
    }
}

/// Every target's edges, and the extent of all of them, are `i32` values.
pub open spec fn canvas_in_range(ts: Seq<MonitorCaptureTarget>) -> bool {
    &&& forall|j: int| 0 <= j < ts.len() ==> i32::MIN <= #[trigger] right_edge(ts[j]) <= i32::MAX
    &&& forall|j: int| 0 <= j < ts.len() ==> i32::MIN <= #[trigger] bottom_edge(ts[j]) <= i32::MAX
    &&& i32::MIN <= max_right(ts) - min_left(ts) <= i32::MAX
    &&& i32::MIN <= max_bottom(ts) - min_top(ts) <= i32::MAX
}

/// A canvas side: the extent cast to `u32`, at least 2.
pub open spec fn canvas_side(extent: int) -> int {
    let w = ((extent as i32) as u32) as int;
    if w < 2 { 2 } else { w }
}

/// The canvas that holds all targets where they stand on the desktop:
/// its width, its height, and the desktop position of its top-left corner.
/// With no targets it is 1920 x 1080 at (0, 0); each side is at least 2.
pub fn combined_canvas(targets: &Vec<MonitorCaptureTarget>) -> (r: (u32, u32, i32, i32))
    requires
        canvas_in_range(targets@),
    ensures
        r.0 == canvas_side(max_right(targets@) - min_left(targets@)),
        r.1 == canvas_side(max_bottom(targets@) - min_top(targets@)),
        r.2 == min_left(targets@),
        r.3 == min_top(targets@),
{
    let mut min_x: i32 = 0;
    let mut min_y: i32 = 0;
    let mut max_x: i32 = 1920;
    let mut max_y: i32 = 1080;
    let mut i: usize = 0;
    while i < targets.len()
        invariant
            i <= targets@.len(),
            canvas_in_range(targets@),
            min_x == min_left(targets@.take(i as int)),
            min_y == min_top(targets@.take(i as int)),
            max_x == max_right(targets@.take(i as int)),
            max_y == max_bottom(targets@.take(i as int)),
        decreases targets@.len() - i,
    {
        let t = &targets[i];
        assert(targets@.take(i + 1).drop_last() == targets@.take(i as int));
        assert(i32::MIN <= right_edge(targets@[i as int]) <= i32::MAX);
        assert(i32::MIN <= bottom_edge(targets@[i as int]) <= i32::MAX);
        let right = t.info.x + t.info.width as i32;
        let bottom = t.info.y + t.info.height as i32;
        if i == 0 {
            min_x = t.info.x;
            min_y = t.info.y;
            max_x = right;
            max_y = bottom;
        } else {
            if t.info.x < min_x {
                min_x = t.info.x;
            }
            if t.info.y < min_y {
                min_y = t.info.y;
            }
            if right > max_x {
                max_x = right;
            }
            if bottom > max_y {
                max_y = bottom;
            }
        }
        i = i + 1;
    }
    assert(targets@.take(targets@.len() as int) == targets@);
    let w = (max_x - min_x) as u32;
    let h = (max_y - min_y) as u32;
    let w = if w < 2 { 2 } else { w };
    let h = if h < 2 { 2 } else { h };
    (w, h, min_x, min_y)
}

/// A target's column on a canvas whose left edge is at `min_x`.
pub open spec fn place_x(t: MonitorCaptureTarget, min_x: int) -> int {
    (((t.info.x - min_x) as i32) as u32) as int
}

/// A target's row on a canvas whose top edge is at `min_y`.
pub open spec fn place_y(t: MonitorCaptureTarget, min_y: int) -> int {
    (((t.info.y - min_y) as i32) as u32) as int
}

/// The first `k` targets all have a frame.
pub open spec fn frames_present(ts: Seq<MonitorCaptureTarget>, frames: Map<Seq<char>, CapturedFrame>, k: int) -> bool {
    forall|j: int| 0 <= j < k ==> frames.contains_key((#[trigger] ts[j]).info.id@)
}

/// An all-zero (transparent black) canvas of `cw` x `ch` pixels.
pub open spec fn blank_canvas(cw: int, ch: int) -> Seq<u8> {
    Seq::new((cw * ch * 4) as nat, |i: int| 0u8)
}

/// The canvas after the frames of the first `k` targets have been copied
/// onto a blank one in order, each at its place relative to
/// (`min_x`, `min_y`); a later target covers an earlier one.
pub open spec fn composite_canvas(
    ts: Seq<MonitorCaptureTarget>, frames: Map<Seq<char>, CapturedFrame>,
    cw: int, ch: int, min_x: int, min_y: int, k: int,
) -> Seq<u8>
    decreases k,
{
    if k <= 0 {
        blank_canvas(cw, ch)
    } else {
        let t = ts[k - 1];
        let f = frames[t.info.id@];
        blit(
            composite_canvas(ts, frames, cw, ch, min_x, min_y, k - 1),
            cw, ch, place_x(t, min_x), place_y(t, min_y),
            f.width as int, f.height as int, f.bgra@,
        )
    }
}

/// The latest timestamp among the frames of the first `k` targets, and 0.
pub open spec fn latest_timestamp(ts: Seq<MonitorCaptureTarget>, frames: Map<Seq<char>, CapturedFrame>, k: int) -> int
    decreases k,
{
    if k <= 0 {
        0
    } else {
        let prev = latest_timestamp(ts, frames, k - 1);
        let t = frames[ts[k - 1].info.id@].timestamp_100ns as int;
        if t > prev { t } else { prev }
    }
}

/// The placement of every target that compositing reaches is in range:
/// its offset from the canvas corner is an `i32` and its copy fits
/// 32-bit offsets.
pub open spec fn composite_fits(
    ts: Seq<MonitorCaptureTarget>, frames: Map<Seq<char>, CapturedFrame>,
    cw: int, ch: int, min_x: int, min_y: int,
) -> bool {
    &&& cw * ch * 4 <= u32::MAX
    &&& forall|j: int| 0 <= j < ts.len() && #[trigger] frames_present(ts, frames, j + 1) ==> {
        let t = ts[j];
        let f = frames[t.info.id@];
        &&& i32::MIN <= t.info.x - min_x <= i32::MAX
        &&& i32::MIN <= t.info.y - min_y <= i32::MAX
        &&& blit_fits(cw, ch, place_x(t, min_x), place_y(t, min_y), f.width as int, f.height as int)
    }
}

/// Composes the latest frame of every target onto one `canvas_w` x
/// `canvas_h` canvas whose top-left corner is at (`min_x`, `min_y`) on the
/// desktop. Gives nothing when there is no target or some target has no
/// frame yet; otherwise the frame is stamped with the latest timestamp
/// among the parts (and no earlier than 0).
pub fn composite_frame(
    targets: &Vec<MonitorCaptureTarget>,
    frames: &IdMap<CapturedFrame>,
    canvas_w: u32,
    canvas_h: u32,
    min_x: i32,
    min_y: i32,
) -> (r: Option<CapturedFrame>)
    requires
        composite_fits(targets@, frames.view(), canvas_w as int, canvas_h as int, min_x as int, min_y as int),
    ensures
        (targets@.len() == 0 || !frames_present(targets@, frames.view(), targets@.len() as int)) ==> r is None,
        (targets@.len() > 0 && frames_present(targets@, frames.view(), targets@.len() as int)) ==> (r matches Some(f) && {
            &&& f.width == canvas_w
            &&& f.height == canvas_h
            &&& f.bgra@ == composite_canvas(targets@, frames.view(), canvas_w as int, canvas_h as int, min_x as int, min_y as int, targets@.len() as int)
            &&& f.timestamp_100ns == latest_timestamp(targets@, frames.view(), targets@.len() as int)
        }),
{
    let ghost fm = frames.view();
    let ghost cw = canvas_w as int;
    let ghost ch = canvas_h as int;
    let mut canvas: Vec<u8> = vec![0u8; (canvas_w * canvas_h * 4) as usize];
    assert(canvas@ =~= blank_canvas(cw, ch));
    let mut timestamp: i64 = 0;
    let mut any = false;
    let mut k: usize = 0;
    while k < targets.len()
        invariant
            k <= targets@.len(),
            fm == frames.view(),
            cw == canvas_w as int,
            ch == canvas_h as int,
            composite_fits(targets@, fm, cw, ch, min_x as int, min_y as int),
            frames_present(targets@, fm, k as int),
            any == (k > 0),
            canvas@ == composite_canvas(targets@, fm, cw, ch, min_x as int, min_y as int, k as int),
            timestamp == latest_timestamp(targets@, fm, k as int),
        decreases targets@.len() - k,
    {
        let t = &targets[k];
        let frame = match frames.get(&t.info.id) {
            Some(f) => f,
            None => {
                return None;
            },
        };
        assert(frames_present(targets@, fm, k + 1));
        any = true;
        if frame.timestamp_100ns > timestamp {
            timestamp = frame.timestamp_100ns;
        }
        let dx = (t.info.x - min_x) as u32;
        let dy = (t.info.y - min_y) as u32;
        blit_bgra(&mut canvas, canvas_w, canvas_h, dx, dy, frame.width, frame.height, frame.bgra.as_slice());
        k = k + 1;
    }
    if !any {
        return None;
    }
    Some(CapturedFrame { width: canvas_w, height: canvas_h, bgra: canvas, timestamp_100ns: timestamp })
}

/// The frame that the live preview shows: in combined mode the composite
/// of all targets, or while that cannot be made the earliest stored frame;
/// in separate mode the earliest stored frame.
pub fn preview_source_frame(
    mode: &RecordingMode,
    targets: &Vec<MonitorCaptureTarget>,
    frames: &IdMap<CapturedFrame>,
    canvas_w: u32,
    canvas_h: u32,
    min_x: i32,
    min_y: i32,
) -> (r: Option<CapturedFrame>)
    requires
        *mode == RecordingMode::Combined ==> composite_fits(targets@, frames.view(), canvas_w as int, canvas_h as int, min_x as int, min_y as int),
    ensures
        ({
            let composed = *mode == RecordingMode::Combined && targets@.len() > 0
                && frames_present(targets@, frames.view(), targets@.len() as int);
            &&& composed ==> (r matches Some(f) && {
                &&& f.width == canvas_w
                &&& f.height == canvas_h
                &&& f.bgra@ == composite_canvas(targets@, frames.view(), canvas_w as int, canvas_h as int, min_x as int, min_y as int, targets@.len() as int)
                &&& f.timestamp_100ns == latest_timestamp(targets@, frames.view(), targets@.len() as int)
            })
            &&& !composed && frames.entries().len() == 0 ==> r is None
            &&& !composed && frames.entries().len() > 0 ==> (r matches Some(f) && {
                let e = frames.entries()[0].1;
                &&& f.width == e.width
                &&& f.height == e.height
                &&& f.bgra@ == e.bgra@
                &&& f.timestamp_100ns == e.timestamp_100ns
            })
        }),
{
    if *mode == RecordingMode::Combined {
        let c = composite_frame(targets, frames, canvas_w, canvas_h, min_x, min_y);
        if c.is_some() {
            return c;
        }
    }
    match frames.first_value() {
        Some(f) => Some(f.clone()),
        None => None,
    }
}

proof fn lemma_extremes(ts: Seq<MonitorCaptureTarget>, j: int)
    requires
        0 <= j < ts.len(),
    ensures
        min_left(ts) <= ts[j].info.x,
        min_top(ts) <= ts[j].info.y,
        right_edge(ts[j]) <= max_right(ts),
        bottom_edge(ts[j]) <= max_bottom(ts),
    decreases ts.len(),
{
    if ts.len() > 1 && j < ts.len() - 1 {
        lemma_extremes(ts.drop_last(), j);
        assert(ts.drop_last()[j] == ts[j]);
    }
}

/// Every monitor lies wholly inside the combined canvas: its offset from
/// the canvas corner is not negative, and its right and bottom edges are
/// within the extent that `combined_canvas` measures.
pub proof fn law_targets_inside_canvas(ts: Seq<MonitorCaptureTarget>, j: int)
    requires
        0 <= j < ts.len(),
    ensures
        ts[j].info.x - min_left(ts) >= 0,
        ts[j].info.y - min_top(ts) >= 0,
        right_edge(ts[j]) - min_left(ts) <= max_right(ts) - min_left(ts),
        bottom_edge(ts[j]) - min_top(ts) <= max_bottom(ts) - min_top(ts),
{
    lemma_extremes(ts, j);
}

/// Whether copying an `sw` x `sh` image onto a `cw` x `ch` canvas at
/// (`dx`, `dy`) keeps every byte offset within 32 bits, so that
/// `blit_bgra` may be called.
pub fn blit_fits_check(cw: u32, ch: u32, dx: u32, dy: u32, sw: u32, sh: u32) -> (r: bool)
    ensures
        r == blit_fits(cw as int, ch as int, dx as int, dy as int, sw as int, sh as int),
{
    if dy >= ch || dx >= cw || sh == 0 || sw == 0 {
        return true;
    }
    let vh: u32 = if sh < ch - dy { sh } else { ch - dy };
    let vw: u32 = if sw < cw - dx { sw } else { cw - dx };
    let ly = (vh - 1) as u64;
    let lx = (vw - 1) as u64;
    assert(ly * (sw as u64) <= 0xffff_ffff_0000_0000u64) by (nonlinear_arith)
        requires ly < 0x1_0000_0000u64, sw < 0x1_0000_0000u64;
    assert(((dy as u64) + ly) * (cw as u64) <= 0xffff_ffff_0000_0000u64) by (nonlinear_arith)
        requires (dy as u64) + ly < 0x1_0000_0000u64, cw < 0x1_0000_0000u64;
    let src_max = ly * (sw as u64) + lx;
    let dst_max = ((dy as u64) + ly) * (cw as u64) + (dx as u64) + lx;
    let ok = src_max <= 0x3fff_ffff && dst_max <= 0x3fff_ffff;
    proof {
        let (cwi, chi, dxi, dyi, swi, shi) = (cw as int, ch as int, dx as int, dy as int, sw as int, sh as int);
        if ok {
            assert forall|y: int, x: int|
                0 <= y < shi && dyi + y < chi && 0 <= x < swi && dxi + x < cwi implies #[trigger] pixel_fits(cwi, dxi, dyi, swi, y, x) by {
                lemma_mul_inequality(y, ly as int, swi);
                lemma_mul_inequality(dyi + y, dyi + ly as int, cwi);
            }
        } else {
            assert(pixel_fits(cwi, dxi, dyi, swi, ly as int, lx as int) == false);
        }
    }
    ok
}

/// Whether `composite_frame` may be called with these arguments: the
/// canvas size fits 32 bits and every target it would reach has an `i32`
/// offset and a copy that fits.
pub fn composite_fits_check(
    targets: &Vec<MonitorCaptureTarget>,
    frames: &IdMap<CapturedFrame>,
    canvas_w: u32,
    canvas_h: u32,
    min_x: i32,
    min_y: i32,
) -> (r: bool)
    ensures
        r == composite_fits(targets@, frames.view(), canvas_w as int, canvas_h as int, min_x as int, min_y as int),
{
    let ghost fm = frames.view();
    let ghost (cw, ch, mx, my) = (canvas_w as int, canvas_h as int, min_x as int, min_y as int);
    assert((canvas_w as u64) * (canvas_h as u64) <= 0xffff_ffff_0000_0000u64) by (nonlinear_arith)
        requires canvas_w < 0x1_0000_0000u64, canvas_h < 0x1_0000_0000u64;
    if (canvas_w as u64) * (canvas_h as u64) > 0x3fff_ffff {
        return false;
    }
    let mut k: usize = 0;
    while k < targets.len()
        invariant
            k <= targets@.len(),
            fm == frames.view(),
            cw == canvas_w as int, ch == canvas_h as int, mx == min_x as int, my == min_y as int,
            cw * ch * 4 <= u32::MAX,
            frames_present(targets@, fm, k as int),
            forall|j: int| 0 <= j < k && #[trigger] frames_present(targets@, fm, j + 1) ==> {
                let t = targets@[j];
                let f = fm[t.info.id@];
                &&& i32::MIN <= t.info.x - mx <= i32::MAX
                &&& i32::MIN <= t.info.y - my <= i32::MAX
                &&& blit_fits(cw, ch, place_x(t, mx), place_y(t, my), f.width as int, f.height as int)
            },
        decreases targets@.len() - k,
    {
        let t = &targets[k];
        let frame = match frames.get(&t.info.id) {
            Some(f) => f,
            None => {
                proof {
                    assert forall|j: int| k <= j < targets@.len() implies !#[trigger] frames_present(targets@, fm, j + 1) by {
                        assert(!fm.contains_key(targets@[k as int].info.id@));
                    }
                }
                return true;
            },
        };
        assert(frames_present(targets@, fm, k + 1));
        let ox = t.info.x as i64 - min_x as i64;
        let oy = t.info.y as i64 - min_y as i64;
        if ox < i32::MIN as i64 || ox > i32::MAX as i64 || oy < i32::MIN as i64 || oy > i32::MAX as i64 {
            return false;
        }
        let dx = (t.info.x - min_x) as u32;
        let dy = (t.info.y - min_y) as u32;
        if !blit_fits_check(canvas_w, canvas_h, dx, dy, frame.width, frame.height) {
            return false;
        }
        k = k + 1;
    }
    true
}

/// Whether `combined_canvas` may be called: every target's edges and the
/// extent of all of them are `i32` values.
pub fn canvas_in_range_check(targets: &Vec<MonitorCaptureTarget>) -> (r: bool)
    ensures
        r == canvas_in_range(targets@),
{
    let mut min_x: i64 = 0;
    let mut min_y: i64 = 0;
    let mut max_x: i64 = 1920;
    let mut max_y: i64 = 1080;
    let mut i: usize = 0;
    while i < targets.len()
        invariant
            i <= targets@.len(),
            forall|j: int| 0 <= j < i ==> i32::MIN <= #[trigger] right_edge(targets@[j]) <= i32::MAX,
            forall|j: int| 0 <= j < i ==> i32::MIN <= #[trigger] bottom_edge(targets@[j]) <= i32::MAX,
            min_x == min_left(targets@.take(i as int)),
            min_y == min_top(targets@.take(i as int)),
            max_x == max_right(targets@.take(i as int)),
            max_y == max_bottom(targets@.take(i as int)),
            i32::MIN <= min_x <= i32::MAX,
            i32::MIN <= min_y <= i32::MAX,
            i32::MIN <= max_x <= i32::MAX,
            i32::MIN <= max_y <= i32::MAX,
        decreases targets@.len() - i,
    {
        let t = &targets[i];
        assert(targets@.take(i + 1).drop_last() == targets@.take(i as int));
        let right = t.info.x as i64 + (t.info.width as i32) as i64;
        let bottom = t.info.y as i64 + (t.info.height as i32) as i64;
        if right < i32::MIN as i64 || right > i32::MAX as i64 || bottom < i32::MIN as i64 || bottom > i32::MAX as i64 {
            assert(!(i32::MIN <= right_edge(targets@[i as int]) <= i32::MAX)
                || !(i32::MIN <= bottom_edge(targets@[i as int]) <= i32::MAX));
            return false;
        }
        if i == 0 {
            min_x = t.info.x as i64;
            min_y = t.info.y as i64;
            max_x = right;
            max_y = bottom;
        } else {
            if (t.info.x as i64) < min_x {
                min_x = t.info.x as i64;
            }
            if (t.info.y as i64) < min_y {
                min_y = t.info.y as i64;
            }
            if right > max_x {
                max_x = right;
            }
            if bottom > max_y {
                max_y = bottom;
            }
        }
        i = i + 1;
    }
    assert(targets@.take(targets@.len() as int) == targets@);
    let w = max_x - min_x;
    let h = max_y - min_y;
    w >= i32::MIN as i64 && w <= i32::MAX as i64 && h >= i32::MIN as i64 && h <= i32::MAX as i64
}

proof fn lemma_extremes_attained(ts: Seq<MonitorCaptureTarget>)
    requires
        ts.len() > 0,
    ensures
        exists|j: int| 0 <= j < ts.len() && ts[j].info.x == min_left(ts),
        exists|j: int| 0 <= j < ts.len() && ts[j].info.y == min_top(ts),
        exists|j: int| 0 <= j < ts.len() && right_edge(ts[j]) == max_right(ts),
        exists|j: int| 0 <= j < ts.len() && bottom_edge(ts[j]) == max_bottom(ts),
    decreases ts.len(),
{
    let n = ts.len() - 1;
    if ts.len() > 1 {
        let p = ts.drop_last();
        lemma_extremes_attained(p);
        let a = choose|j: int| 0 <= j < p.len() && p[j].info.x == min_left(p);
        let b = choose|j: int| 0 <= j < p.len() && p[j].info.y == min_top(p);
        let c = choose|j: int| 0 <= j < p.len() && right_edge(p[j]) == max_right(p);
        let d = choose|j: int| 0 <= j < p.len() && bottom_edge(p[j]) == max_bottom(p);
        assert(p[a] == ts[a] && p[b] == ts[b] && p[c] == ts[c] && p[d] == ts[d]);
        if ts[n].info.x < min_left(p) { assert(ts[n].info.x == min_left(ts)); } else { assert(ts[a].info.x == min_left(ts)); }
        if ts[n].info.y < min_top(p) { assert(ts[n].info.y == min_top(ts)); } else { assert(ts[b].info.y == min_top(ts)); }
        if right_edge(ts[n]) > max_right(p) { assert(right_edge(ts[n]) == max_right(ts)); } else { assert(right_edge(ts[c]) == max_right(ts)); }
        if bottom_edge(ts[n]) > max_bottom(p) { assert(bottom_edge(ts[n]) == max_bottom(ts)); } else { assert(bottom_edge(ts[d]) == max_bottom(ts)); }
    } else {
        assert(ts[0].info.x == min_left(ts));
        assert(ts[0].info.y == min_top(ts));
        assert(right_edge(ts[0]) == max_right(ts));
        assert(bottom_edge(ts[0]) == max_bottom(ts));
    }
}

/// The combined canvas spans the monitors exactly: its corner is the
/// smallest left and top edge of any monitor, it reaches the largest right
/// and bottom edge of any monitor (each attained by some monitor), and its
/// width and height are that span, or 2 for a span under 2. With no
/// monitors it is 1920 x 1080 at (0, 0).
pub proof fn law_canvas_spans_targets(ts: Seq<MonitorCaptureTarget>)
    ensures
        ts.len() > 0 ==> {
            &&& forall|j: int| 0 <= j < ts.len() ==> min_left(ts) <= (#[trigger] ts[j]).info.x
                && min_top(ts) <= ts[j].info.y
                && ts[j].info.x + (ts[j].info.width as i32) <= max_right(ts)
                && ts[j].info.y + (ts[j].info.height as i32) <= max_bottom(ts)
            &&& exists|j: int| 0 <= j < ts.len() && ts[j].info.x == min_left(ts)
            &&& exists|j: int| 0 <= j < ts.len() && ts[j].info.y == min_top(ts)
            &&& exists|j: int| 0 <= j < ts.len() && ts[j].info.x + (ts[j].info.width as i32) == max_right(ts)
            &&& exists|j: int| 0 <= j < ts.len() && ts[j].info.y + (ts[j].info.height as i32) == max_bottom(ts)
        },
        ts.len() == 0 ==> min_left(ts) == 0 && min_top(ts) == 0 && max_right(ts) == 1920 && max_bottom(ts) == 1080,
        forall|e: int| 0 <= e <= i32::MAX ==> #[trigger] canvas_side(e) == (if e < 2 { 2 } else { e }),
{
    if ts.len() > 0 {
        assert forall|j: int| 0 <= j < ts.len() implies min_left(ts) <= (#[trigger] ts[j]).info.x
            && min_top(ts) <= ts[j].info.y
            && ts[j].info.x + (ts[j].info.width as i32) <= max_right(ts)
            && ts[j].info.y + (ts[j].info.height as i32) <= max_bottom(ts) by {
            lemma_extremes(ts, j);
        }
        lemma_extremes_attained(ts);
        let c = choose|j: int| 0 <= j < ts.len() && right_edge(ts[j]) == max_right(ts);
        let d = choose|j: int| 0 <= j < ts.len() && bottom_edge(ts[j]) == max_bottom(ts);
        assert(ts[c].info.x + (ts[c].info.width as i32) == max_right(ts));
        assert(ts[d].info.y + (ts[d].info.height as i32) == max_bottom(ts));
    }
    assert forall|e: int| 0 <= e <= i32::MAX implies #[trigger] canvas_side(e) == (if e < 2 { 2 } else { e }) by {
        lemma_small_cast(e);
    }
}

proof fn lemma_small_cast(e: int)
    requires
        0 <= e <= i32::MAX,
    ensures
        ((e as i32) as u32) as int == e,
{
    let v = e as i32;
    assert(v as int == e);
    assert(v >= 0 ==> (v as u32) as int == v as int) by (bit_vector);
}

/// Compositing draws every monitor: a canvas byte inside the rectangle of
/// target `j` (its frame placed at its offset from (`min_x`, `min_y`),
/// clipped to the canvas, with the frame's bytes for that pixel present)
/// that no later target's rectangle covers holds the matching byte of
/// `j`'s frame, whatever the other targets are.
pub proof fn law_composite_draws_each_target(
    ts: Seq<MonitorCaptureTarget>, frames: Map<Seq<char>, CapturedFrame>,
    cw: int, ch: int, min_x: int, min_y: int, j: int, i: int,
)
    requires
        cw > 0,
        ch >= 0,
        0 <= j < ts.len(),
        0 <= i < cw * ch * 4,
        ({
            let t = ts[j];
            let f = frames[t.info.id@];
            let dx = (((t.info.x - min_x) as i32) as u32) as int;
            let dy = (((t.info.y - min_y) as i32) as u32) as int;
            let cx = (i / 4) % cw;
            let cy = (i / 4) / cw;
            &&& dx <= cx < dx + f.width
            &&& dy <= cy < dy + f.height
            &&& cy < ch
            &&& ((cy - dy) * f.width + (cx - dx)) * 4 + 3 < f.bgra@.len()
        }),
        forall|k: int| j < k < ts.len() ==> {
            let t = #[trigger] ts[k];
            let f = frames[t.info.id@];
            let dx = (((t.info.x - min_x) as i32) as u32) as int;
            let dy = (((t.info.y - min_y) as i32) as u32) as int;
            let cx = (i / 4) % cw;
            let cy = (i / 4) / cw;
            !(dx <= cx < dx + f.width && dy <= cy < dy + f.height)
        },
    ensures
        ({
            let t = ts[j];
            let f = frames[t.info.id@];
            let dx = (((t.info.x - min_x) as i32) as u32) as int;
            let dy = (((t.info.y - min_y) as i32) as u32) as int;
            let cx = (i / 4) % cw;
            let cy = (i / 4) / cw;
            composite_canvas(ts, frames, cw, ch, min_x, min_y, ts.len() as int)[i]
                == f.bgra@[((cy - dy) * f.width + (cx - dx)) * 4 + i % 4]
        }),
    decreases ts.len(),
{
    lemma_composite_len(ts, frames, cw, ch, min_x, min_y, ts.len() as int);
    lemma_composite_from(ts, frames, cw, ch, min_x, min_y, j, i, ts.len() as int);
}

proof fn lemma_composite_len(
    ts: Seq<MonitorCaptureTarget>, frames: Map<Seq<char>, CapturedFrame>,
    cw: int, ch: int, min_x: int, min_y: int, k: int,
)
    requires
        cw >= 0,
        ch >= 0,
    ensures
        composite_canvas(ts, frames, cw, ch, min_x, min_y, k).len() == cw * ch * 4,
    decreases k,
{
    assert(cw * ch >= 0) by (nonlinear_arith) requires cw >= 0, ch >= 0;
    if k > 0 {
        lemma_composite_len(ts, frames, cw, ch, min_x, min_y, k - 1);
    }
}

proof fn lemma_composite_from(
    ts: Seq<MonitorCaptureTarget>, frames: Map<Seq<char>, CapturedFrame>,
    cw: int, ch: int, min_x: int, min_y: int, j: int, i: int, k: int,
)
    requires
        cw > 0,
        ch >= 0,
        0 <= j < k <= ts.len(),
        0 <= i < cw * ch * 4,
        ({
            let t = ts[j];
            let f = frames[t.info.id@];
            let dx = (((t.info.x - min_x) as i32) as u32) as int;
            let dy = (((t.info.y - min_y) as i32) as u32) as int;
            let cx = (i / 4) % cw;
            let cy = (i / 4) / cw;
            &&& dx <= cx < dx + f.width
            &&& dy <= cy < dy + f.height
            &&& cy < ch
            &&& ((cy - dy) * f.width + (cx - dx)) * 4 + 3 < f.bgra@.len()
        }),
        forall|m: int| j < m < ts.len() ==> {
            let t = #[trigger] ts[m];
            let f = frames[t.info.id@];
            let dx = (((t.info.x - min_x) as i32) as u32) as int;
            let dy = (((t.info.y - min_y) as i32) as u32) as int;
            let cx = (i / 4) % cw;
            let cy = (i / 4) / cw;
            !(dx <= cx < dx + f.width && dy <= cy < dy + f.height)
        },
    ensures
        ({
            let t = ts[j];
            let f = frames[t.info.id@];
            let dx = (((t.info.x - min_x) as i32) as u32) as int;
            let dy = (((t.info.y - min_y) as i32) as u32) as int;
            let cx = (i / 4) % cw;
            let cy = (i / 4) / cw;
            composite_canvas(ts, frames, cw, ch, min_x, min_y, k)[i]
                == f.bgra@[((cy - dy) * f.width + (cx - dx)) * 4 + i % 4]
        }),
    decreases k,
{
    let prev = composite_canvas(ts, frames, cw, ch, min_x, min_y, k - 1);
    lemma_composite_len(ts, frames, cw, ch, min_x, min_y, k - 1);
    let t = ts[k - 1];
    let f = frames[t.info.id@];
    let dx = place_x(t, min_x);
    let dy = place_y(t, min_y);
    lemma_pixel_bounds(cw, ch, i);
    law_blit_stays_in_place(prev, cw, ch, dx, dy, f.width as int, f.height as int, f.bgra@, i);
    if k - 1 > j {
        assert(ts[k - 1] == t);
        lemma_composite_from(ts, frames, cw, ch, min_x, min_y, j, i, k - 1);
    }
}

proof fn lemma_pixel_bounds(cw: int, ch: int, i: int)
    requires
        cw > 0,
        0 <= i < cw * ch * 4,
    ensures
        (i / 4) * 4 + 3 < cw * ch * 4,
{
    assert((i / 4) * 4 + 3 < cw * ch * 4) by (nonlinear_arith)
        requires 0 <= i < cw * ch * 4, cw > 0;
}

/// Where no target's frame lies, the composite stays black and
/// transparent: a canvas byte outside every target's rectangle is 0.
pub proof fn law_composite_background(
    ts: Seq<MonitorCaptureTarget>, frames: Map<Seq<char>, CapturedFrame>,
    cw: int, ch: int, min_x: int, min_y: int, i: int,
)
    requires
        cw > 0,
        ch >= 0,
        0 <= i < cw * ch * 4,
        forall|k: int| 0 <= k < ts.len() ==> {
            let t = #[trigger] ts[k];
            let f = frames[t.info.id@];
            let dx = (((t.info.x - min_x) as i32) as u32) as int;
            let dy = (((t.info.y - min_y) as i32) as u32) as int;
            let cx = (i / 4) % cw;
            let cy = (i / 4) / cw;
            !(dx <= cx < dx + f.width && dy <= cy < dy + f.height)
        },
    ensures
        composite_canvas(ts, frames, cw, ch, min_x, min_y, ts.len() as int)[i] == 0,
{
    lemma_composite_background_upto(ts, frames, cw, ch, min_x, min_y, i, ts.len() as int);
}

proof fn lemma_composite_background_upto(
    ts: Seq<MonitorCaptureTarget>, frames: Map<Seq<char>, CapturedFrame>,
    cw: int, ch: int, min_x: int, min_y: int, i: int, k: int,
)
    requires
        cw > 0,
        ch >= 0,
        0 <= i < cw * ch * 4,
        k <= ts.len(),
        forall|m: int| 0 <= m < ts.len() ==> {
            let t = #[trigger] ts[m];
            let f = frames[t.info.id@];
            let dx = (((t.info.x - min_x) as i32) as u32) as int;
            let dy = (((t.info.y - min_y) as i32) as u32) as int;
            let cx = (i / 4) % cw;
            let cy = (i / 4) / cw;
            !(dx <= cx < dx + f.width && dy <= cy < dy + f.height)
        },
    ensures
        composite_canvas(ts, frames, cw, ch, min_x, min_y, k)[i] == 0,
    decreases k,
{
    if k > 0 {
        lemma_composite_len(ts, frames, cw, ch, min_x, min_y, k - 1);
        let t = ts[k - 1];
        let f = frames[t.info.id@];
        let prev = composite_canvas(ts, frames, cw, ch, min_x, min_y, k - 1);
        law_blit_stays_in_place(prev, cw, ch, place_x(t, min_x), place_y(t, min_y), f.width as int, f.height as int, f.bgra@, i);
        lemma_composite_background_upto(ts, frames, cw, ch, min_x, min_y, i, k - 1);
    }
}

/// The composite's timestamp is the latest of its parts' timestamps, and
/// never earlier than 0: no part is later, and unless it is 0 some part
/// has exactly that timestamp.
pub proof fn law_composite_timestamp(ts: Seq<MonitorCaptureTarget>, frames: Map<Seq<char>, CapturedFrame>, k: int)
    requires
        0 <= k <= ts.len(),
    ensures
        latest_timestamp(ts, frames, k) >= 0,
        forall|j: int| 0 <= j < k ==> frames[(#[trigger] ts[j]).info.id@].timestamp_100ns <= latest_timestamp(ts, frames, k),
        latest_timestamp(ts, frames, k) == 0
            || exists|j: int| 0 <= j < k && frames[(#[trigger] ts[j]).info.id@].timestamp_100ns == latest_timestamp(ts, frames, k),
    decreases k,
{
    if k > 0 {
        law_composite_timestamp(ts, frames, k - 1);
        if latest_timestamp(ts, frames, k) != 0 && latest_timestamp(ts, frames, k) == latest_timestamp(ts, frames, k - 1) {
            let j = choose|j: int| 0 <= j < k - 1 && frames[(#[trigger] ts[j]).info.id@].timestamp_100ns == latest_timestamp(ts, frames, k - 1);
            assert(0 <= j < k);
        }
    }
}

} // verus!
