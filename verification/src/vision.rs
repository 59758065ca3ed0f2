//! Class detection on captured frames (BGRA, 4 bytes per pixel): the town test on the
//! map corner, the grey image handed to the tag detector, result de-duplication, and
//! the detection switch.

use vstd::prelude::*;

verus! {

/// Shortest sampling interval of the detection loop.
pub const MIN_SAMPLE_INTERVAL_MS: u64 = 100;

/// A rectangle of a frame, in pixels.
#[derive(Debug, Clone, Copy, PartialEq, Eq, Structural)]
pub struct DetectionRegion {
    pub x: usize,
    pub y: usize,
    pub width: usize,
    pub height: usize,
}

/// Byte offset of pixel `(x, y)` when the whole pixel lies in a frame of `len` bytes.
pub open spec fn offset_of(len: nat, row_pitch: usize, x: usize, y: usize) -> Option<int> {
    let row = y as int * row_pitch as int;
    let col = x as int * 4;
    if row <= usize::MAX && col <= usize::MAX && row + col <= usize::MAX && row + col + 3 < len {
        Some(row + col)
    } else {
        None
    }
}

/// Byte offset of pixel `(x, y)` in a frame whose rows are `row_pitch` bytes apart, when the whole pixel lies inside the frame.
pub fn pixel_offset(raw_data: &[u8], row_pitch: usize, x: usize, y: usize) -> (r: Option<usize>)
    ensures
        match offset_of(raw_data@.len(), row_pitch, x, y) {
            Some(o) => r == Some(o as usize),
            None => r is None,
        },
{
    let row = match y.checked_mul(row_pitch) {
        Some(v) => v,
        None => {
            return None;
        },
    };
    let col = match x.checked_mul(4) {
        Some(v) => v,
        None => {
            return None;
        },
    };
    let offset = match row.checked_add(col) {
        Some(v) => v,
        None => {
            return None;
        },
    };
    if offset < raw_data.len() && raw_data.len() - offset > 3 {
        Some(offset)
    } else {
        None
    }
}

/// Blue and green full, red zero.
pub fn is_pure_cyan(pixel: &[u8]) -> (b: bool)
    ensures
        b == (pixel@.len() >= 4 && pixel@[0] == 255 && pixel@[1] == 255 && pixel@[2] == 0),
{
    pixel.len() >= 4 && pixel[0] == 255 && pixel[1] == 255 && pixel[2] == 0
}

/// Whether pixel `(x, y)` lies in the frame and is pure cyan.
pub open spec fn cyan_at(raw: Seq<u8>, row_pitch: usize, x: usize, y: usize) -> bool {
    match offset_of(raw.len(), row_pitch, x, y) {
        Some(o) => raw[o] == 255 && raw[o + 1] == 255 && raw[o + 2] == 0,
        None => false,
    }
}

/// Pixel `(x, y)` is cyan and so is its right or its lower neighbour inside the region.
pub open spec fn icon_at(raw: Seq<u8>, row_pitch: usize, r: DetectionRegion, x: usize, y: usize) -> bool {
    cyan_at(raw, row_pitch, x, y) && ((x + 1 < r.x + r.width && cyan_at(raw, row_pitch, (x + 1) as usize, y))
        || (y + 1 < r.y + r.height && cyan_at(raw, row_pitch, x, (y + 1) as usize)))
}

/// The town icon: two pure cyan pixels side by side or one above the other, in a region
/// at least two pixels wide.
pub open spec fn has_town_icon(raw: Seq<u8>, row_pitch: usize, r: DetectionRegion) -> bool {
    r.width >= 2 && r.height >= 1 && exists|x: usize, y: usize|
        r.x <= x < r.x + r.width && r.y <= y < r.y + r.height && #[trigger] icon_at(raw, row_pitch, r, x, y)
}

fn cyan_pixel(raw_data: &[u8], row_pitch: usize, x: usize, y: usize) -> (b: bool)
    ensures
        b == cyan_at(raw_data@, row_pitch, x, y),
{
    match pixel_offset(raw_data, row_pitch, x, y) {
        Some(o) => raw_data[o] == 255 && raw_data[o + 1] == 255 && raw_data[o + 2] == 0,
        None => false,
    }
}

/// Whether the region holds two horizontally or vertically adjacent pure-cyan pixels, the mark of the town icon.
pub fn detect_town_icon(raw_data: &[u8], row_pitch: usize, region: DetectionRegion) -> (b: bool)
    requires
        region.x + region.width <= usize::MAX,
        region.y + region.height <= usize::MAX,
    ensures
        b == has_town_icon(raw_data@, row_pitch, region),
{
    if region.width < 2 || region.height < 1 {
        return false;
    }
    let y_end = region.y + region.height;
    let x_end = region.x + region.width;
    let mut y = region.y;
    while y < y_end
        invariant
            region.width >= 2,
            y_end == region.y + region.height,
            x_end == region.x + region.width,
            region.y <= y <= y_end,
            forall|xx: usize, yy: usize|
                region.x <= xx < x_end && region.y <= yy < y ==> !#[trigger] icon_at(raw_data@, row_pitch, region, xx, yy),
        decreases y_end - y,
    {
        let mut x = region.x;
        while x < x_end
            invariant
                region.width >= 2,
                y_end == region.y + region.height,
                x_end == region.x + region.width,
                region.y <= y < y_end,
                region.x <= x <= x_end,
                forall|xx: usize, yy: usize|
                    region.x <= xx < x_end && region.y <= yy < y ==> !#[trigger] icon_at(raw_data@, row_pitch, region, xx, yy),
                forall|xx: usize| region.x <= xx < x ==> !#[trigger] icon_at(raw_data@, row_pitch, region, xx, y),
            decreases x_end - x,
        {
            if cyan_pixel(raw_data, row_pitch, x, y) {
                let right_match = x + 1 < x_end && cyan_pixel(raw_data, row_pitch, x + 1, y);
                let down_match = y + 1 < y_end && cyan_pixel(raw_data, row_pitch, x, y + 1);
                if right_match || down_match {
                    assert(icon_at(raw_data@, row_pitch, region, x, y));
                    return true;
                }
            }
            x = x + 1;
        }
        y = y + 1;
    }
    false
}

/// Grey level of a BGRA pixel: `(77 r + 150 g + 29 b) / 256`.
pub open spec fn grey(b: u8, g: u8, r: u8) -> u8 {
    ((r as int * 77 + g as int * 150 + b as int * 29) / 256) as u8
}

/// The grey row `y` of a region.
pub open spec fn grey_row(raw: Seq<u8>, row_pitch: usize, r: DetectionRegion, y: int) -> Seq<u8> {
    Seq::new(
        r.width as nat,
        |x: int|
            {
                let o = (r.y + y) * row_pitch + (r.x + x) * 4;
                grey(raw[o], raw[o + 1], raw[o + 2])
            },
    )
}

/// The first `n` grey rows of a region, one after the other.
pub open spec fn grey_rows(raw: Seq<u8>, row_pitch: usize, r: DetectionRegion, n: nat) -> Seq<u8>
    decreases n,
{
    if n == 0 {
        Seq::empty()
    } else {
        grey_rows(raw, row_pitch, r, (n - 1) as nat) + grey_row(raw, row_pitch, r, n - 1)
    }
}

/// Every pixel of the region lies in the frame: the region ends within its rows and its
/// last row ends within the data.
pub open spec fn region_in_frame(len: nat, row_pitch: usize, r: DetectionRegion) -> bool {
    &&& r.width > 0
    &&& r.height > 0
    &&& (r.x + r.width) * 4 <= row_pitch
    &&& (r.y + r.height - 1) * row_pitch + (r.x + r.width) * 4 <= len
}

proof fn lemma_pixel_in_frame(len: nat, row_pitch: usize, r: DetectionRegion, x: int, y: int)
    requires
        region_in_frame(len, row_pitch, r),
        0 <= x < r.width,
        0 <= y < r.height,
    ensures
        (r.y + y) * row_pitch + (r.x + x) * 4 + 3 < len,
        0 <= (r.y + y) * row_pitch,
        r.y + y <= (r.y + y) * row_pitch,
{
    let p = row_pitch as int;
    let ry = r.y as int;
    let h = r.height as int;
    assert(ry + y <= (ry + y) * p) by (nonlinear_arith)
        requires
            0 <= y,
            p >= 1,
            ry >= 0,
    ;
    assert((ry + y) * p <= (ry + h - 1) * p) by (nonlinear_arith)
        requires
            0 <= y < h,
            p >= 0,
            ry >= 0,
    ;
    assert(0 <= (ry + y) * p) by (nonlinear_arith)
        requires
            0 <= y,
            p >= 0,
            ry >= 0,
    ;
}

/// The grey image of a region, row by row, for the tag detector.
pub fn grayscale_region(raw_data: &[u8], row_pitch: usize, region: DetectionRegion) -> (r: Vec<u8>)
    requires
        region_in_frame(raw_data@.len(), row_pitch, region),
    ensures
        r@ == grey_rows(raw_data@, row_pitch, region, region.height as nat),
{
    let len = raw_data.len();
    let mut out: Vec<u8> = Vec::new();
    let mut y: usize = 0;
    while y < region.height
        invariant
            len == raw_data@.len(),
            region_in_frame(raw_data@.len(), row_pitch, region),
            y <= region.height,
            out@ == grey_rows(raw_data@, row_pitch, region, y as nat),
        decreases region.height - y,
    {
        proof {
            lemma_pixel_in_frame(raw_data@.len(), row_pitch, region, 0, y as int);
        }
        let row_start = (region.y + y) * row_pitch;
        let ghost before = out@;
        let mut x: usize = 0;
        while x < region.width
            invariant
                len == raw_data@.len(),
                region_in_frame(raw_data@.len(), row_pitch, region),
                y < region.height,
                x <= region.width,
                row_start == (region.y + y) * row_pitch,
                out@ == before + grey_row(raw_data@, row_pitch, region, y as int).take(x as int),
            decreases region.width - x,
        {
            proof {
                lemma_pixel_in_frame(raw_data@.len(), row_pitch, region, x as int, y as int);
            }
            let offset = row_start + (region.x + x) * 4;
            let b = raw_data[offset] as u32;
            let g = raw_data[offset + 1] as u32;
            let rr = raw_data[offset + 2] as u32;
            let sum: u32 = rr * 77 + g * 150 + b * 29;
            proof {
                assert(sum >> 8 == sum / 256) by (bit_vector);
            }
            let value = (sum >> 8) as u8;
            proof {
                assert(sum >> 8 == sum / 256) by (bit_vector);
                assert(sum / 256 < 256);
            }
            out.push(value);
            proof {
                assert(grey_row(raw_data@, row_pitch, region, y as int).take(x + 1) =~= grey_row(
                    raw_data@,
                    row_pitch,
                    region,
                    y as int,
                ).take(x as int).push(value));
            }
            x = x + 1;
        }
        assert(grey_row(raw_data@, row_pitch, region, y as int).take(region.width as int) =~= grey_row(
            raw_data@,
            row_pitch,
            region,
            y as int,
        ));
        y = y + 1;
    }
    out
}

/// A reported detection: the class index found, if any, and why.
#[derive(Debug, PartialEq, Eq)]
pub struct DetectionSignature {
    pub class_index: Option<u16>,
    pub reason: String,
}

/// De-duplication of detection results: records the result and says whether it
/// differs from the last one reported (only then is it sent).
pub fn record_detection(last_reported: &mut Option<DetectionSignature>, class_index: Option<u16>, reason: &str) -> (report: bool)
    ensures
        report == !(*old(last_reported) matches Some(s) && s.class_index == class_index && s.reason@ == reason@),
        *final(last_reported) matches Some(s) && s.class_index == class_index && s.reason@ == reason@,
{
    let same = match last_reported {
        Some(s) => s.class_index == class_index && crate::text::text_eq(s.reason.as_str(), reason),
        None => false,
    };
    if same {
        return false;
    }
    *last_reported = Some(DetectionSignature { class_index, reason: String::from_str(reason) });
    true
}

/// The detection switch and its sampling interval.
#[derive(Debug, Clone, Copy, PartialEq, Eq, Structural)]
pub struct DetectionRuntime {
    pub enabled: bool,
    pub interval_ms: u64,
}

impl DetectionRuntime {
    /// Stopped, at the default interval.
    pub fn new() -> (r: Self)
        ensures
            !r.enabled,
            r.interval_ms == crate::config::defaults::DEFAULT_DETECTION_INTERVAL_MS,
    {
        DetectionRuntime { enabled: false, interval_ms: crate::config::defaults::DEFAULT_DETECTION_INTERVAL_MS }
    }

    pub fn set_interval_ms(&mut self, interval_ms: u64)
        ensures
            final(self).interval_ms == interval_ms,
            final(self).enabled == old(self).enabled,
    {
        self.interval_ms = interval_ms;
    }

    /// A stopped runtime takes the interval and starts; returns whether it was
    /// stopped.
    pub fn start(&mut self, interval_ms: u64) -> (started: bool)
        ensures
            started == !old(self).enabled,
            final(self).enabled,
            started ==> final(self).interval_ms == interval_ms,
            !started ==> *final(self) == *old(self),
    {
        if self.enabled {
            return false;
        }
        self.interval_ms = interval_ms;
        self.enabled = true;
        true
    }

    pub fn stop(&mut self)
        ensures
            !final(self).enabled,
            final(self).interval_ms == old(self).interval_ms,
    {
        self.enabled = false;
    }

    pub fn is_running(&self) -> (b: bool)
        ensures
            b == self.enabled,
    {
        self.enabled
    }

    /// The interval the capture loop samples at: the setting, at least 100 ms.
    pub fn sample_interval_ms(&self) -> (r: u64)
        ensures
            r == (if self.interval_ms < MIN_SAMPLE_INTERVAL_MS {
                MIN_SAMPLE_INTERVAL_MS
            } else {
                self.interval_ms
            }),
    {
        if self.interval_ms < MIN_SAMPLE_INTERVAL_MS {
            MIN_SAMPLE_INTERVAL_MS
        } else {
            self.interval_ms
        }
    }
}

} // verus!
