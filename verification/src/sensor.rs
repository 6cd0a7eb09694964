//! Sensors: the synthetic camera's picture, the sound container, the frames
//! kept servable, and what a tasked capture does and reports.

use vstd::prelude::*;

use crate::json::Figure;
use crate::sensors::{AudioMeta, CameraMeta, SensorMeta};
use crate::agent::{
    unwatched, watch_views, AgentShared, AgentView, Watchpoint, SENSOR_OVERRIDE,
};
use crate::clock::{byte_at, byte_of, request_id, request_id_text};
use crate::names::sim_stream;
use crate::quantity::{real_zero, zero, Real};
use crate::queue_model::VehicleView;
use crate::services::SensorRequest;
use crate::text::{cat, dec, dec_text, same, views};

verus! {

// ---------------------------------------------------------------------------
// the synthetic camera
// ---------------------------------------------------------------------------

/// One encoded video frame.
#[derive(Debug)]
pub struct VideoFrame {
    pub width: u32,
    pub height: u32,
    pub jpeg: Vec<u8>,
}

/// A color, red first.
#[derive(Clone, Copy, Debug, PartialEq, Eq, Structural)]
pub struct Rgb {
    pub r: u8,
    pub g: u8,
    pub b: u8,
}

/// Color of the ground.
pub open spec fn ground() -> Rgb {
    Rgb { r: 34, g: 40, b: 34 }
}

/// Color of the grid lines on the ground.
pub open spec fn grid_line() -> Rgb {
    Rgb { r: 46, g: 54, b: 46 }
}

/// Color of a visual signature; unknown signatures are red.
pub open spec fn signature_color(signature: Seq<char>) -> Rgb {
    if signature == "orange"@ {
        Rgb { r: 235, g: 130, b: 30 }
    } else if signature == "blue"@ {
        Rgb { r: 50, g: 90, b: 220 }
    } else if signature == "yellow"@ {
        Rgb { r: 230, g: 210, b: 40 }
    } else if signature == "magenta"@ {
        Rgb { r: 200, g: 60, b: 190 }
    } else {
        Rgb { r: 210, g: 40, b: 40 }
    }
}

/// Color of a visual signature; unknown signatures are red.
pub fn signature_rgb(signature: &str) -> (r: Rgb)
    ensures
        r == signature_color(signature@),
{
    if same(signature, "orange") {
        Rgb { r: 235, g: 130, b: 30 }
    } else if same(signature, "blue") {
        Rgb { r: 50, g: 90, b: 220 }
    } else if same(signature, "yellow") {
        Rgb { r: 230, g: 210, b: 40 }
    } else if same(signature, "magenta") {
        Rgb { r: 200, g: 60, b: 190 }
    } else {
        Rgb { r: 210, g: 40, b: 40 }
    }
}

/// An anomaly as the camera sees it: its signature and the pixels it covers,
/// counted row by row from the top left.
#[derive(Debug)]
pub struct Blob {
    pub signature: String,
    pub pixels: Vec<usize>,
}

/// The color of pixel `i` once the first `n` blobs are painted: the last one
/// that covers it wins.
pub open spec fn painted(on_grid: Seq<bool>, blobs: Seq<Blob>, n: int, i: int) -> Rgb
    decreases n,
{
    if n <= 0 {
        if on_grid[i] {
            grid_line()
        } else {
            ground()
        }
    } else if blobs[n - 1].pixels@.contains(i as usize) {
        signature_color(blobs[n - 1].signature@)
    } else {
        painted(on_grid, blobs, n - 1, i)
    }
}

/// Color components in the order they are stored.
pub open spec fn component(c: Rgb, k: int) -> u8 {
    if k == 0 {
        c.r
    } else if k == 1 {
        c.g
    } else {
        c.b
    }
}

/// The picture as bytes: three per pixel, row by row.
pub open spec fn picture(on_grid: Seq<bool>, blobs: Seq<Blob>) -> Seq<u8> {
    Seq::new(
        3 * on_grid.len(),
        |j: int| component(painted(on_grid, blobs, blobs.len() as int, j / 3), j % 3),
    )
}

/// Paint one blob over a picture.
fn paint(colors: &mut Vec<Rgb>, blob: &Blob)
    ensures
        final(colors)@.len() == old(colors)@.len(),
        forall|i: int|
            0 <= i < old(colors)@.len() ==> #[trigger] final(colors)@[i] == (
            if blob.pixels@.contains(i as usize) {
                signature_color(blob.signature@)
            } else {
                old(colors)@[i]
            }),
{
    let color = signature_rgb(blob.signature.as_str());
    let ghost before = colors@;
    let mut k: usize = 0;
    while k < blob.pixels.len()
        invariant
            k <= blob.pixels@.len(),
            colors@.len() == before.len(),
            color == signature_color(blob.signature@),
            forall|i: int|
                0 <= i < before.len() ==> #[trigger] colors@[i] == (
                if blob.pixels@.take(k as int).contains(i as usize) {
                    color
                } else {
                    before[i]
                }),
        decreases blob.pixels@.len() - k,
    {
        let p: usize = blob.pixels[k];
        let ghost done = blob.pixels@.take(k as int);
        let ghost mid = colors@;
        if p < colors.len() {
            colors.set(p, color);
        }
        proof {
            let more = blob.pixels@.take(k + 1);
            assert(more =~= done.push(p));
            assert forall|i: int| 0 <= i < before.len() implies #[trigger] colors@[i] == (
            if more.contains(i as usize) {
                color
            } else {
                before[i]
            }) by {
                assert(mid[i] == mid[i]);
                if done.contains(i as usize) {
                    let j = choose|j: int| 0 <= j < done.len() && done[j] == i as usize;
                    assert(more[j] == i as usize);
                }
                if more.contains(i as usize) && i != p {
                    let j = choose|j: int| 0 <= j < more.len() && more[j] == i as usize;
                    assert(j < done.len());
                    assert(done[j] == i as usize);
                }
                if i == p {
                    assert(more[k as int] == i as usize);
                }
            }
        }
        k = k + 1;
    }
    assert(blob.pixels@.take(k as int) =~= blob.pixels@);
}

/// Paint the picture: ground and grid, then the blobs in order.
pub fn compose(on_grid: &Vec<bool>, blobs: &Vec<Blob>) -> (r: Vec<u8>)
    ensures
        r@ == picture(on_grid@, blobs@),
{
    let mut colors: Vec<Rgb> = Vec::new();
    let mut i: usize = 0;
    while i < on_grid.len()
        invariant
            i <= on_grid@.len(),
            colors@.len() == i,
            forall|j: int| 0 <= j < i ==> #[trigger] colors@[j] == painted(on_grid@, blobs@, 0, j),
        decreases on_grid@.len() - i,
    {
        colors.push(
            if on_grid[i] {
                Rgb { r: 46, g: 54, b: 46 }
            } else {
                Rgb { r: 34, g: 40, b: 34 }
            },
        );
        i = i + 1;
    }
    let mut n: usize = 0;
    while n < blobs.len()
        invariant
            n <= blobs@.len(),
            colors@.len() == on_grid@.len(),
            forall|j: int|
                0 <= j < colors@.len() ==> #[trigger] colors@[j] == painted(
                    on_grid@,
                    blobs@,
                    n as int,
                    j,
                ),
        decreases blobs@.len() - n,
    {
        paint(&mut colors, &blobs[n]);
        n = n + 1;
    }
    let mut rgb: Vec<u8> = Vec::new();
    let ghost want = picture(on_grid@, blobs@);
    let mut k: usize = 0;
    while k < colors.len()
        invariant
            k <= colors@.len() == on_grid@.len(),
            want == picture(on_grid@, blobs@),
            forall|j: int|
                0 <= j < colors@.len() ==> #[trigger] colors@[j] == painted(
                    on_grid@,
                    blobs@,
                    blobs@.len() as int,
                    j,
                ),
            rgb@ == want.take(3 * k),
        decreases colors@.len() - k,
    {
        let c = colors[k];
        rgb.push(c.r);
        rgb.push(c.g);
        rgb.push(c.b);
        proof {
            let j = 3 * k;
            assert(want[j] == component(c, 0));
            assert(want[j + 1] == component(c, 1));
            assert(want[j + 2] == component(c, 2));
            assert(rgb@ =~= want.take(3 * (k + 1)));
        }
        k = k + 1;
    }
    assert(want.take(3 * k) =~= want);
    rgb
}

/// The bytes that `jpeg_encoder` makes of a picture.
pub uninterp spec fn jpeg_bytes(rgb: Seq<u8>, width: u16, height: u16, quality: u8) -> Seq<u8>;

/// `jpeg_encoder::Encoder::encode` of an RGB picture into memory. Writing to
/// memory does not fail, and the encoder refuses only pictures without width
/// or height or with too few bytes, so these come back encoded. The bytes
/// start with the start-of-image marker and end with the end-of-image marker.
#[verifier::external_body]
fn encode_jpeg(rgb: &Vec<u8>, width: u16, height: u16, quality: u8) -> (r: Option<Vec<u8>>)
    requires
        width > 0,
        height > 0,
        1 <= quality <= 100,
        rgb@.len() == 3 * width * height,
    ensures
        r is Some,
        r->0@ == jpeg_bytes(rgb@, width, height, quality),
        r->0@.len() >= 4,
        r->0@[0] == 0xff && r->0@[1] == 0xd8,
        r->0@[r->0@.len() - 2] == 0xff && r->0@[r->0@.len() - 1] == 0xd9,
{
    let mut jpeg: Vec<u8> = Vec::new();
    let encoder = jpeg_encoder::Encoder::new(&mut jpeg, quality);
    encoder.encode(rgb, width, height, jpeg_encoder::ColorType::Rgb).ok()?;
    Some(jpeg)
}

/// `x` moved into `low..=high`.
pub open spec fn clamped(x: int, low: int, high: int) -> int {
    if x < low {
        low
    } else if x > high {
        high
    } else {
        x
    }
}

fn clamp(x: u32, low: u32, high: u32) -> (r: u32)
    requires
        low <= high,
    ensures
        r == clamped(x as int, low as int, high as int),
{
    if x < low {
        low
    } else if x > high {
        high
    } else {
        x
    }
}

/// Settings of a synthetic feed. The field of view is in degrees.
#[derive(Debug)]
pub struct SyntheticSettings {
    /// Latest-wins name of the anomaly ground truth.
    pub anomaly_name: String,
    pub hfov_deg: Real,
    pub width: u32,
    pub height: u32,
    /// JPEG quality.
    pub quality: u8,
}

/// Which sensor feed backs captures and video.
#[derive(Debug)]
pub enum SensorFeedConfig {
    /// No sensors fitted.
    Absent,
    /// Rendered from the deployment's anomaly ground truth.
    Synthetic(SyntheticSettings),
}

/// Bits of the default field of view, 66 degrees.
pub const DEFAULT_HFOV_BITS: u64 = 0x4050_8000_0000_0000;

/// Bits of the narrowest field of view, 20 degrees.
pub const NARROWEST_BITS: u64 = 0x4034_0000_0000_0000;

/// Bits of the widest field of view, 120 degrees.
pub const WIDEST_BITS: u64 = 0x405e_0000_0000_0000;

impl SensorFeedConfig {
    /// The synthetic defaults.
    pub fn synthetic() -> (r: Self)
        ensures
            match r {
                SensorFeedConfig::Absent => false,
                SensorFeedConfig::Synthetic(s) => {
                    &&& s.anomaly_name@ == crate::names::under(
                        crate::names::under(crate::names::APP_PREFIX@, "sim"@),
                        "anomalies"@,
                    )
                    &&& s.hfov_deg.bits == DEFAULT_HFOV_BITS
                    &&& s.hfov_deg.bits == 0x4050_8000_0000_0000
                    &&& s.width == 320
                    &&& s.height == 240
                    &&& s.quality == 80
                },
            },
    {
        SensorFeedConfig::Synthetic(
            SyntheticSettings {
                anomaly_name: sim_stream("anomalies"),
                hfov_deg: Real { bits: DEFAULT_HFOV_BITS },
                width: 320,
                height: 240,
                quality: 80,
            },
        )
    }
}

/// The synthetic camera: field of view, picture size and quality within what
/// it supports.
#[derive(Clone, Copy, Debug, PartialEq, Eq, Structural)]
pub struct SyntheticFeed {
    hfov_deg: Real,
    width: u32,
    height: u32,
    quality: u8,
    has_audio: bool,
}

impl SyntheticFeed {
    /// Horizontal field of view, degrees.
    pub closed spec fn field_of_view(self) -> Real {
        self.hfov_deg
    }

    /// Picture width, pixels.
    pub closed spec fn frame_width(self) -> int {
        self.width as int
    }

    /// Picture height, pixels.
    pub closed spec fn frame_height(self) -> int {
        self.height as int
    }

    /// JPEG quality.
    pub closed spec fn frame_quality(self) -> u8 {
        self.quality
    }

    /// A microphone is fitted.
    pub closed spec fn microphone(self) -> bool {
        self.has_audio
    }

    /// Sizes and quality are within what the feed supports.
    #[verifier::type_invariant]
    closed spec fn supported(self) -> bool {
        &&& 64 <= self.width <= 1280
        &&& 48 <= self.height <= 960
        &&& 1 <= self.quality <= 100
    }

    /// A feed of the configuration; `None` when it asks for none. A field of
    /// view, sizes and quality out of range are moved to the nearest supported
    /// ones.
    pub fn new(config: &SensorFeedConfig, has_audio: bool) -> (r: Option<Self>)
        ensures
            r is Some <==> config is Synthetic,
            r matches Some(f) ==> {
                let s = config->Synthetic_0;
                &&& f.field_of_view() == s.hfov_deg.confined(
                    Real { bits: NARROWEST_BITS },
                    Real { bits: WIDEST_BITS },
                )
                &&& f.frame_width() == clamped(s.width as int, 64, 1280)
                &&& f.frame_height() == clamped(s.height as int, 48, 960)
                &&& f.frame_quality() == clamped(s.quality as int, 1, 100)
                &&& f.microphone() == has_audio
            },
    {
        match config {
            SensorFeedConfig::Absent => None,
            SensorFeedConfig::Synthetic(s) => Some(
                SyntheticFeed {
                    hfov_deg: s.hfov_deg.confine(
                        Real { bits: NARROWEST_BITS },
                        Real { bits: WIDEST_BITS },
                    ),
                    width: clamp(s.width, 64, 1280),
                    height: clamp(s.height, 48, 960),
                    quality: clamp(s.quality as u32, 1, 100) as u8,
                    has_audio,
                },
            ),
        }
    }

    /// Picture size, pixels.
    pub fn size(&self) -> (r: (u32, u32))
        ensures
            r.0 == self.frame_width(),
            r.1 == self.frame_height(),
    {
        (self.width, self.height)
    }

    /// What ranges are worked out from: the field of view and the picture
    /// width that the feed advertises.
    pub fn geometry(&self) -> (r: (Real, u32))
        ensures
            r.0 == self.field_of_view(),
            r.1 == self.frame_width(),
    {
        (self.hfov_deg, self.width)
    }

    /// The facts that the feed advertises. `hfov_deg` is its field of view with
    /// its printed forms, and `dri_m` the ranges of its geometry. Its
    /// microphone hears in all directions.
    pub fn sensor_meta(&self, hfov_deg: Figure, dri_m: Vec<Figure>, audio_range_m: Figure) -> (r:
        SensorMeta)
        requires
            hfov_deg.real == self.field_of_view(),
        ensures
            r.camera == Some(
                CameraMeta {
                    hfov_deg,
                    dri_m,
                    width_px: self.frame_width() as u32,
                    height_px: self.frame_height() as u32,
                },
            ),
            match r.audio {
                Some(a) => self.microphone() && a.omni_range_m == audio_range_m && a.lobes@.len()
                    == 0,
                None => !self.microphone(),
            },
    {
        SensorMeta {
            camera: Some(
                CameraMeta { hfov_deg, dri_m, width_px: self.width, height_px: self.height },
            ),
            audio: if self.has_audio {
                Some(AudioMeta { omni_range_m: audio_range_m, lobes: Vec::new() })
            } else {
                None
            },
        }
    }

    /// Whether a microphone is fitted.
    pub fn has_audio(&self) -> (r: bool)
        ensures
            r == self.microphone(),
    {
        self.has_audio
    }

    /// Render one frame. `on_grid` says of every pixel whether a grid line
    /// crosses it; a mask of the wrong size renders nothing.
    pub fn video_frame(&self, on_grid: &Vec<bool>, blobs: &Vec<Blob>) -> (r: Option<VideoFrame>)
        ensures
            r is Some <==> on_grid@.len() == self.frame_width() * self.frame_height(),
            r matches Some(f) ==> {
                &&& f.width == self.frame_width()
                &&& f.height == self.frame_height()
                &&& f.jpeg@ == jpeg_bytes(
                    picture(on_grid@, blobs@),
                    self.frame_width() as u16,
                    self.frame_height() as u16,
                    self.frame_quality(),
                )
            },
    {
        proof {
            use_type_invariant(self);
        }
        let w: u16 = self.width as u16;
        let h: u16 = self.height as u16;
        assert(w * h <= 1280 * 960) by (nonlinear_arith)
            requires
                w <= 1280,
                h <= 960,
        ;
        if on_grid.len() != (w as usize) * (h as usize) {
            return None;
        }
        let rgb = compose(on_grid, blobs);
        assert(3 * (w * h) == 3 * w * h) by (nonlinear_arith);
        match encode_jpeg(&rgb, w, h, self.quality) {
            Some(jpeg) => Some(VideoFrame { width: self.width, height: self.height, jpeg }),
            None => None,
        }
    }
}

// ---------------------------------------------------------------------------
// sound
// ---------------------------------------------------------------------------

/// `n` in `count` bytes, least significant first.
pub open spec fn le_bytes(n: u64, count: nat) -> Seq<u8> {
    Seq::new(count, |k: int| byte_of(n, k))
}

/// A sample as an unsigned 16-bit pattern.
pub open spec fn pattern(s: i16) -> u64 {
    if s >= 0 {
        s as u64
    } else {
        (65536 + s) as u64
    }
}

/// The samples, two bytes each.
pub open spec fn sample_bytes(samples: Seq<i16>) -> Seq<u8> {
    Seq::new(2 * samples.len(), |j: int| byte_of(pattern(samples[j / 2]), j % 2))
}

/// ASCII `RIFF`.
pub open spec fn riff() -> Seq<u8> {
    seq![82u8, 73, 70, 70]
}

/// ASCII `WAVEfmt `.
pub open spec fn wave_fmt() -> Seq<u8> {
    seq![87u8, 65, 86, 69, 102, 109, 116, 32]
}

/// ASCII `data`.
pub open spec fn data_tag() -> Seq<u8> {
    seq![100u8, 97, 116, 97]
}

/// A RIFF/WAVE container of 16-bit mono samples.
pub open spec fn wav(samples: Seq<i16>, rate: u32) -> Seq<u8> {
    let len = (2 * samples.len()) as u64;
    riff() + le_bytes((36 + len) as u64, 4) + wave_fmt() + le_bytes(16, 4) + le_bytes(1, 2)
        + le_bytes(1, 2) + le_bytes(rate as u64, 4) + le_bytes((2 * rate) as u64, 4) + le_bytes(
        2,
        2,
    ) + le_bytes(16, 2) + data_tag() + le_bytes(len, 4) + sample_bytes(samples)
}

fn put_le(out: &mut Vec<u8>, n: u64, count: usize)
    ensures
        final(out)@ == old(out)@ + le_bytes(n, count as nat),
{
    let ghost before = out@;
    let mut k: usize = 0;
    assert(out@ =~= before + le_bytes(n, count as nat).take(0));
    while k < count
        invariant
            k <= count,
            out@ == before + le_bytes(n, count as nat).take(k as int),
        decreases count - k,
    {
        out.push(byte_at(n, k));
        assert(out@ =~= before + le_bytes(n, count as nat).take(k + 1));
        k = k + 1;
    }
    assert(le_bytes(n, count as nat).take(count as int) =~= le_bytes(n, count as nat));
}

fn put_all(out: &mut Vec<u8>, bytes: &[u8])
    ensures
        final(out)@ == old(out)@ + bytes@,
{
    let ghost before = out@;
    let mut k: usize = 0;
    assert(out@ =~= before + bytes@.take(0));
    while k < bytes.len()
        invariant
            k <= bytes@.len(),
            out@ == before + bytes@.take(k as int),
        decreases bytes@.len() - k,
    {
        out.push(bytes[k]);
        assert(out@ =~= before + bytes@.take(k + 1));
        k = k + 1;
    }
    assert(bytes@.take(bytes@.len() as int) =~= bytes@);
}

/// A RIFF/WAVE container of 16-bit mono samples. The container's sizes are
/// 32-bit numbers.
pub fn wav_pcm16(samples: &Vec<i16>, sample_rate: u32) -> (r: Vec<u8>)
    requires
        36 + 2 * samples@.len() <= u32::MAX,
        2 * sample_rate <= u32::MAX,
    ensures
        r@ == wav(samples@, sample_rate),
{
    let len: u64 = 2 * (samples.len() as u64);
    let mut out: Vec<u8> = Vec::new();
    let tag: [u8; 4] = [82, 73, 70, 70];
    put_all(&mut out, &tag);
    assert(tag@ =~= riff());
    put_le(&mut out, 36 + len, 4);
    let fmt: [u8; 8] = [87, 65, 86, 69, 102, 109, 116, 32];
    put_all(&mut out, &fmt);
    assert(fmt@ =~= wave_fmt());
    put_le(&mut out, 16, 4);
    put_le(&mut out, 1, 2);
    put_le(&mut out, 1, 2);
    put_le(&mut out, sample_rate as u64, 4);
    put_le(&mut out, 2 * (sample_rate as u64), 4);
    put_le(&mut out, 2, 2);
    put_le(&mut out, 16, 2);
    let data: [u8; 4] = [100, 97, 116, 97];
    put_all(&mut out, &data);
    assert(data@ =~= data_tag());
    put_le(&mut out, len, 4);
    let ghost head = out@;
    let ghost all = sample_bytes(samples@);
    let mut i: usize = 0;
    assert(out@ =~= head + all.take(0));
    while i < samples.len()
        invariant
            i <= samples@.len(),
            all == sample_bytes(samples@),
            out@ == head + all.take(2 * i),
        decreases samples@.len() - i,
    {
        let s: i16 = samples[i];
        let p: u64 = if s >= 0 {
            s as u64
        } else {
            (65536 + s as i32) as u64
        };
        assert(p == pattern(s));
        out.push(byte_at(p, 0));
        out.push(byte_at(p, 1));
        proof {
            assert(all[2 * i] == byte_of(p, 0));
            assert(all[2 * i + 1] == byte_of(p, 1));
            assert(out@ =~= head + all.take(2 * (i + 1)));
        }
        i = i + 1;
    }
    assert(all.take(2 * i) =~= all);
    out
}

/// The next state of the noise floor's generator.
pub fn noise_next(state: u32) -> (r: u32)
    ensures
        r == (state * 1_664_525 + 1_013_904_223) % 0x1_0000_0000,
{
    let n: u64 = (state as u64) * 1_664_525 + 1_013_904_223;
    (n % 0x1_0000_0000) as u32
}

/// A sound container is 44 bytes of header and two bytes per sample, and says
/// so itself.
pub proof fn sound_containers_state_their_length(samples: Seq<i16>, rate: u32)
    requires
        36 + 2 * samples.len() <= u32::MAX,
    ensures
        wav(samples, rate).len() == 44 + 2 * samples.len(),
        wav(samples, rate).subrange(0, 4) == riff(),
        wav(samples, rate).subrange(40, 44) == le_bytes((2 * samples.len()) as u64, 4),
        wav(samples, rate).skip(44) == sample_bytes(samples),
{
    let w = wav(samples, rate);
    assert(w.subrange(0, 4) =~= riff());
    assert(w.subrange(40, 44) =~= le_bytes((2 * samples.len()) as u64, 4));
    assert(w.skip(44) =~= sample_bytes(samples));
}

// ---------------------------------------------------------------------------
// live video and published frames
// ---------------------------------------------------------------------------

/// Frames per second of a video session: five when none are asked for, never
/// more than fifteen.
pub fn session_fps(fps: u32) -> (r: u32)
    ensures
        r == (if fps == 0 {
            5
        } else if fps > 15 {
            15
        } else {
            fps as int
        }),
        1 <= r <= 15,
{
    if fps == 0 {
        5
    } else if fps > 15 {
        15
    } else {
        fps
    }
}

/// The live-video payload: the sequence number, most significant byte first,
/// then the picture.
pub open spec fn video_bytes(seq: u64, jpeg: Seq<u8>) -> Seq<u8> {
    Seq::new(8, |k: int| byte_of(seq, 7 - k)) + jpeg
}

/// The live-video payload of a frame taken at `ts` nanoseconds: sequence
/// numbers are milliseconds, so they advance across sessions.
pub fn video_payload(ts: u64, jpeg: &Vec<u8>) -> (r: Vec<u8>)
    ensures
        r@ == video_bytes(ts / 1_000_000, jpeg@),
{
    let seq: u64 = ts / 1_000_000;
    let mut out: Vec<u8> = Vec::new();
    let ghost head = Seq::new(8, |k: int| byte_of(seq, 7 - k));
    let mut k: usize = 0;
    while k < 8
        invariant
            k <= 8,
            head == Seq::new(8, |k: int| byte_of(seq, 7 - k)),
            out@ == head.take(k as int),
        decreases 8 - k,
    {
        out.push(byte_at(seq, 7 - k));
        assert(out@ =~= head.take(k + 1));
        k = k + 1;
    }
    assert(head.take(8) =~= head);
    put_all(&mut out, jpeg.as_slice());
    out
}

/// Later frames have later sequence numbers: the payload of a frame at least
/// a millisecond later compares higher in its first eight bytes' number.
pub proof fn video_sequence_advances(earlier: u64, later: u64)
    requires
        later >= earlier + 1_000_000,
    ensures
        later / 1_000_000 > earlier / 1_000_000,
{
}

/// How many published frames stay servable.
pub const FRAME_CAPACITY: usize = 64;

/// The published frames that are kept servable, oldest first, by the handle
/// that serves each.
#[derive(Debug)]
pub struct FramePublisher {
    kept: Vec<u64>,
}

impl View for FramePublisher {
    type V = Seq<u64>;

    closed spec fn view(&self) -> Seq<u64> {
        self.kept@
    }
}

/// The most recent frames.
pub open spec fn freshest(frames: Seq<u64>) -> Seq<u64> {
    if frames.len() > FRAME_CAPACITY {
        frames.skip(frames.len() - FRAME_CAPACITY)
    } else {
        frames
    }
}

impl FramePublisher {
    /// Nothing published yet.
    pub fn new() -> (r: Self)
        ensures
            r@ == Seq::<u64>::empty(),
    {
        FramePublisher { kept: Vec::new() }
    }

    /// Keep a newly served frame. Returns the frame that has to go, when the
    /// limit is exceeded: the oldest.
    pub fn keep(&mut self, handle: u64) -> (r: Option<u64>)
        requires
            old(self)@.len() <= FRAME_CAPACITY,
        ensures
            final(self)@ == freshest(old(self)@.push(handle)),
            final(self)@.len() <= FRAME_CAPACITY,
            r == (if old(self)@.len() == FRAME_CAPACITY {
                Some(old(self)@.push(handle)[0])
            } else {
                None
            }),
    {
        self.kept.push(handle);
        if self.kept.len() > FRAME_CAPACITY {
            let ghost all = self.kept@;
            let gone: u64 = self.kept.remove(0);
            assert(self.kept@ =~= all.skip(1));
            Some(gone)
        } else {
            None
        }
    }
}

/// The newest frame names of a survey, newest first, at most eight.
pub fn push_recent(recent: &mut Vec<String>, name: String)
    ensures
        views(final(recent)@) == newest(seq![name@] + views(old(recent)@)),
{
    let ghost before = recent@;
    recent.insert(0, name);
    assert(views(recent@) =~= seq![name@] + views(before));
    let ghost all = recent@;
    if recent.len() > 8 {
        recent.truncate(8);
        assert(views(recent@) =~= views(all).take(8));
    }
}

/// The first eight of a list.
pub open spec fn newest(names: Seq<Seq<char>>) -> Seq<Seq<char>> {
    if names.len() > 8 {
        names.take(8)
    } else {
        names
    }
}

// ---------------------------------------------------------------------------
// tasked captures
// ---------------------------------------------------------------------------

/// The mission that an artifact is published under.
pub fn mission_or_adhoc(mission_id: &str) -> (r: String)
    ensures
        r@ == (if mission_id@.len() == 0 {
            "adhoc"@
        } else {
            mission_id@
        }),
{
    if mission_id.is_empty() {
        "adhoc".to_owned()
    } else {
        mission_id.to_owned()
    }
}

/// Where a survey frame is published below its mission.
pub fn raster_frame_name(ts: u64, frame_index: u64) -> (r: String)
    ensures
        r@ == "camera/cam0/frame/"@ + dec_text(ts as nat) + "/"@ + dec_text(frame_index as nat),
{
    let mut s = cat("camera/cam0/frame/", dec(ts).as_str());
    s.append("/");
    s.append(dec(frame_index).as_str());
    s
}

/// Where a tasked capture is published below its mission.
pub open spec fn capture_name(sensor: Seq<char>, ts: u64) -> Seq<char> {
    if sensor == "audio"@ {
        "audio/mic0/clip/"@ + dec_text(ts as nat) + "/0"@
    } else {
        "camera/cam0/still/"@ + dec_text(ts as nat) + "/0"@
    }
}

/// Where a tasked capture is published below its mission.
pub fn tasked_capture_name(sensor: &str, ts: u64) -> (r: String)
    ensures
        r@ == capture_name(sensor@, ts),
{
    let mut s = if same(sensor, "audio") {
        cat("audio/mic0/clip/", dec(ts).as_str())
    } else {
        cat("camera/cam0/still/", dec(ts).as_str())
    };
    s.append("/0");
    s
}

/// How a capture went.
#[derive(Debug)]
pub enum Capture {
    /// Published under this name.
    Published(String),
    /// The sensor gave nothing.
    NoData,
    /// The artifact could not be published.
    NotPublished,
}

/// Terminal state of a capture request.
#[derive(Clone, Copy, Debug, PartialEq, Eq, Structural)]
pub enum CaptureStatus {
    Captured,
    Failed,
    Expired,
    Cancelled,
}

impl CaptureStatus {
    /// The published word.
    pub fn as_str(&self) -> (r: &'static str)
        ensures
            r@ == (match self {
                CaptureStatus::Captured => "captured"@,
                CaptureStatus::Failed => "failed"@,
                CaptureStatus::Expired => "expired"@,
                CaptureStatus::Cancelled => "cancelled"@,
            }),
    {
        match self {
            CaptureStatus::Captured => "captured",
            CaptureStatus::Failed => "failed",
            CaptureStatus::Expired => "expired",
            CaptureStatus::Cancelled => "cancelled",
        }
    }
}

/// What is reported of a capture request. The position is reported of a
/// capture only.
#[derive(Debug)]
pub struct CaptureResult {
    pub request_id: String,
    pub sensor: String,
    pub status: CaptureStatus,
    pub message: String,
    pub gps_time_ns: u64,
    pub artifacts: Vec<String>,
}

/// A capture report by its values.
#[verifier::ext_equal]
pub struct CaptureResultView {
    pub request_id: Seq<char>,
    pub sensor: Seq<char>,
    pub status: CaptureStatus,
    pub message: Seq<char>,
    pub gps_time_ns: u64,
    pub artifacts: Seq<Seq<char>>,
}

impl View for CaptureResult {
    type V = CaptureResultView;

    open spec fn view(&self) -> CaptureResultView {
        CaptureResultView {
            request_id: self.request_id@,
            sensor: self.sensor@,
            status: self.status,
            message: self.message@,
            gps_time_ns: self.gps_time_ns,
            artifacts: views(self.artifacts@),
        }
    }
}

/// A report without artifacts.
pub open spec fn bare_result(
    sensor: Seq<char>,
    status: CaptureStatus,
    message: Seq<char>,
    ts: u64,
) -> CaptureResultView {
    CaptureResultView {
        request_id: request_id_text(ts),
        sensor,
        status,
        message,
        gps_time_ns: ts,
        artifacts: Seq::empty(),
    }
}

/// A report without artifacts.
pub fn report(sensor: &str, status: CaptureStatus, message: &str, ts: u64) -> (r: CaptureResult)
    ensures
        r@ == bare_result(sensor@, status, message@, ts),
{
    let r = CaptureResult {
        request_id: request_id(ts),
        sensor: sensor.to_owned(),
        status,
        message: message.to_owned(),
        gps_time_ns: ts,
        artifacts: Vec::new(),
    };
    assert(r@.artifacts =~= Seq::empty());
    r
}

/// Why a capture gave nothing.
pub open spec fn capture_failure(sensor: Seq<char>, published: bool) -> Seq<char> {
    if sensor == "audio"@ {
        if published {
            "audio artifact publish failed"@
        } else {
            "no microphone fitted"@
        }
    } else if published {
        "camera artifact publish failed"@
    } else {
        "camera capture failed"@
    }
}

/// What is reported of a capture; `trigger` names the mode.
pub open spec fn capture_report(
    sensor: Seq<char>,
    trigger: Seq<char>,
    capture: Capture,
    ts: u64,
) -> CaptureResultView {
    match capture {
        Capture::Published(name) => CaptureResultView {
            artifacts: seq![name@],
            ..bare_result(
                sensor,
                CaptureStatus::Captured,
                "synthetic capture ("@ + trigger + ")"@,
                ts,
            )
        },
        Capture::NoData => bare_result(
            sensor,
            CaptureStatus::Failed,
            capture_failure(sensor, false),
            ts,
        ),
        Capture::NotPublished => bare_result(
            sensor,
            CaptureStatus::Failed,
            capture_failure(sensor, true),
            ts,
        ),
    }
}

/// What is reported of a capture made at `ts`; `trigger` names the mode.
pub fn capture_result(sensor: &str, trigger: &str, capture: Capture, ts: u64) -> (r: CaptureResult)
    ensures
        r@ == capture_report(sensor@, trigger@, capture, ts),
{
    let audio = same(sensor, "audio");
    match capture {
        Capture::Published(name) => {
            let mut message = cat("synthetic capture (", trigger);
            message.append(")");
            let mut artifacts: Vec<String> = Vec::new();
            artifacts.push(name);
            assert(views(artifacts@) =~= seq![name@]);
            CaptureResult {
                request_id: request_id(ts),
                sensor: sensor.to_owned(),
                status: CaptureStatus::Captured,
                message,
                gps_time_ns: ts,
                artifacts,
            }
        },
        Capture::NoData => report(
            sensor,
            CaptureStatus::Failed,
            if audio {
                "no microphone fitted"
            } else {
                "camera capture failed"
            },
            ts,
        ),
        Capture::NotPublished => report(
            sensor,
            CaptureStatus::Failed,
            if audio {
                "audio artifact publish failed"
            } else {
                "camera artifact publish failed"
            },
            ts,
        ),
    }
}

/// A capture report lists an artifact exactly when it says that it captured.
pub proof fn reports_list_what_was_captured(
    sensor: Seq<char>,
    trigger: Seq<char>,
    capture: Capture,
    ts: u64,
)
    ensures
        ({
            let r = capture_report(sensor, trigger, capture, ts);
            &&& r.status == CaptureStatus::Captured <==> r.artifacts.len() == 1
            &&& r.status != CaptureStatus::Captured <==> r.artifacts.len() == 0
            &&& r.gps_time_ns == ts && r.sensor == sensor
        }),
{
}

/// Bits of 6.0: seconds of an audio capture that asks for none.
pub const DEFAULT_AUDIO_BITS: u64 = 0x4018_0000_0000_0000;

/// Bits of 15.0: default watchpoint radius, metres.
pub const DEFAULT_WATCH_RADIUS_BITS: u64 = 0x402e_0000_0000_0000;

/// Bits of 120.0: default watchpoint expiry, seconds.
pub const DEFAULT_WATCH_EXPIRY_BITS: u64 = 0x405e_0000_0000_0000;

/// `x` if it is above zero, else the default.
pub open spec fn positive_or(x: Real, default_bits: u64) -> Real {
    if zero().below(x) {
        x
    } else {
        Real { bits: default_bits }
    }
}

fn or_default(x: Real, default_bits: u64) -> (r: Real)
    ensures
        r == positive_or(x, default_bits),
{
    if real_zero().lt(&x) {
        x
    } else {
        Real { bits: default_bits }
    }
}

/// Seconds of sound that a request asks for.
pub fn audio_duration(req: &SensorRequest) -> (r: Real)
    ensures
        r == positive_or(req@.duration_s, DEFAULT_AUDIO_BITS),
        r == req@.duration_s || r == (Real { bits: 0x4018_0000_0000_0000 }),
        zero().below(r),
{
    or_default(req.duration_s, DEFAULT_AUDIO_BITS)
}

/// Radius and expiry of a watchpoint.
pub fn watch_limits(req: &SensorRequest) -> (r: (Real, Real))
    ensures
        r.0 == positive_or(req@.radius_m, DEFAULT_WATCH_RADIUS_BITS),
        r.1 == positive_or(req@.expiry_s, DEFAULT_WATCH_EXPIRY_BITS),
        r.0 == req@.radius_m || r.0 == (Real { bits: 0x402e_0000_0000_0000 }),
        r.1 == req@.expiry_s || r.1 == (Real { bits: 0x405e_0000_0000_0000 }),
        zero().below(r.0) && zero().below(r.1),
{
    (
        or_default(req.radius_m, DEFAULT_WATCH_RADIUS_BITS),
        or_default(req.expiry_s, DEFAULT_WATCH_EXPIRY_BITS),
    )
}

// ---------------------------------------------------------------------------
// override captures
// ---------------------------------------------------------------------------

/// How the flight of an override goes.
#[derive(Clone, Copy, Debug, PartialEq, Eq, Structural)]
pub enum Detour {
    Flying,
    Arrived,
    /// The agent shuts down.
    ShutDown,
    /// The ladder or another command took the vehicle.
    Preempted,
    TimedOut,
}

/// Why the flight of an override failed; `None` while it has not.
pub open spec fn detour_failure(d: Detour) -> Option<Seq<char>> {
    match d {
        Detour::Flying => None,
        Detour::Arrived => None,
        Detour::ShutDown => Some("agent shutdown"@),
        Detour::Preempted => Some("pre-empted by another command"@),
        Detour::TimedOut => Some("travel deadline exceeded"@),
    }
}

/// The report of an override whose flight failed; `None` while it has not.
pub fn detour_report(d: Detour, sensor: &str, ts: u64) -> (r: Option<CaptureResult>)
    ensures
        r is Some <==> detour_failure(d) is Some,
        r matches Some(x) ==> x@ == bare_result(
            sensor@,
            CaptureStatus::Failed,
            "override flight failed: "@ + detour_failure(d)->0,
            ts,
        ),
{
    let why = match d {
        Detour::Flying => {
            return None;
        },
        Detour::Arrived => {
            return None;
        },
        Detour::ShutDown => "agent shutdown",
        Detour::Preempted => "pre-empted by another command",
        Detour::TimedOut => "travel deadline exceeded",
    };
    Some(report(sensor, CaptureStatus::Failed, cat("override flight failed: ", why).as_str(), ts))
}

/// The agent after an override: the detour is over, and a vehicle that it
/// owned is released. A scoped operator cancel of such a vehicle is consumed.
pub open spec fn detour_over(a: AgentView, resume_task: Seq<char>) -> AgentView {
    let own = resume_task == SENSOR_OVERRIDE@;
    let handed = own && a.v.operator_abort;
    AgentView {
        v: VehicleView {
            busy: if own && a.v.busy == SENSOR_OVERRIDE@ {
                Seq::empty()
            } else {
                a.v.busy
            },
            abort: a.v.abort && !handed,
            operator_abort: a.v.operator_abort && !handed,
            ..a.v
        },
        detour: false,
        ..a
    }
}

impl AgentShared {
    /// End an override: clear the detour, release the vehicle if the override
    /// owned it, and say whether the idle policy takes over.
    pub fn finish_override(&mut self, resume_task: &str) -> (r: bool)
        ensures
            final(self)@ == detour_over(old(self)@, resume_task@),
            r == (resume_task@ == SENSOR_OVERRIDE@ && old(self)@.v.operator_abort),
            final(self).same_setup(*old(self)),
    {
        self.detour = false;
        if !same(resume_task, SENSOR_OVERRIDE) {
            return false;
        }
        if same(self.vehicle.busy.as_str(), SENSOR_OVERRIDE) {
            self.vehicle.busy = String::new();
        }
        self.operator_abort_handoff()
    }

    /// Unregister a watchpoint; the others stay as they are.
    pub fn disarm(&mut self, id: &str)
        ensures
            final(self)@ == (AgentView {
                watchpoints: unwatched(old(self)@.watchpoints, id@),
                ..old(self)@
            }),
            final(self).same_setup(*old(self)),
    {
        let ghost all = watch_views(self.watchpoints@);
        let mut kept: Vec<Watchpoint> = Vec::new();
        let mut i: usize = 0;
        assert(all.take(0) =~= Seq::empty());
        assert(watch_views(kept@) =~= Seq::empty());
        while i < self.watchpoints.len()
            invariant
                i <= self.watchpoints@.len(),
                all == watch_views(self.watchpoints@),
                watch_views(kept@) == unwatched(all.take(i as int), id@),
            decreases self.watchpoints@.len() - i,
        {
            assert(all.take(i + 1).drop_last() =~= all.take(i as int));
            assert(all.take(i + 1).last() == self.watchpoints@[i as int]@);
            if !same(self.watchpoints[i].id.as_str(), id) {
                let w = Watchpoint {
                    id: self.watchpoints[i].id.clone(),
                    sensor: self.watchpoints[i].sensor.clone(),
                };
                let ghost before = kept@;
                kept.push(w);
                assert(watch_views(kept@) =~= watch_views(before).push(w@));
            }
            i = i + 1;
        }
        assert(all.take(i as int) =~= all);
        self.watchpoints = kept;
    }
}

/// After an override the mission it suspended still owns the vehicle, with
/// the detour over; nothing but the override's own claim is given up.
pub proof fn overrides_resume_what_they_suspended(a: AgentView, resume_task: Seq<char>)
    requires
        resume_task != SENSOR_OVERRIDE@,
    ensures
        detour_over(a, resume_task) == (AgentView { detour: false, ..a }),
{
}

// ---------------------------------------------------------------------------
// watchpoints
// ---------------------------------------------------------------------------

/// How a watchpoint goes.
#[derive(Clone, Copy, Debug, PartialEq, Eq, Structural)]
pub enum Watch {
    Armed,
    /// The agent shuts down.
    ShutDown,
    /// The operator removed it.
    Cancelled,
    /// The vehicle passes: capture.
    Fired,
    /// The time is up without a pass.
    Expired,
}

/// One poll of a watchpoint: `distance` from the vehicle, when its position
/// is known.
pub fn watch_poll(
    shut_down: bool,
    cancelled: bool,
    distance: Option<Real>,
    radius: Real,
    late: bool,
) -> (r: Watch)
    ensures
        r == (if shut_down {
            Watch::ShutDown
        } else if cancelled {
            Watch::Cancelled
        } else if distance is Some && (distance->0).at_most(radius) {
            Watch::Fired
        } else if late {
            Watch::Expired
        } else {
            Watch::Armed
        }),
        r == Watch::Fired <==> !shut_down && !cancelled && distance is Some && (
        distance->0).at_most(radius),
        r == Watch::Expired ==> late,
        r == Watch::Armed ==> !late,
{
    if shut_down {
        return Watch::ShutDown;
    }
    if cancelled {
        return Watch::Cancelled;
    }
    if let Some(d) = distance {
        if d.le(&radius) {
            return Watch::Fired;
        }
    }
    if late {
        Watch::Expired
    } else {
        Watch::Armed
    }
}

/// The report of a watchpoint that ended without a capture.
pub fn watch_report(w: Watch, id: &str, sensor: &str, ts: u64) -> (r: Option<CaptureResult>)
    ensures
        r is Some <==> w == Watch::Cancelled || w == Watch::Expired,
        w == Watch::Cancelled ==> r->0@ == bare_result(
            sensor@,
            CaptureStatus::Cancelled,
            "watchpoint "@ + id@ + " cancelled by operator"@,
            ts,
        ),
        w == Watch::Expired ==> r->0@ == bare_result(
            sensor@,
            CaptureStatus::Expired,
            "watchpoint expired without a pass"@,
            ts,
        ),
{
    match w {
        Watch::Cancelled => {
            let mut message = cat("watchpoint ", id);
            message.append(" cancelled by operator");
            Some(report(sensor, CaptureStatus::Cancelled, message.as_str(), ts))
        },
        Watch::Expired => Some(
            report(sensor, CaptureStatus::Expired, "watchpoint expired without a pass", ts),
        ),
        _ => None,
    }
}

} // verus!
