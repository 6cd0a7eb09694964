//! What sensors show, how their products are framed and named, and what is
//! reported of a capture.

use vstd::prelude::*;

use crate::agent::{
    has_audio, investigate_note, investigate_origin, shutdown_reason, unwatched, AgentView,
    WatchpointView,
};
use crate::clock::{byte_of, request_id_text};
use crate::quantity::Real;
use crate::sensor::{
    bare_result, capture_name, capture_report, clamped, detour_failure,
    detour_over, freshest, le_bytes, newest, painted, pattern, picture, positive_or, sample_bytes,
    signature_color, video_bytes, wav, Blob, Capture, CaptureStatus, Detour, Rgb,
};
use crate::tasks::TaskOrigin;
use crate::text::dec_text;

verus! {

// ---------------------------------------------------------------------------
// the picture
// ---------------------------------------------------------------------------

/// An anomaly is drawn in the color of its signature, and in red if it has
/// none of the known ones.
pub proof fn signatures_have_their_colors(s: Seq<char>)
    ensures
        signature_color("orange"@) == (Rgb { r: 235, g: 130, b: 30 }),
        signature_color("blue"@) == (Rgb { r: 50, g: 90, b: 220 }),
        signature_color("yellow"@) == (Rgb { r: 230, g: 210, b: 40 }),
        signature_color("magenta"@) == (Rgb { r: 200, g: 60, b: 190 }),
        s != "orange"@ && s != "blue"@ && s != "yellow"@ && s != "magenta"@ ==> signature_color(s)
            == (Rgb { r: 210, g: 40, b: 40 }),
{
    reveal_strlit("orange");
    reveal_strlit("blue");
    reveal_strlit("yellow");
    reveal_strlit("magenta");
    assert("orange"@.len() == 6 && "blue"@.len() == 4 && "yellow"@.len() == 6 && "magenta"@.len()
        == 7);
    assert("orange"@[0] != "yellow"@[0]);
}

proof fn lemma_painted(on_grid: Seq<bool>, blobs: Seq<Blob>, n: int, i: int, k: int)
    requires
        0 <= k < n <= blobs.len(),
        blobs[k].pixels@.contains(i as usize),
        forall|j: int| k < j < n ==> !(#[trigger] blobs[j]).pixels@.contains(i as usize),
    ensures
        painted(on_grid, blobs, n, i) == signature_color(blobs[k].signature@),
    decreases n,
{
    if k < n - 1 {
        assert(!blobs[n - 1].pixels@.contains(i as usize));
        lemma_painted(on_grid, blobs, n - 1, i, k);
    }
}

proof fn lemma_unpainted(on_grid: Seq<bool>, blobs: Seq<Blob>, n: int, i: int)
    requires
        0 <= n <= blobs.len(),
        forall|j: int| 0 <= j < n ==> !(#[trigger] blobs[j]).pixels@.contains(i as usize),
    ensures
        painted(on_grid, blobs, n, i) == if on_grid[i] {
            Rgb { r: 46, g: 54, b: 46 }
        } else {
            Rgb { r: 34, g: 40, b: 34 }
        },
    decreases n,
{
    if n > 0 {
        assert(!blobs[n - 1].pixels@.contains(i as usize));
        lemma_unpainted(on_grid, blobs, n - 1, i);
    }
}

/// A pixel shows the last anomaly that covers it, else the grid, else the
/// ground; a picture is the red, green and blue of its pixels in order.
pub proof fn pixels_show_the_topmost_anomaly(on_grid: Seq<bool>, blobs: Seq<Blob>, i: int, k: int)
    requires
        0 <= i < on_grid.len(),
    ensures
        ({
            let c = painted(on_grid, blobs, blobs.len() as int, i);
            let p = picture(on_grid, blobs);
            &&& p.len() == 3 * on_grid.len()
            &&& p[3 * i] == c.r && p[3 * i + 1] == c.g && p[3 * i + 2] == c.b
            &&& 0 <= k < blobs.len() && blobs[k].pixels@.contains(i as usize) && (forall|j: int|
                k < j < blobs.len() ==> !(#[trigger] blobs[j]).pixels@.contains(i as usize)) ==> c
                == signature_color(blobs[k].signature@)
            &&& (forall|j: int|
                0 <= j < blobs.len() ==> !(#[trigger] blobs[j]).pixels@.contains(i as usize)) ==> c
                == if on_grid[i] {
                Rgb { r: 46, g: 54, b: 46 }
            } else {
                Rgb { r: 34, g: 40, b: 34 }
            }
        }),
{
    let n = blobs.len() as int;
    if 0 <= k < n && blobs[k].pixels@.contains(i as usize) && (forall|j: int|
        k < j < n ==> !(#[trigger] blobs[j]).pixels@.contains(i as usize)) {
        lemma_painted(on_grid, blobs, n, i, k);
    }
    if forall|j: int| 0 <= j < n ==> !(#[trigger] blobs[j]).pixels@.contains(i as usize) {
        lemma_unpainted(on_grid, blobs, n, i);
    }
    assert((3 * i) / 3 == i && (3 * i) % 3 == 0);
    assert((3 * i + 1) / 3 == i && (3 * i + 1) % 3 == 1);
    assert((3 * i + 2) / 3 == i && (3 * i + 2) % 3 == 2);
}

/// A number is confined to a range: it is the nearest one within it.
pub proof fn confined_numbers_are_the_nearest(x: int, low: int, high: int, y: int)
    requires
        low <= high,
    ensures
        low <= clamped(x, low, high) <= high,
        low <= x <= high ==> clamped(x, low, high) == x,
        low <= y <= high && y <= x ==> y <= clamped(x, low, high),
        low <= y <= high && y >= x ==> y >= clamped(x, low, high),
{
}

// ---------------------------------------------------------------------------
// sound and video
// ---------------------------------------------------------------------------

/// The header of a sound container field by field: RIFF and the length of
/// what follows, WAVE, a format of sixteen bytes that is one channel of
/// sixteen-bit samples at the rate given, and the data with its length; each
/// number has its least significant byte first.
#[verifier::rlimit(60)]
pub proof fn sound_containers_have_their_header(samples: Seq<i16>, rate: u32)
    requires
        36 + 2 * samples.len() <= u32::MAX,
        2 * rate <= u32::MAX,
    ensures
        ({
            let w = wav(samples, rate);
            let n = (2 * samples.len()) as u64;
            &&& w.subrange(0, 4) == seq![0x52u8, 0x49, 0x46, 0x46]
            &&& w.subrange(4, 8) == le_bytes((n + 36) as u64, 4)
            &&& w.subrange(8, 16) == seq![0x57u8, 0x41, 0x56, 0x45, 0x66, 0x6d, 0x74, 0x20]
            &&& w.subrange(16, 24) == seq![16u8, 0, 0, 0, 1, 0, 1, 0]
            &&& w.subrange(24, 28) == le_bytes(rate as u64, 4)
            &&& w.subrange(28, 32) == le_bytes((2 * rate) as u64, 4)
            &&& w.subrange(32, 36) == seq![2u8, 0, 16, 0]
            &&& w.subrange(36, 40) == seq![0x64u8, 0x61, 0x74, 0x61]
            &&& w.subrange(40, 44) == le_bytes(n, 4)
        }),
{
    reveal_with_fuel(byte_of, 5);
    let w = wav(samples, rate);
    let n = (2 * samples.len()) as u64;
    assert(w.subrange(0, 4) =~= seq![0x52u8, 0x49, 0x46, 0x46]);
    assert(w.subrange(4, 8) =~= le_bytes((n + 36) as u64, 4));
    assert(w.subrange(8, 16) =~= seq![0x57u8, 0x41, 0x56, 0x45, 0x66, 0x6d, 0x74, 0x20]);
    assert(le_bytes(16, 4) =~= seq![16u8, 0, 0, 0]);
    assert(le_bytes(1, 2) =~= seq![1u8, 0]);
    assert(le_bytes(2, 2) =~= seq![2u8, 0]);
    assert(le_bytes(16, 2) =~= seq![16u8, 0]);
    assert(w.subrange(16, 24) =~= seq![16u8, 0, 0, 0, 1, 0, 1, 0]);
    assert(w.subrange(24, 28) =~= le_bytes(rate as u64, 4));
    assert(w.subrange(28, 32) =~= le_bytes((2 * rate) as u64, 4));
    assert(w.subrange(32, 36) =~= seq![2u8, 0, 16, 0]);
    assert(w.subrange(36, 40) =~= seq![0x64u8, 0x61, 0x74, 0x61]);
    assert(w.subrange(40, 44) =~= le_bytes(n, 4));
}

/// Four bytes of a number, least significant first, make it up.
pub proof fn small_numbers_are_four_bytes(n: u64)
    requires
        n < 0x1_0000_0000,
    ensures
        le_bytes(n, 4).len() == 4,
        n == le_bytes(n, 4)[0] + 0x100 * le_bytes(n, 4)[1] + 0x1_0000 * le_bytes(n, 4)[2]
            + 0x100_0000 * le_bytes(n, 4)[3],
{
    reveal_with_fuel(byte_of, 5);
}

/// A sample is two bytes, the low one first, and reads back as itself, with
/// the upper half of the range for the negative ones.
pub proof fn samples_are_two_bytes(samples: Seq<i16>, i: int)
    requires
        0 <= i < samples.len(),
    ensures
        ({
            let b = sample_bytes(samples);
            let word = b[2 * i] + 0x100 * b[2 * i + 1];
            &&& b.len() == 2 * samples.len()
            &&& samples[i] == if word < 0x8000 {
                word
            } else {
                word - 0x1_0000
            }
        }),
{
    reveal_with_fuel(byte_of, 3);
    assert((2 * i) / 2 == i && (2 * i) % 2 == 0);
    assert((2 * i + 1) / 2 == i && (2 * i + 1) % 2 == 1);
    let p = pattern(samples[i]);
    assert(p < 0x1_0000);
}

/// A video payload is the sequence number in eight bytes, most significant
/// first, and then the picture as it is.
pub proof fn video_payloads_lead_with_their_number(seq: u64, jpeg: Seq<u8>)
    ensures
        ({
            let b = video_bytes(seq, jpeg);
            &&& b.len() == 8 + jpeg.len() && b.skip(8) == jpeg
            &&& seq == 0x100_0000_0000_0000 * b[0] + 0x1_0000_0000_0000 * b[1] + 0x100_0000_0000
                * b[2] + 0x1_0000_0000 * b[3] + 0x100_0000 * b[4] + 0x1_0000 * b[5] + 0x100 * b[6]
                + b[7]
        }),
{
    crate::status_laws::words_are_their_bytes(seq);
    assert(video_bytes(seq, jpeg).skip(8) =~= jpeg);
}

/// Of the published frames the last sixty-four are kept, and of the recent
/// names the first eight.
pub proof fn recent_frames_are_kept(frames: Seq<u64>, names: Seq<Seq<char>>, i: int)
    ensures
        freshest(frames).len() == if frames.len() < 64 {
            frames.len()
        } else {
            64
        },
        0 <= i < freshest(frames).len() ==> freshest(frames)[i] == frames[i + frames.len()
            - freshest(frames).len()],
        newest(names).len() == if names.len() < 8 {
            names.len()
        } else {
            8
        },
        0 <= i < newest(names).len() ==> newest(names)[i] == names[i],
{
}

// ---------------------------------------------------------------------------
// captures
// ---------------------------------------------------------------------------

/// Where a capture is published: a sound clip among the microphone's, anything
/// else among the camera's stills, each under its time.
pub proof fn captures_are_named_by_sensor_and_time(sensor: Seq<char>, ts: u64)
    ensures
        sensor == "audio"@ ==> capture_name(sensor, ts) == "audio/mic0/clip/"@ + dec_text(ts as nat)
            + "/0"@,
        sensor != "audio"@ ==> capture_name(sensor, ts) == "camera/cam0/still/"@ + dec_text(
            ts as nat,
        ) + "/0"@,
{
}

/// What is reported of a capture: captured with the product's name exactly if
/// it was published, and failed otherwise, for the reason that its sensor
/// gives.
pub proof fn captures_are_reported_as_they_went(
    sensor: Seq<char>,
    trigger: Seq<char>,
    capture: Capture,
    ts: u64,
)
    ensures
        ({
            let r = capture_report(sensor, trigger, capture, ts);
            let mic = sensor == "audio"@;
            &&& r.sensor == sensor && r.gps_time_ns == ts && r.request_id == request_id_text(ts)
            &&& r.status == CaptureStatus::Captured <==> capture is Published
            &&& r.status == CaptureStatus::Failed <==> !(capture is Published)
            &&& capture matches Capture::Published(name) ==> r.artifacts == seq![name@]
                && r.message == "synthetic capture ("@ + trigger + ")"@
            &&& !(capture is Published) ==> r.artifacts.len() == 0
            &&& capture is NoData ==> r.message == (if mic {
                "no microphone fitted"@
            } else {
                "camera capture failed"@
            })
            &&& capture is NotPublished ==> r.message == (if mic {
                "audio artifact publish failed"@
            } else {
                "camera artifact publish failed"@
            })
        }),
{
}

/// A report without a product says what it was given and lists nothing.
pub proof fn bare_reports_say_what_they_are_given(
    sensor: Seq<char>,
    status: CaptureStatus,
    message: Seq<char>,
    ts: u64,
)
    ensures
        ({
            let r = bare_result(sensor, status, message, ts);
            &&& r.sensor == sensor && r.status == status && r.message == message
            &&& r.gps_time_ns == ts && r.artifacts.len() == 0
            &&& r.request_id == request_id_text(ts)
        }),
{
}

/// A detour fails for the reason it stopped, and only if it stopped short.
pub proof fn detours_fail_for_a_reason(d: Detour)
    ensures
        detour_failure(d) is Some <==> d != Detour::Flying && d != Detour::Arrived,
        detour_failure(Detour::ShutDown) == Some("agent shutdown"@),
        detour_failure(Detour::Preempted) == Some("pre-empted by another command"@),
        detour_failure(Detour::TimedOut) == Some("travel deadline exceeded"@),
{
}

/// After a detour: an override that had the vehicle for itself gives it up,
/// with the cancel it was given; one that suspended a mission only ends.
pub proof fn detours_give_back_what_they_took(a: AgentView, resume_task: Seq<char>)
    ensures
        ({
            let b = detour_over(a, resume_task);
            let own = resume_task == "sensor-override"@;
            &&& !b.detour && b.v.q == a.v.q && b.watchpoints == a.watchpoints
            &&& own && a.v.busy == resume_task ==> b.v.busy.len() == 0
            &&& !own || a.v.busy != resume_task ==> b.v.busy == a.v.busy
            &&& own && a.v.operator_abort ==> !b.v.abort && !b.v.operator_abort
            &&& !own || !a.v.operator_abort ==> b.v.abort == a.v.abort && b.v.operator_abort
                == a.v.operator_abort
        }),
{
}

/// A limit that is not a number above zero has its default.
pub proof fn limits_above_zero_are_taken(x: Real, default_bits: u64)
    ensures
        !x.is_nan() && x.key() > 0 ==> positive_or(x, default_bits) == x,
        x.is_nan() || x.key() <= 0 ==> positive_or(x, default_bits) == (Real { bits: default_bits }),
{
}

/// Disarming takes the watchpoint of that id away and leaves the others in
/// their order.
pub proof fn disarming_takes_one_watchpoint(
    s: Seq<WatchpointView>,
    w: WatchpointView,
    id: Seq<char>,
)
    ensures
        unwatched(Seq::empty(), id).len() == 0,
        w.id == id ==> unwatched(s.push(w), id) == unwatched(s, id),
        w.id != id ==> unwatched(s.push(w), id) == unwatched(s, id).push(w),
{
    assert(s.push(w).drop_last() =~= s);
}

// ---------------------------------------------------------------------------
// words of the service
// ---------------------------------------------------------------------------

/// An inspection that belongs to a mission was dispatched, any other was
/// ordered by the operator; its answer names the pattern; and a vehicle hears
/// if it lists a microphone.
pub proof fn inspections_are_answered_by_pattern(
    mission_id: Seq<char>,
    pattern: Seq<char>,
    extras: Seq<String>,
    i: int,
)
    ensures
        investigate_origin(mission_id) == TaskOrigin::Operator <==> mission_id.len() == 0,
        investigate_origin(mission_id) == TaskOrigin::Dispatch <==> mission_id.len() > 0,
        investigate_note("flyover"@) == "acoustic flyover accepted"@,
        pattern != "flyover"@ ==> investigate_note(pattern) == "carrot-orbit accepted"@,
        0 <= i < extras.len() && extras[i]@ == "audio"@ ==> has_audio(extras),
        has_audio(extras) ==> exists|k: int|
            0 <= k < extras.len() && (#[trigger] extras[k])@ == "audio"@,
{
}

/// A refused shutdown says why.
pub proof fn refused_shutdowns_say_why(busy: Seq<char>)
    ensures
        shutdown_reason("shutdown-confirm-mismatch"@, busy)
            == "shutdown confirm phrase does not match the vehicle id"@,
        shutdown_reason("shutdown-while-armed"@, busy) == "shutdown refused: vehicle is armed"@,
        shutdown_reason("shutdown-while-busy"@, busy)
            == "shutdown refused: vehicle busy with task '"@ + busy + "'"@,
{
    reveal_strlit("shutdown-confirm-mismatch");
    reveal_strlit("shutdown-while-armed");
    reveal_strlit("shutdown-while-busy");
    assert("shutdown-confirm-mismatch"@.len() == 25 && "shutdown-while-armed"@.len() == 20
        && "shutdown-while-busy"@.len() == 19);
}

} // verus!
