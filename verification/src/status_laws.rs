//! What a vehicle publishes of itself: the listing of its queue, the notes of
//! its tasks, and the words and digits they are written in.

use vstd::prelude::*;

use crate::blocks::{hex_char, hex_text, hex_value, lemma_hex_text_len};
use crate::clock::{byte_of, request_id_text};
use crate::driver::{
    current_leg, eta_of, info_of, listed, nibble, resume_part, short_hash, survey_note,
    MissionClock,
};
use crate::flight::RasterFlightView;
use crate::idle::unclaimed;
use crate::quantity::Real;
use crate::queue::QueueState;
use crate::queue_model::{id_list_text, QueueView, TaskEntryView, VehicleView};
use crate::tasks::{TaskOrigin, TaskState};
use crate::text::dec_text;

verus! {

// ---------------------------------------------------------------------------
// digits
// ---------------------------------------------------------------------------

/// The hex digits in order.
pub open spec fn hex_digits() -> Seq<char> {
    "0123456789abcdef"@
}

proof fn lemma_hex_char(d: int)
    requires
        0 <= d < 16,
    ensures
        hex_digits().len() == 16,
        hex_char(d) == hex_digits()[d],
{
    reveal_strlit("0123456789abcdef");
}

/// Bytes are written as two lowercase hex digits each, the high one first.
pub proof fn bytes_are_written_high_digit_first(bytes: Seq<u8>, i: int)
    requires
        0 <= i < bytes.len(),
    ensures
        hex_text(bytes).len() == 2 * bytes.len(),
        hex_text(bytes)[2 * i] == hex_digits()[bytes[i] as int / 16],
        hex_text(bytes)[2 * i + 1] == hex_digits()[bytes[i] as int % 16],
    decreases bytes.len(),
{
    let rest = bytes.drop_last();
    lemma_hex_text_len(bytes);
    lemma_hex_text_len(rest);
    lemma_hex_char(bytes[i] as int / 16);
    lemma_hex_char(bytes[i] as int % 16);
    if i < rest.len() {
        bytes_are_written_high_digit_first(rest, i);
    }
}

/// A hex digit is read in either case, and nothing else is one.
pub proof fn hex_digits_are_read_in_either_case(b: u8)
    ensures
        hex_value(b) matches Some(v) ==> v < 16 && (b as char == hex_digits()[v as int] || (v >= 10
            && b + 32 == hex_digits()[v as int] as int)),
        hex_value(b) is Some <==> (0x30 <= b <= 0x39 || 0x41 <= b <= 0x46 || 0x61 <= b <= 0x66),
{
    if hex_value(b) is Some {
        lemma_hex_char(hex_value(b)->0 as int);
    }
}

proof fn lemma_nibble(n: u64, k: nat)
    ensures
        0 <= nibble(n, k as int) < 16,
        nibble(n, k as int + 1) == nibble(n / 16, k as int),
    decreases k,
{
    if k > 0 {
        lemma_nibble(n / 16, (k - 1) as nat);
    }
}

/// The short hash in a digest is the low half of the hash in eight lowercase
/// hex digits: read back, they are that number.
pub proof fn short_hashes_show_the_low_half(hash: u64)
    ensures
        short_hash(hash).len() == 8,
        forall|k: int|
            0 <= k < 8 ==> #[trigger] short_hash(hash)[k] == hex_digits()[nibble(hash, 7 - k)],
        0x1000_0000 * nibble(hash, 7) + 0x100_0000 * nibble(hash, 6) + 0x10_0000 * nibble(hash, 5)
            + 0x1_0000 * nibble(hash, 4) + 0x1000 * nibble(hash, 3) + 0x100 * nibble(hash, 2) + 0x10
            * nibble(hash, 1) + nibble(hash, 0) == hash as int % 0x1_0000_0000,
{
    reveal_with_fuel(nibble, 9);
    assert forall|k: int| 0 <= k < 8 implies #[trigger] short_hash(hash)[k]
        == hex_digits()[nibble(hash, 7 - k)] by {
        lemma_nibble(hash, (7 - k) as nat);
        lemma_hex_char(nibble(hash, 7 - k));
    }
}

/// The bytes of a word, least significant first, make up the word.
pub proof fn words_are_their_bytes(n: u64)
    ensures
        n == byte_of(n, 0) + 0x100 * byte_of(n, 1) + 0x1_0000 * byte_of(n, 2) + 0x100_0000
            * byte_of(n, 3) + 0x1_0000_0000 * byte_of(n, 4) + 0x100_0000_0000 * byte_of(n, 5)
            + 0x1_0000_0000_0000 * byte_of(n, 6) + 0x100_0000_0000_0000 * byte_of(n, 7),
{
    reveal_with_fuel(byte_of, 9);
}

/// The id of a capture request counts milliseconds, by their last eight
/// digits: requests within a day share no id unless within one millisecond.
pub proof fn request_ids_count_milliseconds(a: u64, b: u64)
    ensures
        request_id_text(a) == "cap-"@ + dec_text((a as nat / 1_000_000) % 100_000_000),
        a / 1_000_000 < b / 1_000_000 && b / 1_000_000 - a / 1_000_000 < 86_400_000
            ==> request_id_text(a) != request_id_text(b),
{
    let x = (a as nat / 1_000_000) % 100_000_000;
    let y = (b as nat / 1_000_000) % 100_000_000;
    crate::text::lemma_dec_injective(x, y);
    if request_id_text(a) == request_id_text(b) {
        let p = "cap-"@;
        assert((p + dec_text(x)).skip(p.len() as int) =~= dec_text(x));
        assert((p + dec_text(y)).skip(p.len() as int) =~= dec_text(y));
        assert(x == y);
    }
}

// ---------------------------------------------------------------------------
// the listing of a queue
// ---------------------------------------------------------------------------

/// A queue is listed with the task in flight first, then those that wait, in
/// run order, then the finished ones; exactly those that wait have an
/// estimated start.
pub proof fn listings_follow_the_run_order(q: QueueView, etas: Seq<Real>, i: int)
    requires
        0 <= i < listed(q).len(),
    ensures
        ({
            let first = if q.active is Some {
                1int
            } else {
                0int
            };
            let waits = first <= i < first + q.pending.len();
            &&& listed(q).len() == first + q.pending.len() + q.finished.len()
            &&& i < first ==> Some(listed(q)[i]) == q.active
            &&& waits ==> listed(q)[i] == q.pending[i - first]
            &&& i >= first + q.pending.len() ==> listed(q)[i] == q.finished[i - first
                - q.pending.len()]
            &&& eta_of(q, etas, i) is Some <==> waits
            &&& waits ==> eta_of(q, etas, i) == Some(etas[i - first])
        }),
{
}

/// What is published of an entry is the entry: every field as it stands, with
/// the digest and the estimated start given.
pub proof fn entries_are_published_as_they_stand(
    e: TaskEntryView,
    digest: Seq<char>,
    eta: Option<Real>,
)
    ensures
        ({
            let p = info_of(e, digest, eta);
            &&& p.task_id == e.task_id && p.kind == e.kind && p.state == e.state
            &&& p.origin == e.origin && p.parent == e.parent
            &&& p.enqueued_ns == e.enqueued_ns && p.started_ns == e.started_ns
            &&& p.progress == e.progress && p.est_duration_s == e.est_duration_s
            &&& p.params_digest == digest && p.eta_to_start_s == eta
        }),
{
}

/// What a waiting entry waits for: the rest of the task in flight, by its
/// progress or else by its estimate, and the estimate of each entry before it.
pub proof fn waits_are_made_of_what_lies_ahead(q: QueueView, upto: nat, i: int)
    requires
        upto <= q.pending.len(),
    ensures
        ({
            let terms = QueueState::eta_terms_of(q, upto);
            let first = if q.active is Some {
                1int
            } else {
                0int
            };
            &&& terms.len() == first + upto
            &&& q.active matches Some(a) ==> terms[0] == (if a.progress is Some {
                a.progress->0.eta_s
            } else {
                a.est_duration_s
            })
            &&& 0 <= i < upto ==> terms[first + i] == q.pending[i].est_duration_s
        }),
{
}

/// A list of ids in a refusal quotes each of them and puts commas between.
pub proof fn id_lists_quote_their_ids(s: Seq<Seq<char>>, id: Seq<char>)
    ensures
        id_list_text(Seq::empty()).len() == 0,
        id_list_text(s.push(id)) == id_list_text(s) + (if s.len() > 0 {
            ", "@
        } else {
            Seq::empty()
        }) + "\""@ + id + "\""@,
{
    let t = s.push(id);
    assert(t.drop_last() =~= s);
    assert(t.last() == id);
    if s.len() == 0 {
        assert(t[0] == id);
        assert(id_list_text(s) =~= Seq::empty());
        assert(Seq::<char>::empty() + Seq::<char>::empty() + "\""@ + id + "\""@ =~= "\""@ + id
            + "\""@);
    }
}

/// The published words of states and origins.
pub proof fn published_words_are_these()
    ensures
        TaskState::Active.text() == "active"@,
        TaskState::Pending.text() == "pending"@,
        TaskState::Done.text() == "done"@,
        TaskState::Aborted.text() == "aborted"@,
        TaskState::Failed.text() == "failed"@,
        TaskOrigin::Operator.text() == "operator"@,
        TaskOrigin::Dispatch.text() == "dispatch"@,
        TaskOrigin::Split.text() == "split"@,
{
}

/// The notes of a survey count its legs from one, and a summary tells where it
/// resumes only if it does not start at its beginning.
pub proof fn surveys_are_noted_by_leg_and_frames(f: RasterFlightView, start: nat, skip: nat)
    requires
        current_leg(f) >= 0,
    ensures
        survey_note(f) == "leg "@ + dec_text((current_leg(f) + 1) as nat) + "/"@ + dec_text(
            f.plan.legs.len(),
        ) + ", "@ + dec_text(f.frames) + " frames"@,
        start == 0 && skip == 0 ==> resume_part(start, skip).len() == 0,
        start > 0 || skip > 0 ==> resume_part(start, skip) == " (resume leg "@ + dec_text(start)
            + "+"@ + dec_text(skip) + ")"@,
{
}

// ---------------------------------------------------------------------------
// clocks and claims
// ---------------------------------------------------------------------------

/// Mission time passes with the clock, except while a detour holds the
/// mission: then it stands still.
pub proof fn mission_time_stands_still_while_paused(c: MissionClock, a: u64, b: u64)
    requires
        c.elapsed_ns <= c.last_ns <= a <= b,
    ensures
        c.ticked(a, false).elapsed_ns == c.elapsed_ns + (a - c.last_ns),
        c.ticked(a, true).elapsed_ns == c.elapsed_ns,
        c.ticked(a, true).ticked(b, false).elapsed_ns == c.elapsed_ns + (b - a),
        c.ticked(a, false).ticked(b, false) == c.ticked(b, false),
        c.ticked(a, true).last_ns == a && c.ticked(a, false).last_ns == a,
{
}

/// A vehicle is unclaimed exactly if no stop is on and nobody owns it.
pub proof fn unclaimed_vehicles_are_free(v: VehicleView)
    ensures
        unclaimed(v) <==> !v.abort && v.busy.len() == 0,
{
}

} // verus!
