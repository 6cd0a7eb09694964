//! How numbers, texts and values are written and read, and the limits that the
//! agent keeps.

use vstd::prelude::*;

use crate::json::{printed, printed_entries, printed_items, quoted, spelled, spelled_char, Json};
use crate::magnitude::{above_zero, decimal};
use crate::numerals::{
    before_exponent, digits, exponent, fraction, lowered, number_error, number_text,
    numeral, positive_text, unsigned, whole_part,
};
use crate::status_laws::hex_digits;
use crate::text::{
    dec_text, first_index, lemma_first_index, trimmed, trimmed_end, trimmed_start, white_space,
};

verus! {

// ---------------------------------------------------------------------------
// decimal numbers
// ---------------------------------------------------------------------------

/// A number is written in decimal digits that read back as it, without a zero
/// before others.
pub proof fn numbers_are_written_in_decimal(n: nat)
    ensures
        decimal(dec_text(n)) == n,
        dec_text(n).len() > 0,
        forall|i: int| 0 <= i < dec_text(n).len() ==> '0' <= (#[trigger] dec_text(n)[i]) <= '9',
        dec_text(n).len() > 1 ==> dec_text(n)[0] != '0',
    decreases n,
{
    if n >= 10 {
        numbers_are_written_in_decimal(n / 10);
        let t = dec_text(n);
        assert(t.drop_last() =~= dec_text(n / 10));
        assert(t.last() as int == 48 + n % 10);
        if dec_text(n / 10).len() == 1 {
            assert(decimal(dec_text(n / 10).drop_last()) == 0);
            assert(dec_text(n / 10).drop_last().len() == 0);
            assert(dec_text(n / 10).last() == dec_text(n / 10)[0]);
        }
    } else {
        let t = dec_text(n);
        assert(t.drop_last() =~= Seq::empty());
        assert(decimal(t.drop_last()) == 0);
        assert(t.last() as int == 48 + n);
    }
}

/// The value of digits: each one more is ten times what stands before it and
/// itself.
pub proof fn digits_count_by_tens(s: Seq<char>, c: char)
    requires
        '0' <= c <= '9',
    ensures
        decimal(Seq::empty()) == 0,
        decimal(s.push(c)) == 10 * decimal(s) + (c as int - '0' as int),
{
    assert(s.push(c).drop_last() =~= s);
}

/// What is a number: digits with at most one point among them and at least one
/// digit, an exponent with digits behind an `e`, a sign before either, and the
/// words for infinity and for what is no number, in either case of letters.
pub proof fn numerals_are_digits_with_point_and_exponent(
    a: Seq<char>,
    b: Seq<char>,
    e: Seq<char>,
)
    requires
        digits(a) && digits(b) && digits(e),
        a.len() > 0 || b.len() > 0,
        e.len() > 0,
    ensures
        a.len() > 0 ==> numeral(a),
        numeral(a + seq!['.'] + b),
        a.len() > 0 ==> numeral(a + seq!['e'] + e) && numeral(a + seq!['e', '-'] + e),
        a.len() > 0 ==> exponent(a + seq!['e'] + e) == decimal(e) && exponent(
            a + seq!['e', '-'] + e,
        ) == -decimal(e),
        whole_part(a + seq!['.'] + b) == a && fraction(a + seq!['.'] + b) == b,
        a.len() > 0 ==> whole_part(a) == a && fraction(a).len() == 0 && exponent(a) == 0,
{
    lemma_no_mark(a, '.');
    lemma_no_mark(a, 'e');
    lemma_no_mark(b, 'e');
    lemma_no_mark(b, '.');
    lemma_split(a, b, '.');
    lemma_first_index(a, 'e');
    lemma_first_index(a, '.');
    assert(a.take(a.len() as int) =~= a);
    let p = a + seq!['.'] + b;
    assert(!p.contains('e')) by {
        assert forall|i: int| 0 <= i < p.len() implies p[i] != 'e' by {
            if i < a.len() {
                assert(p[i] == a[i]);
            } else if i > a.len() {
                assert(p[i] == b[i - a.len() - 1]);
            }
        }
    }
    lemma_first_index(p, 'e');
    assert(p.take(p.len() as int) =~= p);
    lemma_split(a, e, 'e');
    let x = a + seq!['e'] + e;
    assert(before_exponent(x) == a);
    assert('0' <= e[0] <= '9');
    let m = seq!['-'] + e;
    lemma_split(a, m, 'e');
    assert(a + seq!['e', '-'] + e =~= a + seq!['e'] + m);
    assert(m.skip(1) =~= e);
    assert(unsigned(m) == e);
    assert(unsigned(e) == e);
}

proof fn lemma_no_mark(s: Seq<char>, c: char)
    requires
        digits(s),
        c < '0' || c > '9',
    ensures
        !s.contains(c),
{
    if s.contains(c) {
        let i = choose|i: int| 0 <= i < s.len() && s[i] == c;
        assert('0' <= s[i] <= '9');
    }
}

proof fn lemma_split(a: Seq<char>, b: Seq<char>, c: char)
    requires
        !a.contains(c),
    ensures
        first_index(a + seq![c] + b, c) == a.len(),
        (a + seq![c] + b).take(a.len() as int) == a,
        (a + seq![c] + b).skip(a.len() as int + 1) == b,
{
    let t = a + seq![c] + b;
    lemma_first_index(t, c);
    assert(t[a.len() as int] == c);
    assert(t.contains(c));
    let k = first_index(t, c);
    if k < a.len() {
        assert(a[k] == t[k]);
        assert(a.contains(c));
    }
    assert(t.take(a.len() as int) =~= a);
    assert(t.skip(a.len() as int + 1) =~= b);
}

/// A text is a number exactly if, in small letters and without its sign, it is
/// a numeral or one of three words; anything else is refused, and an empty
/// text for being empty.
pub proof fn numbers_are_numerals_or_words(s: Seq<char>)
    ensures
        ({
            let u = unsigned(lowered(s));
            let word = u == "inf"@ || u == "infinity"@ || u == "nan"@;
            &&& number_text(s) <==> word || numeral(u)
            &&& s.len() == 0 ==> number_error(s) == Some("cannot parse float from empty string"@)
            &&& s.len() > 0 ==> (number_error(s) is None <==> number_text(s))
            &&& s.len() > 0 && !number_text(s) ==> number_error(s) == Some(
                "invalid float literal"@,
            )
        }),
{
}

/// A text is a number above zero exactly if it has no minus and is infinity or
/// a numeral that does not round to zero.
pub proof fn positive_numbers_have_no_minus(s: Seq<char>)
    ensures
        ({
            let u = unsigned(lowered(s));
            positive_text(s) <==> {
                &&& s.len() == 0 || s[0] != '-'
                &&& u == "inf"@ || u == "infinity"@ || (numeral(u) && above_zero(
                    decimal(whole_part(before_exponent(u)) + fraction(before_exponent(u))),
                    exponent(u) - fraction(before_exponent(u)).len(),
                ))
            }
        }),
        s.len() > 0 && (s[0] == '-' || s[0] == '+') ==> unsigned(s) == s.skip(1),
        s.len() > 0 && s[0] != '-' && s[0] != '+' ==> unsigned(s) == s,
{
    if s.len() > 0 {
        assert(lowered(s)[0] == '-' <==> s[0] == '-');
    }
}

/// Letters are made small and everything else stays.
pub proof fn letters_are_made_small(s: Seq<char>, i: int)
    requires
        0 <= i < s.len(),
    ensures
        lowered(s).len() == s.len(),
        'A' <= s[i] <= 'Z' ==> lowered(s)[i] as int == s[i] as int + 32,
        s[i] < 'A' || s[i] > 'Z' ==> lowered(s)[i] == s[i],
{
}

// ---------------------------------------------------------------------------
// white space
// ---------------------------------------------------------------------------

proof fn lemma_trim_start(s: Seq<char>)
    ensures
        trimmed_start(s).len() <= s.len(),
        trimmed_start(s) == s.skip(s.len() - trimmed_start(s).len()),
        forall|i: int| 0 <= i < s.len() - trimmed_start(s).len() ==> white_space(#[trigger] s[i]),
        trimmed_start(s).len() > 0 ==> !white_space(trimmed_start(s)[0]),
    decreases s.len(),
{
    if s.len() > 0 && white_space(s[0]) {
        let t = s.skip(1);
        lemma_trim_start(t);
        let n = s.len() - trimmed_start(s).len();
        assert(t.skip(n - 1) =~= s.skip(n));
        assert forall|i: int| 0 <= i < n implies white_space(#[trigger] s[i]) by {
            if i > 0 {
                assert(s[i] == t[i - 1]);
            }
        }
    } else {
        assert(s.skip(0) =~= s);
    }
}

proof fn lemma_trim_end(s: Seq<char>)
    ensures
        trimmed_end(s).len() <= s.len(),
        trimmed_end(s) == s.take(trimmed_end(s).len() as int),
        forall|i: int| trimmed_end(s).len() <= i < s.len() ==> white_space(#[trigger] s[i]),
        trimmed_end(s).len() > 0 ==> !white_space(trimmed_end(s).last()),
    decreases s.len(),
{
    if s.len() > 0 && white_space(s.last()) {
        let t = s.drop_last();
        lemma_trim_end(t);
        let n = trimmed_end(s).len() as int;
        assert(t.take(n) =~= s.take(n));
        assert forall|i: int| n <= i < s.len() implies white_space(#[trigger] s[i]) by {
            if i < t.len() {
                assert(s[i] == t[i]);
            }
        }
    } else {
        assert(s.take(s.len() as int) =~= s);
    }
}

/// Trimming cuts white space off both ends, all of it and nothing else.
pub proof fn trimming_cuts_white_space_off(s: Seq<char>)
    ensures
        ({
            let t = trimmed(s);
            let a = s.len() - trimmed_start(s).len();
            &&& 0 <= a && a + t.len() <= s.len()
            &&& t == s.subrange(a, a + t.len())
            &&& forall|i: int|
                0 <= i < a || a + t.len() <= i < s.len() ==> white_space(#[trigger] s[i])
            &&& t.len() > 0 ==> !white_space(t[0]) && !white_space(t.last())
        }),
{
    let u = trimmed_start(s);
    let t = trimmed(s);
    lemma_trim_start(s);
    lemma_trim_end(u);
    let a = s.len() - u.len();
    assert(t =~= s.subrange(a, a + t.len()));
    assert forall|i: int| 0 <= i < a || a + t.len() <= i < s.len() implies white_space(
        #[trigger] s[i],
    ) by {
        if i >= a {
            assert(s[i] == u[i - a]);
        }
    }
    if t.len() > 0 {
        assert(t[0] == u[0]);
    }
}

/// The common white space is white, and letters, digits and marks are not.
pub proof fn white_space_is_what_shows_nothing(c: char)
    ensures
        white_space(' ') && white_space('\t') && white_space('\n') && white_space('\r'),
        '!' <= c <= '~' ==> !white_space(c),
{
}

// ---------------------------------------------------------------------------
// spelling
// ---------------------------------------------------------------------------

/// A text is spelled character by character in quotes: quotes and backslashes
/// behind a backslash, control characters by their letter or by their number
/// in four hex digits, and everything else as it is.
pub proof fn texts_are_spelled_with_escapes(s: Seq<char>, c: char)
    ensures
        quoted(s) == seq!['"'] + spelled(s) + seq!['"'],
        spelled(Seq::empty()).len() == 0,
        spelled(s.push(c)) == spelled(s) + spelled_char(c),
        spelled_char('"') == seq!['\\', '"'],
        spelled_char('\\') == seq!['\\', '\\'],
        spelled_char('\n') == seq!['\\', 'n'],
        spelled_char('\r') == seq!['\\', 'r'],
        spelled_char('\t') == seq!['\\', 't'],
        c >= ' ' && c != '"' && c != '\\' ==> spelled_char(c) == seq![c],
        (c as int) < 8 || 14 <= c as int <= 31 || c as int == 11 ==> spelled_char(c) == seq![
            '\\',
            'u',
            '0',
            '0',
            hex_digits()[c as int / 16],
            hex_digits()[c as int % 16],
        ],
{
    reveal_strlit("0123456789abcdef");
    assert(s.push(c).drop_last() =~= s);
}

/// A value is spelled by its kind: the three words, a number by its text, a
/// text in quotes, a list in square brackets and an object in braces, with
/// commas between and a colon behind each key.
pub proof fn values_are_spelled_by_their_kind(
    j: Json,
    s: Seq<Json>,
    e: Seq<(String, Json)>,
    n: nat,
)
    ensures
        printed(Json::Null) == "null"@,
        printed(Json::Bool(true)) == "true"@,
        printed(Json::Bool(false)) == "false"@,
        j matches Json::Number(text, _, _) ==> printed(j) == text@,
        j matches Json::Text(t) ==> printed(j) == quoted(t@),
        j matches Json::List(v) ==> printed(j) == "["@ + printed_items(v@, v@.len()) + "]"@,
        j matches Json::Object(v) ==> printed(j) == "{"@ + printed_entries(v@, v@.len()) + "}"@,
        printed_items(s, 0).len() == 0 && printed_entries(e, 0).len() == 0,
        s.len() > 0 ==> printed_items(s, 1) == printed(s[0]),
        1 < n <= s.len() ==> printed_items(s, n) == printed_items(s, (n - 1) as nat) + ","@
            + printed(s[n - 1]),
        e.len() > 0 ==> printed_entries(e, 1) == quoted(e[0].0@) + ":"@ + printed(e[0].1),
        1 < n <= e.len() ==> printed_entries(e, n) == printed_entries(e, (n - 1) as nat) + ","@ + (
        quoted(e[n - 1].0@) + ":"@ + printed(e[n - 1].1)),
{
}

// ---------------------------------------------------------------------------
// limits
// ---------------------------------------------------------------------------

/// The limits and periods that the agent keeps.
pub proof fn limits_are_the_documented_ones()
    ensures
        crate::queue_model::DEFAULT_QUEUE_DEPTH == 4,
        crate::queue_model::FINISHED_TAIL == 8,
        crate::queue_model::TURNS_FINISHED_BITS == 0x3f94_7ae1_47ae_147b,
        crate::queue_model::RTL@ == "rtl"@,
        crate::queue_model::RC_MANUAL@ == "rc-manual"@,
        crate::policy::DEFAULT_MAX_RANGE_BITS == 0x4072_c000_0000_0000,
        crate::policy::DEFAULT_MIN_AGL_BITS == 0x400c_0000_0000_0000,
        crate::policy::DEFAULT_MAX_AGL_BITS == 0x4034_0000_0000_0000,
        crate::config::FLEET_FLOOR_BITS == 0x400c_0000_0000_0000,
        crate::agent::DEFAULT_AUDIO_RANGE_BITS == 0x403e_0000_0000_0000,
        crate::agent::AIRBORNE_AGL_BITS == 0x3ff0_0000_0000_0000,
        crate::mission::MIN_SPEED_BITS == 0x3fd3_3333_3333_3333,
        crate::takeoff::ALREADY_AIRBORNE_BITS == 0x4008_0000_0000_0000,
        crate::takeoff::GROUND_TOLERANCE_BITS == 0x3ff8_0000_0000_0000,
        crate::takeoff::CLIMB_CHECK_WINDOW_NS == 12_000_000_000,
        crate::takeoff::AIRBORNE_TIMEOUT_NS == 120_000_000_000,
        crate::takeoff::CLIMB_MIN_GAIN_BITS == 0x3ff0_0000_0000_0000,
        crate::detour::RESEND_MS == 2_000,
        crate::driver::PROGRESS_PERIOD_MS == 1_000,
        crate::survey::HEARTBEAT_MS == 1_000,
        crate::rc_status::STATUS_PERIOD_MS == 250,
        crate::metrics::EPISODE_MERGE_NS == 3_000_000_000,
        crate::chains::BATCH_WINDOW_NS == 2_000_000_000,
        crate::chains::DEFAULT_SETTLE_MS == 300,
        crate::chains::DEFAULT_MAX_ROUNDS == 240,
        crate::chains::DEFAULT_QUIET_ROUNDS == 3,
        crate::chains::DEFAULT_STEP_TIMEOUT_MS == 1_000,
        crate::sensor::DEFAULT_HFOV_BITS == 0x4050_8000_0000_0000,
        crate::sensor::NARROWEST_BITS == 0x4034_0000_0000_0000,
        crate::sensor::WIDEST_BITS == 0x405e_0000_0000_0000,
        crate::sensor::FRAME_CAPACITY == 64,
        crate::sensor::DEFAULT_AUDIO_BITS == 0x4018_0000_0000_0000,
        crate::sensor::DEFAULT_WATCH_RADIUS_BITS == 0x402e_0000_0000_0000,
        crate::sensor::DEFAULT_WATCH_EXPIRY_BITS == 0x405e_0000_0000_0000,
{
}

} // verus!
