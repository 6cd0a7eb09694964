//! Where a run's Blocks come from: chain addresses, the cutting of journal
//! lines into Blocks, the shapes of source files, and the dataset of the
//! Blocks that were resolved.

use vstd::prelude::*;
use vstd::utf8::encode_utf8;

use crate::blocks::{
    all_hex, from_hex, hex_bytes, wrong_length_text, BlockRef,
};
use crate::dataset::{
    first_leaf, journal_fold, last_leaf, lines_of, merged, recording_fold, setting_at, shown,
    synthesized_upto, text_or, time_key, Gathered, MissionDataset,
};
use crate::json::{count_of, field, json_of, parse_json, text_of, Json};
use crate::names::{under, vehicle_prefix, APP_PREFIX};
use crate::sorting::sorted_by;
use crate::text::{
    cat, chars_of, dec, dec_text, first_index, lemma_first_index_unique, lemma_views_push, same,
    slice_text, trim, trimmed, views,
};

verus! {

/// What a chain holds.
#[derive(Clone, Copy, Debug, PartialEq, Eq, Structural)]
pub enum ChainRole {
    /// A vehicle agent's journal.
    VehicleJournal,
    /// A dashboard recording.
    DashboardRecording,
}

/// Lines of one window this long (ns) share a Block.
pub const BATCH_WINDOW_NS: u64 = 2_000_000_000;

/// Face settle time before following (ms), unless stated.
pub const DEFAULT_SETTLE_MS: u64 = 300;

/// Rounds to follow a chain for, unless stated.
pub const DEFAULT_MAX_ROUNDS: usize = 240;

/// Silent rounds that end a chain's catch-up, unless stated.
pub const DEFAULT_QUIET_ROUNDS: usize = 3;

/// Longest wait for the next update of a round (ms), unless stated.
pub const DEFAULT_STEP_TIMEOUT_MS: u64 = 1_000;

/// One point-to-point link, by its socket addresses.
#[derive(Debug)]
pub struct LinkSpec {
    /// Local bind address.
    pub local: String,
    /// Remote peer address.
    pub remote: String,
}

/// The reader's identity.
#[derive(Debug)]
pub struct IdentitySpec {
    /// Principal namespace.
    pub principal: String,
    /// Device name.
    pub device: String,
    /// 32-byte signing seed, hex.
    pub key_seed_hex: String,
}

/// One chain to resolve.
#[derive(Debug)]
pub struct ChainCfg {
    /// `vehicle-journal` or `dashboard-recording`.
    pub role: String,
    /// Chain root name.
    pub root: String,
    /// Writer's name.
    pub writer: String,
    /// Writer's pinned public key, hex: trust is this pin.
    pub writer_key_hex: String,
}

/// The live resolver's bootstrap.
#[derive(Debug)]
pub struct Bootstrap {
    pub identity: IdentitySpec,
    /// Links toward the fleet.
    pub links: Vec<LinkSpec>,
    /// Chains to resolve.
    pub chains: Vec<ChainCfg>,
    pub settle_ms: u64,
    pub max_rounds: usize,
    pub quiet_rounds: usize,
    pub step_timeout_ms: u64,
}

impl Bootstrap {
    /// A bootstrap with the usual timing where none is stated.
    pub fn with_defaults(
        identity: IdentitySpec,
        links: Vec<LinkSpec>,
        chains: Vec<ChainCfg>,
        settle_ms: Option<u64>,
        max_rounds: Option<usize>,
        quiet_rounds: Option<usize>,
        step_timeout_ms: Option<u64>,
    ) -> (r: Self)
        ensures
            r.identity == identity,
            r.links == links,
            r.chains == chains,
            r.settle_ms == (match settle_ms {
                Some(n) => n,
                None => DEFAULT_SETTLE_MS,
            }),
            r.max_rounds == (match max_rounds {
                Some(n) => n,
                None => DEFAULT_MAX_ROUNDS,
            }),
            r.quiet_rounds == (match quiet_rounds {
                Some(n) => n,
                None => DEFAULT_QUIET_ROUNDS,
            }),
            r.step_timeout_ms == (match step_timeout_ms {
                Some(n) => n,
                None => DEFAULT_STEP_TIMEOUT_MS,
            }),
            settle_ms is None ==> r.settle_ms == 300,
            max_rounds is None ==> r.max_rounds == 240,
            quiet_rounds is None ==> r.quiet_rounds == 3,
            step_timeout_ms is None ==> r.step_timeout_ms == 1_000,
    {
        Bootstrap {
            identity,
            links,
            chains,
            settle_ms: match settle_ms {
                Some(n) => n,
                None => DEFAULT_SETTLE_MS,
            },
            max_rounds: match max_rounds {
                Some(n) => n,
                None => DEFAULT_MAX_ROUNDS,
            },
            quiet_rounds: match quiet_rounds {
                Some(n) => n,
                None => DEFAULT_QUIET_ROUNDS,
            },
            step_timeout_ms: match step_timeout_ms {
                Some(n) => n,
                None => DEFAULT_STEP_TIMEOUT_MS,
            },
        }
    }
}

/// The address of a chain and the key its writer signs with.
#[derive(Debug)]
pub struct ChainAddress {
    pub root: String,
    pub writer: String,
    pub writer_key: [u8; 32],
}

/// The role that a configuration names.
pub open spec fn role_of(s: Seq<char>) -> Option<ChainRole> {
    if s == "vehicle-journal"@ {
        Some(ChainRole::VehicleJournal)
    } else if s == "dashboard-recording"@ {
        Some(ChainRole::DashboardRecording)
    } else {
        None
    }
}

/// Why hex digits are not 32 bytes.
pub open spec fn key_refusal(s: Seq<char>) -> Option<Seq<char>> {
    let digits = encode_utf8(trimmed(s));
    if digits.len() != 64 {
        Some(wrong_length_text(64, digits.len()))
    } else if !all_hex(digits) {
        Some("bad hex digit"@)
    } else {
        None
    }
}

/// What is said of a role that no chain has.
pub open spec fn unknown_role(role: Seq<char>) -> Seq<char> {
    "chain role '"@ + role + "': expected vehicle-journal|dashboard-recording"@
}

/// The role and address of a configured chain.
pub fn chain_spec(cfg: &ChainCfg) -> (r: Result<(ChainRole, ChainAddress), String>)
    ensures
        match r {
            Ok(c) => role_of(cfg.role@) == Some(c.0) && key_refusal(cfg.writer_key_hex@) is None
                && c.1.root@ == cfg.root@ && c.1.writer@ == cfg.writer@ && c.1.writer_key@
                == hex_bytes(encode_utf8(trimmed(cfg.writer_key_hex@))),
            Err(e) => if role_of(cfg.role@) is None {
                e@ == unknown_role(cfg.role@)
            } else {
                key_refusal(cfg.writer_key_hex@) is Some && e@ == "chain "@ + cfg.root@
                    + ": writer_key_hex: "@ + key_refusal(cfg.writer_key_hex@)->0
            },
        },
{
    let role = if same(cfg.role.as_str(), "vehicle-journal") {
        ChainRole::VehicleJournal
    } else if same(cfg.role.as_str(), "dashboard-recording") {
        ChainRole::DashboardRecording
    } else {
        let mut e = cat("chain role '", cfg.role.as_str());
        e.append("': expected vehicle-journal|dashboard-recording");
        return Err(e);
    };
    match from_hex::<32>(cfg.writer_key_hex.as_str()) {
        Ok(writer_key) => Ok(
            (role, ChainAddress { root: cfg.root.clone(), writer: cfg.writer.clone(), writer_key }),
        ),
        Err(why) => {
            let mut e = cat("chain ", cfg.root.as_str());
            e.append(": writer_key_hex: ");
            e.append(why.as_str());
            Err(e)
        },
    }
}

/// The reader's signing seed.
pub fn identity_seed(identity: &IdentitySpec) -> (r: Result<[u8; 32], String>)
    ensures
        match r {
            Ok(seed) => key_refusal(identity.key_seed_hex@) is None && seed@ == hex_bytes(
                encode_utf8(trimmed(identity.key_seed_hex@)),
            ),
            Err(e) => key_refusal(identity.key_seed_hex@) is Some && e@
                == "identity.key_seed_hex: "@ + key_refusal(identity.key_seed_hex@)->0,
        },
{
    match from_hex::<32>(identity.key_seed_hex.as_str()) {
        Ok(seed) => Ok(seed),
        Err(why) => Err(cat("identity.key_seed_hex: ", why.as_str())),
    }
}

/// The text that a chain's offline writer key is derived from: the same for
/// every reading of the same journals.
pub open spec fn offline_text(principal: Seq<char>, device: Seq<char>) -> Seq<char> {
    "muas-artifacts/offline-writer:"@ + principal + "/"@ + device
}

/// The text whose hash is a chain's offline writer seed.
pub fn offline_seed(principal: &str, device: &str) -> (r: String)
    ensures
        r@ == offline_text(principal@, device@),
{
    let mut s = cat("muas-artifacts/offline-writer:", principal);
    s.append("/");
    s.append(device);
    s
}

/// A line with its time, by its characters.
pub type TimedLine = (u64, Seq<char>);

/// Timed lines by their characters.
pub open spec fn timed_views(v: Seq<(u64, String)>) -> Seq<TimedLine> {
    v.map_values(|l: (u64, String)| (l.0, l.1@))
}

/// The window of a time.
pub open spec fn window_of(t_ns: u64) -> int {
    (t_ns / BATCH_WINDOW_NS) as int
}

/// The batches cut from the first `n` lines, and the one still open.
pub open spec fn batches_upto(s: Seq<TimedLine>, n: nat) -> (Seq<Seq<char>>, Seq<char>)
    decreases n,
{
    if n == 0 || n > s.len() {
        (Seq::empty(), Seq::empty())
    } else {
        let before = batches_upto(s, (n - 1) as nat);
        let line = s[n - 1].1 + "\n"@;
        if n > 1 && window_of(s[n - 2].0) != window_of(s[n - 1].0) {
            (before.0.push(before.1), line)
        } else {
            (before.0, before.1 + line)
        }
    }
}

/// The payloads that lines are published as: one for each run of lines of one
/// window.
pub open spec fn batches_of(s: Seq<TimedLine>) -> Seq<Seq<char>> {
    let b = batches_upto(s, s.len());
    if s.len() == 0 {
        Seq::empty()
    } else {
        b.0.push(b.1)
    }
}

/// Cut timed lines into the payloads of their Blocks.
pub fn cut_batches(lines: &Vec<(u64, String)>) -> (r: Vec<String>)
    ensures
        views(r@) == batches_of(timed_views(lines@)),
{
    let ghost s = timed_views(lines@);
    let mut out: Vec<String> = Vec::new();
    let mut batch = String::new();
    let mut window: u64 = 0;
    let mut i: usize = 0;
    assert(views(out@) =~= batches_upto(s, 0).0);
    assert(batch@ =~= batches_upto(s, 0).1);
    while i < lines.len()
        invariant
            i <= lines@.len(),
            s == timed_views(lines@),
            views(out@) == batches_upto(s, i as nat).0,
            batch@ == batches_upto(s, i as nat).1,
            i > 0 ==> window == window_of(s[i - 1].0),
        decreases lines@.len() - i,
    {
        assert(s[i as int] == (lines@[i as int].0, lines@[i as int].1@));
        let w: u64 = lines[i].0 / BATCH_WINDOW_NS;
        let ghost before = out@;
        let ghost full = batch@;
        if i > 0 && w != window {
            out.push(batch);
            batch = String::new();
            proof {
                assert(views(out@) =~= views(before).push(full));
            }
        }
        window = w;
        let ghost head = batch@;
        batch.append(lines[i].1.as_str());
        batch.append("\n");
        proof {
            let line = lines@[i as int].1@ + "\n"@;
            assert(batch@ =~= head + line);
            if head.len() == 0 {
                assert(head + line =~= line);
            }
        }
        i = i + 1;
    }
    if lines.len() > 0 {
        let ghost before = out@;
        let ghost full = batch@;
        out.push(batch);
        assert(views(out@) =~= views(before).push(full));
    }
    out
}

/// The first `n` lines, each with its line feed.
pub open spec fn joined_lines(s: Seq<TimedLine>, n: nat) -> Seq<char>
    decreases n,
{
    if n == 0 || n > s.len() {
        Seq::empty()
    } else {
        joined_lines(s, (n - 1) as nat) + (s[n - 1].1 + "\n"@)
    }
}

/// Payloads one behind the other.
pub open spec fn flat_text(s: Seq<Seq<char>>) -> Seq<char>
    decreases s.len(),
{
    if s.len() == 0 {
        Seq::empty()
    } else {
        flat_text(s.drop_last()) + s.last()
    }
}

/// Cutting lines into Blocks neither loses a line nor changes one: the
/// payloads together are the lines in their order.
pub proof fn batches_keep_every_line(s: Seq<TimedLine>)
    ensures
        flat_text(batches_of(s)) == joined_lines(s, s.len()),
{
    lemma_batches_flat(s, s.len());
    let b = batches_upto(s, s.len());
    if s.len() > 0 {
        assert(b.0.push(b.1).drop_last() =~= b.0);
    }
}

proof fn lemma_batches_flat(s: Seq<TimedLine>, n: nat)
    requires
        n <= s.len(),
    ensures
        flat_text(batches_upto(s, n).0) + batches_upto(s, n).1 == joined_lines(s, n),
    decreases n,
{
    if n == 0 {
        assert(flat_text(batches_upto(s, 0).0) + batches_upto(s, 0).1 =~= Seq::empty());
    } else {
        lemma_batches_flat(s, (n - 1) as nat);
        let before = batches_upto(s, (n - 1) as nat);
        let line = s[n - 1].1 + "\n"@;
        if n > 1 && window_of(s[n - 2].0) != window_of(s[n - 1].0) {
            assert(before.0.push(before.1).drop_last() =~= before.0);
        } else {
            assert(flat_text(before.0) + (before.1 + line) =~= flat_text(before.0) + before.1
                + line);
        }
    }
}

/// A line without the carriage return at its end.
pub open spec fn without_return(s: Seq<char>) -> Seq<char> {
    if s.len() > 0 && s.last() == '\r' {
        s.drop_last()
    } else {
        s
    }
}

/// The lines of a text. A carriage return before a line feed belongs to the
/// line's end, and the last line feed is optional.
pub open spec fn text_lines(s: Seq<char>) -> Seq<Seq<char>>
    decreases s.len(),
{
    let k = first_index(s, '\n');
    if 0 <= k < s.len() {
        seq![without_return(s.take(k))] + text_lines(s.skip(k + 1))
    } else if s.len() == 0 {
        Seq::empty()
    } else {
        seq![s]
    }
}

fn split_text_lines(s: &str) -> (r: Vec<String>)
    ensures
        views(r@) == text_lines(s@),
{
    let chars = chars_of(s);
    let mut out: Vec<String> = Vec::new();
    let mut start: usize = 0;
    let mut i: usize = 0;
    assert(chars@.skip(0) =~= chars@);
    assert(views(out@) + text_lines(chars@) =~= text_lines(s@));
    while i < chars.len()
        invariant
            start <= i <= chars@.len(),
            chars@ == s@,
            forall|j: int| start <= j < i ==> chars@[j] != '\n',
            views(out@) + text_lines(chars@.skip(start as int)) == text_lines(s@),
        decreases chars@.len() - i,
    {
        if chars[i] == '\n' {
            let ghost rest = chars@.skip(start as int);
            let ghost before = views(out@);
            let end: usize = if start < i && chars[i - 1] == '\r' {
                i - 1
            } else {
                i
            };
            let line = slice_text(&chars, start, end);
            proof {
                lemma_first_index_unique(rest, '\n', i - start);
                assert(rest.skip(i - start + 1) =~= chars@.skip(i + 1));
                let whole = rest.take(i - start);
                if start < i {
                    assert(whole.last() == chars@[i - 1]);
                }
                assert(line@ =~= without_return(whole));
                lemma_views_push(out@, line);
            }
            out.push(line);
            proof {
                let tail = text_lines(chars@.skip(i + 1));
                assert(before + (seq![line@] + tail) =~= views(out@) + tail);
            }
            start = i + 1;
        }
        i = i + 1;
    }
    let ghost rest = chars@.skip(start as int);
    proof {
        lemma_first_index_unique(rest, '\n', rest.len() as int);
    }
    if start < i {
        let line = slice_text(&chars, start, i);
        proof {
            lemma_views_push(out@, line);
            assert(line@ =~= rest);
            assert(views(out@) + seq![rest] =~= views(out@.push(line)));
        }
        out.push(line);
    } else {
        assert(views(out@) + Seq::<Seq<char>>::empty() =~= views(out@));
    }
    out
}

/// What a line of a source file is: its time, and what it tells of the file.
pub struct Sniffed {
    pub t_ns: u64,
    pub role: ChainRole,
    /// Vehicle of a journal line.
    pub vehicle: Option<Seq<char>>,
}

/// What a JSON line of a source file is, if it is one.
pub open spec fn sniff_value(v: Json) -> Option<Sniffed> {
    if field(v, "ts_ns"@) is Some && field(v, "kind"@) is Some {
        Some(
            Sniffed {
                t_ns: match count_of(field(v, "ts_ns"@)) {
                    Some(t) => t,
                    None => 0,
                },
                role: ChainRole::VehicleJournal,
                vehicle: text_of(field(v, "vehicle_id"@)),
            },
        )
    } else if field(v, "t_ns"@) is Some && field(v, "event"@) is Some {
        Some(
            Sniffed {
                t_ns: match count_of(field(v, "t_ns"@)) {
                    Some(t) => t,
                    None => 0,
                },
                role: ChainRole::DashboardRecording,
                vehicle: None,
            },
        )
    } else {
        None
    }
}

/// What a line of a source file is, if it is one.
pub open spec fn sniff_line(line: Seq<char>) -> Option<Sniffed> {
    if trimmed(line).len() == 0 {
        None
    } else {
        match json_of(encode_utf8(line)) {
            Some(v) => sniff_value(v),
            None => None,
        }
    }
}

/// What the lines of a source file add up to.
#[verifier::ext_equal]
pub struct SniffedFile {
    /// The role of its first line.
    pub role: Option<ChainRole>,
    /// The first vehicle that a journal line names.
    pub vehicle: Option<Seq<char>>,
    pub lines: Seq<TimedLine>,
}

/// What the first `n` lines of a source file add up to.
pub open spec fn sniff_upto(lines: Seq<Seq<char>>, n: nat) -> SniffedFile
    decreases n,
{
    if n == 0 || n > lines.len() {
        SniffedFile { role: None, vehicle: None, lines: Seq::empty() }
    } else {
        let before = sniff_upto(lines, (n - 1) as nat);
        match sniff_line(lines[n - 1]) {
            Some(l) => SniffedFile {
                role: if before.role is Some {
                    before.role
                } else {
                    Some(l.role)
                },
                vehicle: if before.vehicle is Some {
                    before.vehicle
                } else {
                    l.vehicle
                },
                lines: before.lines.push((l.t_ns, lines[n - 1])),
            },
            None => before,
        }
    }
}

/// Whether a character may stand in a device name.
pub open spec fn plain_char(c: char) -> bool {
    ('0' <= c && c <= '9') || ('A' <= c && c <= 'Z') || ('a' <= c && c <= 'z') || c == '-'
}

/// A file stem with hyphens for what a device name may not hold.
pub open spec fn plain_stem(s: Seq<char>) -> Seq<char> {
    s.map_values(
        |c: char|
            if plain_char(c) {
                c
            } else {
                '-'
            },
    )
}

fn sanitize(s: &str) -> (r: String)
    ensures
        r@ == plain_stem(s@),
{
    let chars = chars_of(s);
    let mut out = String::new();
    let mut i: usize = 0;
    while i < chars.len()
        invariant
            i <= chars@.len(),
            chars@ == s@,
            out@ == plain_stem(s@).take(i as int),
        decreases chars@.len() - i,
    {
        let c: char = chars[i];
        let d: char = if ('0' <= c && c <= '9') || ('A' <= c && c <= 'Z') || ('a' <= c && c <= 'z')
            || c == '-' {
            c
        } else {
            '-'
        };
        out.push(d);
        assert(out@ =~= plain_stem(s@).take(i + 1));
        i = i + 1;
    }
    assert(out@ =~= plain_stem(s@));
    out
}

/// A source file as it is published: whose chain, and its lines.
#[derive(Debug)]
pub struct SourceFile {
    pub role: ChainRole,
    pub principal: String,
    pub device: String,
    pub app: String,
    pub lines: Vec<(u64, String)>,
}

/// A source file by its values.
#[verifier::ext_equal]
pub struct SourceView {
    pub role: ChainRole,
    pub principal: Seq<char>,
    pub device: Seq<char>,
    pub app: Seq<char>,
    pub lines: Seq<TimedLine>,
}

impl View for SourceFile {
    type V = SourceView;

    open spec fn view(&self) -> SourceView {
        SourceView {
            role: self.role,
            principal: self.principal@,
            device: self.device@,
            app: self.app@,
            lines: timed_views(self.lines@),
        }
    }
}

/// The chain of a source file: a journal goes to its vehicle's, a recording to
/// the ground station's. `stem` names the file.
pub open spec fn source_of(text: Seq<char>, stem: Option<Seq<char>>) -> Option<SourceView> {
    let lines = text_lines(text);
    let f = sniff_upto(lines, lines.len());
    let name = plain_stem(text_or(stem, "source"@));
    match f.role {
        Some(ChainRole::VehicleJournal) => Some(
            SourceView {
                role: ChainRole::VehicleJournal,
                principal: under(APP_PREFIX@, text_or(f.vehicle, name)),
                device: "companion"@,
                app: "journal"@,
                lines: f.lines,
            },
        ),
        Some(ChainRole::DashboardRecording) => Some(
            SourceView {
                role: ChainRole::DashboardRecording,
                principal: "/muas/v3/gcs"@,
                device: name,
                app: "recording"@,
                lines: f.lines,
            },
        ),
        None => None,
    }
}

/// What one line tells of its file.
struct LineFacts {
    t_ns: u64,
    role: ChainRole,
    vehicle: Option<String>,
}

fn read_source_line(line: &str) -> (r: Option<LineFacts>)
    ensures
        match r {
            Some(l) => sniff_line(line@) == Some(
                Sniffed { t_ns: l.t_ns, role: l.role, vehicle: shown(l.vehicle) },
            ),
            None => sniff_line(line@) is None,
        },
{
    if trim(line).unicode_len() == 0 {
        return None;
    }
    let v = match parse_json(line.as_bytes()) {
        Some(v) => v,
        None => {
            return None;
        },
    };
    if v.get("ts_ns").is_some() && v.get("kind").is_some() {
        let t_ns: u64 = match v.count_field("ts_ns") {
            Some(t) => t,
            None => 0,
        };
        Some(
            LineFacts {
                t_ns,
                role: ChainRole::VehicleJournal,
                vehicle: v.text_field("vehicle_id"),
            },
        )
    } else if v.get("t_ns").is_some() && v.get("event").is_some() {
        let t_ns: u64 = match v.count_field("t_ns") {
            Some(t) => t,
            None => 0,
        };
        Some(LineFacts { t_ns, role: ChainRole::DashboardRecording, vehicle: None })
    } else {
        None
    }
}

/// Tell a source file by its shape. Lines that are neither journal events nor
/// recorded events are left out; a file without any is none.
pub fn sniff_source(text: &str, stem: Option<&str>) -> (r: Option<SourceFile>)
    ensures
        match r {
            Some(f) => source_of(
                text@,
                match stem {
                    Some(s) => Some(s@),
                    None => None,
                },
            ) == Some(f@),
            None => source_of(
                text@,
                match stem {
                    Some(s) => Some(s@),
                    None => None,
                },
            ) is None,
        },
{
    let all = split_text_lines(text);
    let ghost lv = views(all@);
    let mut role: Option<ChainRole> = None;
    let mut vehicle: Option<String> = None;
    let mut lines: Vec<(u64, String)> = Vec::new();
    let mut i: usize = 0;
    assert(timed_views(lines@) =~= sniff_upto(lv, 0).lines);
    while i < all.len()
        invariant
            i <= all@.len(),
            lv == views(all@),
            role == sniff_upto(lv, i as nat).role,
            shown(vehicle) == sniff_upto(lv, i as nat).vehicle,
            timed_views(lines@) == sniff_upto(lv, i as nat).lines,
        decreases all@.len() - i,
    {
        assert(lv[i as int] == all@[i as int]@);
        match read_source_line(all[i].as_str()) {
            Some(l) => {
                if role.is_none() {
                    role = Some(l.role);
                }
                if vehicle.is_none() {
                    vehicle = l.vehicle;
                }
                let ghost before = lines@;
                lines.push((l.t_ns, all[i].clone()));
                assert(timed_views(lines@) =~= timed_views(before).push(
                    (l.t_ns, all@[i as int]@),
                ));
            },
            None => {},
        }
        i = i + 1;
    }
    assert(lv.len() == all@.len());
    let name = match stem {
        Some(s) => sanitize(s),
        None => sanitize("source"),
    };
    match role {
        Some(ChainRole::VehicleJournal) => {
            let vid = match vehicle {
                Some(v) => v,
                None => name,
            };
            Some(
                SourceFile {
                    role: ChainRole::VehicleJournal,
                    principal: vehicle_prefix(vid.as_str()),
                    device: "companion".to_owned(),
                    app: "journal".to_owned(),
                    lines,
                },
            )
        },
        Some(ChainRole::DashboardRecording) => Some(
            SourceFile {
                role: ChainRole::DashboardRecording,
                principal: "/muas/v3/gcs".to_owned(),
                device: name,
                app: "recording".to_owned(),
                lines,
            },
        ),
        None => None,
    }
}

/// How far the catch-up of a chain has come.
#[derive(Clone, Copy, Debug, PartialEq, Eq, Structural)]
pub struct Drain {
    /// Replication events so far.
    pub fetched: usize,
    /// Silent rounds in a row.
    pub silent: usize,
    /// Rounds so far.
    pub rounds: usize,
}

/// What a round of following brought.
#[derive(Clone, Copy, Debug, PartialEq, Eq, Structural)]
pub enum Round {
    /// An update with this many events.
    Update(usize),
    /// Nothing in the time waited.
    Silence,
}

impl Drain {
    /// The state before the first round.
    pub fn new() -> (r: Self)
        ensures
            r == (Drain { fetched: 0, silent: 0, rounds: 0 }),
    {
        Drain { fetched: 0, silent: 0, rounds: 0 }
    }

    /// The state after a round.
    pub open spec fn after(self, round: Round) -> Drain {
        match round {
            Round::Update(n) => Drain {
                fetched: (self.fetched + n) as usize,
                silent: 0,
                rounds: (self.rounds + 1) as usize,
            },
            Round::Silence => Drain {
                fetched: self.fetched,
                silent: (self.silent + 1) as usize,
                rounds: (self.rounds + 1) as usize,
            },
        }
    }

    /// Whether the chain counts as caught up: enough silence after something
    /// came, or no rounds left.
    pub open spec fn done(self, max_rounds: usize, quiet: usize) -> bool {
        self.rounds >= max_rounds || (self.silent > 0 && self.silent >= quiet && self.fetched > 0)
    }

    /// Whether to go on following.
    pub fn goes_on(&self, max_rounds: usize, quiet: usize) -> (r: bool)
        ensures
            r == !self.done(max_rounds, quiet),
    {
        !(self.rounds >= max_rounds || (self.silent > 0 && self.silent >= quiet && self.fetched
            > 0))
    }

    /// Take in a round.
    pub fn step(&mut self, round: Round, max_rounds: usize)
        requires
            old(self).rounds < max_rounds,
            old(self).silent <= old(self).rounds,
            match round {
                Round::Update(n) => old(self).fetched + n <= usize::MAX,
                Round::Silence => true,
            },
        ensures
            *final(self) == old(self).after(round),
            final(self).silent <= final(self).rounds,
            final(self).rounds <= max_rounds,
    {
        match round {
            Round::Update(n) => {
                self.fetched = self.fetched + n;
                self.silent = 0;
            },
            Round::Silence => {
                self.silent = self.silent + 1;
            },
        }
        self.rounds = self.rounds + 1;
    }
}

/// A Block of a chain as it was resolved.
#[derive(Debug)]
pub struct ResolvedBlock {
    pub role: ChainRole,
    pub block: BlockRef,
    pub payload: Option<Vec<u8>>,
}

/// The dataset that the first `n` Blocks gather to, before it is finished.
pub open spec fn gathered_upto(s: Seq<ResolvedBlock>, n: nat) -> Gathered
    decreases n,
{
    if n == 0 || n > s.len() {
        Gathered { run_id: None, data: Seq::empty(), records: Seq::empty() }
    } else {
        let before = gathered_upto(s, (n - 1) as nat);
        match s[n - 1].payload {
            Some(p) => {
                let lines = lines_of(p@);
                match s[n - 1].role {
                    ChainRole::VehicleJournal => journal_fold(before, n - 1, lines, lines.len()),
                    ChainRole::DashboardRecording => Gathered {
                        run_id: before.run_id,
                        data: recording_fold(before.data, n - 1, lines, lines.len()),
                        records: before.records,
                    },
                }
            },
            None => before,
        }
    }
}

/// What is said of a Block without a payload.
pub open spec fn no_payload(b: ResolvedBlock) -> Seq<char> {
    "block "@ + b.block.chain@ + " seq "@ + dec_text(b.block.seq as nat) + " has no payload"@
}

/// The references of Blocks.
pub open spec fn refs_of(s: Seq<ResolvedBlock>) -> Seq<BlockRef> {
    s.map_values(|b: ResolvedBlock| b.block)
}

/// Whether a dataset is what Blocks gather to, finished.
pub open spec fn finishes(ds: MissionDataset, refs: Seq<BlockRef>, g: Gathered) -> bool {
    &&& ds.valid()
    &&& ds.blocks@ == refs
    &&& shown(ds.run.run_id) == g.run_id
    &&& ds.records() == g.records
    &&& ds.data() == sorted_by(g.data, time_key())
    &&& g.records.len() == 0 ==> ds.run.synthesized && forall|k: Seq<char>| #[trigger]
        setting_at(ds.run.settings, k) == first_leaf(
            synthesized_upto(ds.data(), ds.data().len()),
            k,
        )
    &&& g.records.len() > 0 ==> !ds.run.synthesized && forall|k: Seq<char>| #[trigger]
        setting_at(ds.run.settings, k) == last_leaf(
            merged(g.records),
            k,
        )
}

/// The dataset of resolved Blocks, in the order they were resolved in. A Block
/// without a payload is refused.
pub fn build_dataset(blocks: Vec<ResolvedBlock>) -> (r: Result<MissionDataset, String>)
    ensures
        match r {
            Ok(ds) => (forall|i: int|
                0 <= i < blocks@.len() ==> (#[trigger] blocks@[i]).payload is Some) && finishes(
                ds,
                refs_of(blocks@),
                gathered_upto(blocks@, blocks@.len()),
            ),
            Err(e) => exists|i: int|
                0 <= i < blocks@.len() && (#[trigger] blocks@[i]).payload is None && e@
                    == no_payload(blocks@[i]) && forall|j: int|
                    0 <= j < i ==> (#[trigger] blocks@[j]).payload is Some,
        },
{
    let mut ds = MissionDataset::new();
    let mut i: usize = 0;
    proof {
        assert(refs_of(blocks@).take(0) =~= Seq::empty());
        assert(ds.blocks@ =~= Seq::empty());
        assert forall|k: Seq<char>| setting_at(ds.run.settings, k) is None by {
            assert(!ds.run.settings.has(k));
        }
    }
    let ghost refs = refs_of(blocks@);
    let ghost empty = ds.run.settings;
    while i < blocks.len()
        invariant
            i <= blocks@.len(),
            refs == refs_of(blocks@),
            ds.valid(),
            ds.blocks@ == refs.take(i as int),
            ds.gathered() == gathered_upto(blocks@, i as nat),
            ds.run.settings == empty,
            !ds.run.synthesized,
            forall|j: int| 0 <= j < i ==> (#[trigger] blocks@[j]).payload is Some,
        decreases blocks@.len() - i,
    {
        let b = &blocks[i];
        match &b.payload {
            Some(p) => {
                let block = b.block.clone();
                match b.role {
                    ChainRole::VehicleJournal => ds.add_journal_block(block, p.as_slice()),
                    ChainRole::DashboardRecording => ds.add_recording_block(block, p.as_slice()),
                }
                assert(refs.take(i as int).push(b.block) =~= refs.take(i + 1));
                assert(ds.gathered() =~= gathered_upto(blocks@, (i + 1) as nat));
            },
            None => {
                let mut e = cat("block ", b.block.chain.as_str());
                e.append(" seq ");
                e.append(dec(b.block.seq).as_str());
                e.append(" has no payload");
                assert(e@ == no_payload(blocks@[i as int]));
                return Err(e);
            },
        }
        i = i + 1;
    }
    assert(refs.take(i as int) =~= refs);
    let ghost g = ds.gathered();
    let ghost before = ds;
    ds.finish();
    proof {
        assert(g.records == before.records());
        if g.records.len() == 0 {
            assert forall|k: Seq<char>| #[trigger]
                setting_at(ds.run.settings, k) == first_leaf(
                    synthesized_upto(ds.data(), ds.data().len()),
                    k,
                ) by {
                assert(setting_at(empty, k) is None);
            }
        } else {
            assert forall|k: Seq<char>| #[trigger]
                setting_at(ds.run.settings, k) == last_leaf(
                    merged(g.records),
                    k,
                ) by {
                assert(setting_at(empty, k) is None);
            }
        }
    }
    Ok(ds)
}

} // verus!
