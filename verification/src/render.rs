//! What the artifacts share: escaping, clocks, provenance drawers, the
//! configuration panel and the page around it all.

use vstd::prelude::*;

use crate::blocks::{citation_views, Citation, CitationView};
use crate::dataset::{label_of, setting_at, shown, MissionDataset, RunConfig, Setting};
use crate::metrics::{columns_of, measures, metrics_of, ColumnView, Measured};
use crate::render::deck::Chart;
use crate::render::report::first_time;
use crate::text::{cat, chars_of, dec, dec_text, join, joined, same, views};
use crate::text_map::TextMap;

pub mod compare;
pub mod deck;
pub mod demo;
pub mod registry;
pub mod report;

verus! {

/// One rendered artifact: its HTML and the citations it was derived from.
#[derive(Debug)]
pub struct RenderedArtifact {
    /// Self-contained HTML.
    pub html: String,
    /// Every Block the artifact was derived from.
    pub citations: Vec<Citation>,
}

/// A run with everything that is measured and printed of it.
#[derive(Debug)]
pub struct Run {
    pub dataset: MissionDataset,
    pub measured: Measured,
    /// Coordinates of the chart of avoidance bias.
    pub chart: Chart,
    /// Each datum's seconds since the start, as JSON spells them.
    pub times: Vec<String>,
    /// Seconds from the first to the last datum, as JSON spells them.
    pub duration: String,
}

impl Run {
    /// The dataset is valid, the figures are those of its metrics, every datum's
    /// time is measured, and there is time after the start.
    pub open spec fn valid(self) -> bool {
        &&& self.dataset.valid()
        &&& measures(self.measured@, metrics_of(self.dataset.data()))
        &&& self.times@.len() == self.dataset.data@.len()
        &&& first_time(self.dataset.data()) < u64::MAX
    }

    /// The label of the run.
    pub open spec fn label(self) -> Seq<char> {
        label_of(shown(self.dataset.run.run_id), self.dataset.blocks@)
    }

    /// How the run shows a setting.
    pub open spec fn setting(self, key: Seq<char>) -> Option<Seq<char>> {
        shown_setting(self.dataset.run.settings, key)
    }

    /// The outcome columns of the run.
    pub open spec fn columns(self) -> Seq<ColumnView> {
        columns_of(metrics_of(self.dataset.data()), self.measured@)
    }
}

/// The runs that the lenses read: single-run artifacts the first, the
/// comparison all of them.
#[derive(Debug)]
pub struct RunSet {
    /// The runs, in the order given.
    pub runs: Vec<Run>,
}

/// How HTML writes a character.
pub open spec fn escaped_char(c: char) -> Seq<char> {
    if c == '&' {
        "&amp;"@
    } else if c == '<' {
        "&lt;"@
    } else if c == '>' {
        "&gt;"@
    } else if c == '"' {
        "&quot;"@
    } else {
        seq![c]
    }
}

/// How HTML writes a text.
pub open spec fn escaped(s: Seq<char>) -> Seq<char>
    decreases s.len(),
{
    if s.len() == 0 {
        Seq::empty()
    } else {
        escaped(s.drop_last()) + escaped_char(s.last())
    }
}

/// Escape a text for HTML.
pub fn esc(s: &str) -> (r: String)
    ensures
        r@ == escaped(s@),
{
    let chars = chars_of(s);
    let mut out = String::new();
    let mut i: usize = 0;
    while i < chars.len()
        invariant
            i <= chars@.len(),
            chars@ == s@,
            out@ == escaped(s@.take(i as int)),
        decreases chars@.len() - i,
    {
        let c: char = chars[i];
        proof {
            assert(s@.take(i + 1).drop_last() =~= s@.take(i as int));
            assert(s@.take(i + 1).last() == c);
        }
        if c == '&' {
            out.append("&amp;");
        } else if c == '<' {
            out.append("&lt;");
        } else if c == '>' {
            out.append("&gt;");
        } else if c == '"' {
            out.append("&quot;");
        } else {
            let ghost before = out@;
            out.push(c);
            assert(out@ =~= before + seq![c]);
        }
        i = i + 1;
    }
    assert(s@.take(i as int) =~= s@);
    out
}

/// An escaped text opens and closes no tag and ends no quoted attribute.
pub proof fn escaped_texts_are_inert(s: Seq<char>)
    ensures
        !escaped(s).contains('<'),
        !escaped(s).contains('>'),
        !escaped(s).contains('"'),
    decreases s.len(),
{
    if s.len() > 0 {
        escaped_texts_are_inert(s.drop_last());
        reveal_strlit("&amp;");
        reveal_strlit("&lt;");
        reveal_strlit("&gt;");
        reveal_strlit("&quot;");
        let a = escaped(s.drop_last());
        let b = escaped_char(s.last());
        assert forall|i: int| 0 <= i < (a + b).len() implies (a + b)[i] != '<' && (a + b)[i] != '>'
            && (a + b)[i] != '"' by {
            if i < a.len() {
                assert(a.contains(a[i]));
                assert((a + b)[i] == a[i]);
            } else {
                assert((a + b)[i] == b[i - a.len()]);
            }
        }
    }
}

/// A number with two digits at least.
pub open spec fn two_digits(n: nat) -> Seq<char> {
    if n < 10 {
        "0"@ + dec_text(n)
    } else {
        dec_text(n)
    }
}

fn pad_two(n: u64) -> (r: String)
    ensures
        r@ == two_digits(n as nat),
{
    if n < 10 {
        cat("0", dec(n).as_str())
    } else {
        dec(n)
    }
}

/// Seconds from the run's start to a time.
pub open spec fn seconds_since(t_ns: u64, t0_ns: u64) -> nat {
    if t_ns >= t0_ns {
        ((t_ns - t0_ns) / 1_000_000_000) as nat
    } else {
        0
    }
}

/// A time as `mm:ss` from the run's start.
pub open spec fn clock_text(t_ns: u64, t0_ns: u64) -> Seq<char> {
    let s = seconds_since(t_ns, t0_ns);
    two_digits(s / 60) + ":"@ + two_digits(s % 60)
}

/// `mm:ss` from the run's start.
pub fn t_rel(t_ns: u64, t0_ns: u64) -> (r: String)
    ensures
        r@ == clock_text(t_ns, t0_ns),
{
    let s: u64 = if t_ns >= t0_ns {
        (t_ns - t0_ns) / 1_000_000_000
    } else {
        0
    };
    let mut out = pad_two(s / 60);
    out.append(":");
    out.append(pad_two(s % 60).as_str());
    out
}

/// The beginning of a hash, enough to tell it by eye.
pub open spec fn short_of(hash: Seq<char>) -> Seq<char> {
    if hash.len() > 10 {
        hash.take(10)
    } else {
        hash
    }
}

/// First ten hex digits of a citation's hash.
pub fn hash_short(c: &Citation) -> (r: String)
    ensures
        r@ == short_of(c@.hash),
{
    if c.hash.as_str().unicode_len() > 10 {
        let t = c.hash.as_str().substring_char(0, 10);
        assert(c@.hash.take(10) =~= c@.hash.subrange(0, 10));
        t.to_owned()
    } else {
        c.hash.clone()
    }
}

/// A row of a provenance table.
pub open spec fn cite_row_html(
    hash: Seq<char>,
    short: Seq<char>,
    chain: Seq<char>,
    seq: nat,
) -> Seq<char> {
    "<tr><td class=\"mono\" title=\""@
        + hash
        + "\">"@
        + short
        + "</td><td class=\"mono\">"@
        + chain
        + "</td><td>"@
        + dec_text(seq)
        + "</td></tr>"@
}

pub(crate) fn cite_row(hash: &str, short: &str, chain: &str, seq: u64) -> (r: String)
    ensures
        r@ == cite_row_html(hash@, short@, chain@, seq as nat),
{
    let mut s = "<tr><td class=\"mono\" title=\"".to_owned();
    s.append(hash);
    s.append("\">");
    s.append(short);
    s.append("</td><td class=\"mono\">");
    s.append(chain);
    s.append("</td><td>");
    s.append(dec(seq).as_str());
    s.append("</td></tr>");
    s
}

/// The row of a citation.
pub open spec fn citation_row(c: CitationView) -> Seq<char> {
    cite_row_html(escaped(c.hash), short_of(c.hash), escaped(c.chain), c.seq as nat)
}

/// The rows of the first `n` citations.
pub open spec fn citation_rows(s: Seq<CitationView>, n: nat) -> Seq<char>
    decreases n,
{
    if n == 0 || n > s.len() {
        Seq::empty()
    } else {
        citation_rows(s, (n - 1) as nat) + citation_row(s[n - 1])
    }
}

/// Rows of the first `n` citations.
pub(crate) fn cite_rows(v: &Vec<Citation>, n: usize) -> (r: String)
    requires
        n <= v@.len(),
    ensures
        r@ == citation_rows(citation_views(v@), n as nat),
{
    let ghost all = citation_views(v@);
    let mut out = String::new();
    let mut i: usize = 0;
    while i < n
        invariant
            i <= n <= v@.len(),
            all == citation_views(v@),
            out@ == citation_rows(all, i as nat),
        decreases n - i,
    {
        let c = &v[i];
        assert(all[i as int] == c@);
        let hash = esc(c.hash.as_str());
        let short = hash_short(c);
        let chain = esc(c.chain.as_str());
        out.append(cite_row(hash.as_str(), short.as_str(), chain.as_str(), c.seq).as_str());
        i = i + 1;
    }
    out
}

/// A provenance drawer around its rows.
pub open spec fn drawer_html(
    n: nat,
    plural: Seq<char>,
    label: Seq<char>,
    rows: Seq<char>,
) -> Seq<char> {
    "<details class=\"prov\"><summary>provenance — "@
        + dec_text(n)
        + " block"@
        + plural
        + " · "@
        + label
        + "</summary><table><thead><tr><th>block \
         hash</th><th>chain</th><th>seq</th></tr></thead><tbody>"@
        + rows
        + "</tbody></table></details>"@
}

fn drawer(n: u64, plural: &str, label: &str, rows: &str) -> (r: String)
    ensures
        r@ == drawer_html(n as nat, plural@, label@, rows@),
{
    let mut s = "<details class=\"prov\"><summary>provenance — ".to_owned();
    s.append(dec(n).as_str());
    s.append(" block");
    s.append(plural);
    s.append(" · ");
    s.append(label);
    s.append(
        "</summary><table><thead><tr><th>block \
         hash</th><th>chain</th><th>seq</th></tr></thead><tbody>",
    );
    s.append(rows);
    s.append("</tbody></table></details>");
    s
}

/// The ending of a word for `n` things.
pub open spec fn plural_of(n: nat) -> Seq<char> {
    if n == 1 {
        ""@
    } else {
        "s"@
    }
}

/// The provenance drawer of a section: the Blocks it was derived from, behind
/// a summary line; nothing for none.
pub open spec fn drawer_of(label: Seq<char>, s: Seq<CitationView>) -> Seq<char> {
    if s.len() == 0 {
        ""@
    } else {
        drawer_html(s.len(), plural_of(s.len()), escaped(label), citation_rows(s, s.len()))
    }
}

/// The provenance drawer of a section.
pub fn prov_drawer(label: &str, citations: &Vec<Citation>) -> (r: String)
    ensures
        r@ == drawer_of(label@, citation_views(citations@)),
{
    let n: usize = citations.len();
    if n == 0 {
        return "".to_owned();
    }
    let rows = cite_rows(citations, n);
    let plural = if n == 1 {
        ""
    } else {
        "s"
    };
    drawer(n as u64, plural, esc(label).as_str(), rows.as_str())
}

/// A setting that artifacts lead with: its key, its name and its unit.
pub struct KeySetting {
    pub key: &'static str,
    pub name: &'static str,
    pub unit: &'static str,
}

/// A leading setting by its texts.
#[verifier::ext_equal]
pub struct KeyView {
    pub key: Seq<char>,
    pub name: Seq<char>,
    pub unit: Seq<char>,
}

impl View for KeySetting {
    type V = KeyView;

    open spec fn view(&self) -> KeyView {
        KeyView { key: self.key@, name: self.name@, unit: self.unit@ }
    }
}

/// Number of leading settings.
pub const KEY_SETTINGS: usize = 13;

/// The leading settings, in order.
pub open spec fn key_setting(i: int) -> KeyView {
    if i == 0 {
        KeyView { key: "link_profile.name"@, name: "link profile"@, unit: ""@ }
    } else if i == 1 {
        KeyView { key: "link_profile.loss_pct"@, name: "link loss"@, unit: " %"@ }
    } else if i == 2 {
        KeyView { key: "link_profile.delay_ms"@, name: "link delay"@, unit: " ms"@ }
    } else if i == 3 {
        KeyView { key: "link_profile.jitter_ms"@, name: "link jitter"@, unit: " ms"@ }
    } else if i == 4 {
        KeyView { key: "link_profile.bandwidth_mbps"@, name: "bandwidth"@, unit: " Mbps"@ }
    } else if i == 5 {
        KeyView { key: "coord.grace_s"@, name: "coop grace"@, unit: " s"@ }
    } else if i == 6 {
        KeyView { key: "coord.hsep_m"@, name: "h-sep"@, unit: " m"@ }
    } else if i == 7 {
        KeyView { key: "coord.vsep_m"@, name: "v-sep"@, unit: " m"@ }
    } else if i == 8 {
        KeyView { key: "coord.floor_agl_m"@, name: "flight floor"@, unit: " m"@ }
    } else if i == 9 {
        KeyView { key: "coord.rtl_base_agl_m"@, name: "RTL base"@, unit: " m"@ }
    } else if i == 10 {
        KeyView { key: "carrier"@, name: "carrier"@, unit: ""@ }
    } else if i == 11 {
        KeyView { key: "fleet_ids"@, name: "fleet"@, unit: ""@ }
    } else {
        KeyView { key: "telemetry_hz"@, name: "telemetry"@, unit: " Hz"@ }
    }
}

/// The leading setting at a position.
pub(crate) fn key_at(i: usize) -> (r: KeySetting)
    requires
        i < KEY_SETTINGS,
    ensures
        r@ == key_setting(i as int),
{
    if i == 0 {
        KeySetting { key: "link_profile.name", name: "link profile", unit: "" }
    } else if i == 1 {
        KeySetting { key: "link_profile.loss_pct", name: "link loss", unit: " %" }
    } else if i == 2 {
        KeySetting { key: "link_profile.delay_ms", name: "link delay", unit: " ms" }
    } else if i == 3 {
        KeySetting { key: "link_profile.jitter_ms", name: "link jitter", unit: " ms" }
    } else if i == 4 {
        KeySetting { key: "link_profile.bandwidth_mbps", name: "bandwidth", unit: " Mbps" }
    } else if i == 5 {
        KeySetting { key: "coord.grace_s", name: "coop grace", unit: " s" }
    } else if i == 6 {
        KeySetting { key: "coord.hsep_m", name: "h-sep", unit: " m" }
    } else if i == 7 {
        KeySetting { key: "coord.vsep_m", name: "v-sep", unit: " m" }
    } else if i == 8 {
        KeySetting { key: "coord.floor_agl_m", name: "flight floor", unit: " m" }
    } else if i == 9 {
        KeySetting { key: "coord.rtl_base_agl_m", name: "RTL base", unit: " m" }
    } else if i == 10 {
        KeySetting { key: "carrier", name: "carrier", unit: "" }
    } else if i == 11 {
        KeySetting { key: "fleet_ids", name: "fleet", unit: "" }
    } else {
        KeySetting { key: "telemetry_hz", name: "telemetry", unit: " Hz" }
    }
}

/// Position of a leading setting among those from `i` on, or their number.
pub open spec fn key_place(key: Seq<char>, i: nat) -> int
    decreases KEY_SETTINGS - i,
{
    if i >= KEY_SETTINGS {
        KEY_SETTINGS as int
    } else if key_setting(i as int).key == key {
        i as int
    } else {
        key_place(key, i + 1)
    }
}

fn find_setting(key: &str) -> (r: usize)
    ensures
        r == key_place(key@, 0),
        r <= KEY_SETTINGS,
{
    let mut i: usize = 0;
    while i < KEY_SETTINGS && !same(key_at(i).key, key)
        invariant
            i <= KEY_SETTINGS,
            key_place(key@, 0) == key_place(key@, i as nat),
        decreases KEY_SETTINGS - i,
    {
        i = i + 1;
    }
    i
}

/// How a run's setting is shown.
pub open spec fn shown_setting(settings: TextMap<Setting>, key: Seq<char>) -> Option<Seq<char>> {
    match setting_at(settings, key) {
        Some(s) => Some(s.display),
        None => None,
    }
}

/// The part of an association line for a setting.
pub open spec fn assoc_part(
    settings: TextMap<Setting>,
    key: Seq<char>,
    show_unknown: bool,
) -> Option<Seq<char>> {
    let i = key_place(key, 0);
    if i >= KEY_SETTINGS {
        None
    } else {
        match shown_setting(settings, key) {
            Some(v) => Some(key_setting(i).name + " "@ + escaped(v) + key_setting(i).unit),
            None => if show_unknown {
                Some(key_setting(i).name + " ?"@)
            } else {
                None
            },
        }
    }
}

/// The parts of an association line for the first `n` settings.
pub open spec fn assoc_parts(
    settings: TextMap<Setting>,
    keys: Seq<Seq<char>>,
    show_unknown: bool,
    n: nat,
) -> Seq<Seq<char>>
    decreases n,
{
    if n == 0 || n > keys.len() {
        Seq::empty()
    } else {
        let before = assoc_parts(settings, keys, show_unknown, (n - 1) as nat);
        match assoc_part(settings, keys[n - 1], show_unknown) {
            Some(p) => before.push(p),
            None => before,
        }
    }
}

/// A compact line of the settings among `keys` that the run knows; the others
/// are listed as unknown where that is asked for.
pub open spec fn assoc_text(
    settings: TextMap<Setting>,
    keys: Seq<Seq<char>>,
    show_unknown: bool,
) -> Seq<char> {
    let parts = assoc_parts(settings, keys, show_unknown, keys.len());
    joined(parts, " · "@, parts.len())
}

/// Key lists by their texts.
pub open spec fn key_texts(v: Seq<&'static str>) -> Seq<Seq<char>> {
    v.map_values(|k: &'static str| k@)
}

/// One compact association line.
pub fn assoc_line(run: &RunConfig, keys: &Vec<&'static str>, show_unknown: bool) -> (r: String)
    requires
        run.settings.ordered(),
    ensures
        r@ == assoc_text(run.settings, key_texts(keys@), show_unknown),
{
    let ghost ks = key_texts(keys@);
    let mut parts: Vec<String> = Vec::new();
    let mut i: usize = 0;
    assert(views(parts@) =~= assoc_parts(run.settings, ks, show_unknown, 0));
    while i < keys.len()
        invariant
            i <= keys@.len(),
            ks == key_texts(keys@),
            run.settings.ordered(),
            views(parts@) == assoc_parts(run.settings, ks, show_unknown, i as nat),
        decreases keys@.len() - i,
    {
        assert(ks[i as int] == keys@[i as int]@);
        let k: usize = find_setting(keys[i]);
        if k < KEY_SETTINGS {
            let setting = key_at(k);
            let ghost before = parts@;
            match run.display(keys[i]) {
                Some(v) => {
                    let mut s = setting.name.to_owned();
                    s.append(" ");
                    s.append(esc(v.as_str()).as_str());
                    s.append(setting.unit);
                    parts.push(s);
                    assert(views(parts@) =~= views(before).push(s@));
                },
                None => {
                    if show_unknown {
                        let mut s = setting.name.to_owned();
                        s.append(" ?");
                        parts.push(s);
                        assert(views(parts@) =~= views(before).push(s@));
                    }
                },
            }
        }
        i = i + 1;
    }
    join(&parts, " · ")
}

/// A cell of the configuration grid.
pub open spec fn cfg_cell_html(name: Seq<char>, value: Seq<char>) -> Seq<char> {
    "<div class=\"cfg-cell\"><div class=\"cfg-label\">"@
        + name
        + "</div><div class=\"cfg-value\">"@
        + value
        + "</div></div>"@
}

fn cfg_cell(name: &str, value: &str) -> (r: String)
    ensures
        r@ == cfg_cell_html(name@, value@),
{
    let mut s = "<div class=\"cfg-cell\"><div class=\"cfg-label\">".to_owned();
    s.append(name);
    s.append("</div><div class=\"cfg-value\">");
    s.append(value);
    s.append("</div></div>");
    s
}

/// A row of a settings table.
pub open spec fn pair_row_html(key: Seq<char>, value: Seq<char>) -> Seq<char> {
    "<tr><td class=\"mono\">"@
        + key
        + "</td><td class=\"mono\">"@
        + value
        + "</td></tr>"@
}

pub(crate) fn pair_row(key: &str, value: &str) -> (r: String)
    ensures
        r@ == pair_row_html(key@, value@),
{
    let mut s = "<tr><td class=\"mono\">".to_owned();
    s.append(key);
    s.append("</td><td class=\"mono\">");
    s.append(value);
    s.append("</td></tr>");
    s
}

/// The grid cells of the first `n` leading settings.
pub open spec fn cfg_cells(settings: TextMap<Setting>, n: nat) -> Seq<char>
    decreases n,
{
    if n == 0 || n > KEY_SETTINGS {
        Seq::empty()
    } else {
        let k = key_setting(n - 1);
        cfg_cells(settings, (n - 1) as nat) + cfg_cell_html(
            k.name,
            match shown_setting(settings, k.key) {
                Some(v) => escaped(v) + k.unit,
                None => "<span class=\"unknown\">unknown</span>"@,
            },
        )
    }
}

/// The rows of the first `n` settings.
pub open spec fn settings_rows(list: Seq<(String, Setting)>, n: nat) -> Seq<char>
    decreases n,
{
    if n == 0 || n > list.len() {
        Seq::empty()
    } else {
        settings_rows(list, (n - 1) as nat) + pair_row_html(
            escaped(list[n - 1].0@),
            escaped(list[n - 1].1.display@),
        )
    }
}

fn config_cells(run: &RunConfig) -> (r: String)
    requires
        run.settings.ordered(),
    ensures
        r@ == cfg_cells(run.settings, KEY_SETTINGS as nat),
{
    let mut out = String::new();
    let mut i: usize = 0;
    while i < KEY_SETTINGS
        invariant
            i <= KEY_SETTINGS,
            run.settings.ordered(),
            out@ == cfg_cells(run.settings, i as nat),
        decreases KEY_SETTINGS - i,
    {
        let k = key_at(i);
        let value = match run.display(k.key) {
            Some(v) => {
                let mut s = esc(v.as_str());
                s.append(k.unit);
                s
            },
            None => "<span class=\"unknown\">unknown</span>".to_owned(),
        };
        out.append(cfg_cell(k.name, value.as_str()).as_str());
        i = i + 1;
    }
    out
}

fn config_rows(run: &RunConfig) -> (r: String)
    ensures
        r@ == settings_rows(run.settings.list(), run.settings.list().len()),
{
    let mut out = String::new();
    let mut i: usize = 0;
    let n: usize = run.settings.len();
    while i < n
        invariant
            i <= n,
            n == run.settings.list().len(),
            out@ == settings_rows(run.settings.list(), i as nat),
        decreases n - i,
    {
        let e = run.settings.entry(i);
        let key = esc(e.0.as_str());
        let value = esc(e.1.display.as_str());
        out.append(pair_row(key.as_str(), value.as_str()).as_str());
        i = i + 1;
    }
    out
}

/// What the configuration panel says of inferred settings.
pub const INFERRED: &'static str = "<p class=\"note\">No <code>run.config</code> record in these journals — settings \
     below were inferred from <code>agent.up</code>; unlisted settings are unknown, \
     not defaulted.</p>";

/// The configuration panel around its parts.
pub open spec fn panel_html(
    note: Seq<char>,
    cells: Seq<char>,
    n: nat,
    full: Seq<char>,
) -> Seq<char> {
    "<section class=\"card\"><h2>Run configuration</h2>"@
        + note
        + "<div class=\"cfg-grid\">"@
        + cells
        + "</div><details><summary>full configuration ("@
        + dec_text(n)
        + " \
         settings)</summary><table><thead><tr><th>setting</th><th>value</th></tr></thead><tbody>"@
        + full
        + "</tbody></table></details></section>"@
}

fn panel(note: &str, cells: &str, n: u64, full: &str) -> (r: String)
    ensures
        r@ == panel_html(note@, cells@, n as nat, full@),
{
    let mut s = "<section class=\"card\"><h2>Run configuration</h2>".to_owned();
    s.append(note);
    s.append("<div class=\"cfg-grid\">");
    s.append(cells);
    s.append("</div><details><summary>full configuration (");
    s.append(dec(n).as_str());
    s.append(
        " \
         settings)</summary><table><thead><tr><th>setting</th><th>value</th></tr></thead><tbody>",
    );
    s.append(full);
    s.append("</tbody></table></details></section>");
    s
}

/// The configuration panel of a run: the leading settings as a grid, all
/// settings behind a drawer, and a banner where they were inferred.
pub open spec fn panel_of(run: RunConfig) -> Seq<char> {
    let list = run.settings.list();
    panel_html(
        if run.synthesized {
            INFERRED@
        } else {
            ""@
        },
        cfg_cells(run.settings, KEY_SETTINGS as nat),
        list.len(),
        settings_rows(list, list.len()),
    )
}

/// The configuration panel of a run.
pub fn config_panel(run: &RunConfig) -> (r: String)
    requires
        run.settings.ordered(),
    ensures
        r@ == panel_of(*run),
{
    let cells = config_cells(run);
    let full = config_rows(run);
    let note = if run.synthesized {
        INFERRED
    } else {
        ""
    };
    panel(note, cells.as_str(), run.settings.len() as u64, full.as_str())
}

/// Shared stylesheet.
pub const STYLE: &'static str = r#"
:root {
  --surface:#fcfcfb; --page:#f9f9f7; --ink:#0b0b0b; --ink2:#52514e;
  --muted:#898781; --grid:#e1e0d9; --line:#c3c2b7;
  --s1:#2a78d6; --s2:#1baf7a; --s3:#eda100; --s4:#008300; --s5:#4a3aa7; --s6:#e34948;
  --good:#0ca30c; --warn:#fab219; --crit:#d03b3b;
  --border:rgba(11,11,11,0.10);
}
@media (prefers-color-scheme: dark) {
  :root {
    --surface:#1a1a19; --page:#0d0d0d; --ink:#ffffff; --ink2:#c3c2b7;
    --grid:#2c2c2a; --line:#383835;
    --s1:#3987e5; --s2:#199e70; --s3:#c98500; --s5:#9085e9; --s6:#e66767;
    --border:rgba(255,255,255,0.10);
  }
}
* { box-sizing: border-box; }
body { margin:0; background:var(--page); color:var(--ink);
       font:15px/1.55 system-ui,-apple-system,"Segoe UI",sans-serif; }
main { max-width: 920px; margin: 0 auto; padding: 24px 20px 64px; }
h1 { font-size: 26px; margin: 8px 0 2px; }
h2 { font-size: 17px; margin: 0 0 12px; }
.sub { color: var(--ink2); margin: 0 0 20px; }
.card { background: var(--surface); border: 1px solid var(--border);
        border-radius: 8px; padding: 16px 18px; margin: 16px 0; }
.mono { font-family: ui-monospace,SFMono-Regular,Menlo,monospace; font-size: 12.5px; }
a { color: var(--s1); }
table { border-collapse: collapse; width: 100%; margin: 8px 0; }
th { text-align: left; color: var(--muted); font-weight: 500; font-size: 12.5px; }
th, td { padding: 5px 10px 5px 0; border-bottom: 1px solid var(--grid); }
td { font-variant-numeric: tabular-nums; }
.unknown { color: var(--muted); font-style: italic; }
.note { color: var(--ink2); font-size: 13.5px; }
.assoc { color: var(--ink2); font-size: 13px; margin: 2px 0 10px; }
.assoc::before { content: "associated settings — "; color: var(--muted); }
details.prov { margin-top: 10px; font-size: 12.5px; color: var(--ink2); }
details.prov summary, details summary { cursor: pointer; color: var(--muted); }
.cfg-grid { display: grid; grid-template-columns: repeat(auto-fill,minmax(150px,1fr));
            gap: 10px 16px; margin: 10px 0; }
.cfg-label { color: var(--muted); font-size: 12px; }
.cfg-value { font-size: 15px; font-variant-numeric: tabular-nums; }
.footer { color: var(--muted); font-size: 12.5px; margin-top: 28px; }
.overflow { overflow-x: auto; }
"#;

/// A page around its title, styles and body.
pub open spec fn shell_html(title: Seq<char>, extra: Seq<char>, body: Seq<char>) -> Seq<char> {
    "<!doctype html><html lang=\"en\"><head><meta charset=\"utf-8\"><meta \
         name=\"viewport\" content=\"width=device-width,initial-scale=1\"><title>"@
        + title
        + "</title><style>"@
        + STYLE@
        + extra
        + "</style></head><body>"@
        + body
        + "</body></html>"@
}

fn shell(title: &str, extra: &str, body: &str) -> (r: String)
    ensures
        r@ == shell_html(title@, extra@, body@),
{
    let mut s = "<!doctype html><html lang=\"en\"><head><meta charset=\"utf-8\"><meta \
                 name=\"viewport\" \
                 content=\"width=device-width,initial-scale=1\"><title>".to_owned();
    s.append(title);
    s.append("</title><style>");
    s.append(STYLE);
    s.append(extra);
    s.append("</style></head><body>");
    s.append(body);
    s.append("</body></html>");
    s
}

/// A page with a plain title.
pub open spec fn page_of(title: Seq<char>, extra: Seq<char>, body: Seq<char>) -> Seq<char> {
    shell_html(escaped(title), extra, body)
}

/// Wrap a body in the standard page.
pub fn page(title: &str, extra_style: &str, body: &str) -> (r: String)
    ensures
        r@ == page_of(title@, extra_style@, body@),
{
    shell(esc(title).as_str(), extra_style, body)
}

} // verus!
