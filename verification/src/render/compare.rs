//! The comparison lens: which settings changed between runs, beside what
//! came out. Settings that never changed collapse into a shared header. The
//! lens shows the association and claims no causality.

use vstd::prelude::*;
use vstd::utf8::encode_utf8;

use crate::blocks::{
    citation_order, citation_views, lemma_citation_order, place_citation, sorted_citations,
    Citation, CitationView,
};
use crate::dataset::{cited_blocks, datum_views, named_vehicles, shown, Datum, DatumView};
use crate::json::{figure_of, quote, quoted};
use crate::metrics::{
    column_views, has_text, is_telemetry_of, metrics, outcome_columns, sample_field, sample_figure,
    telemetry_of, Column, ColumnView,
};
use crate::render::deck::{series_slot, series_var};
use crate::render::demo::{json_list, list_text, quote_all, quoted_texts};
use crate::render::report::push_text;
use crate::render::{
    drawer_of, esc, escaped, page, page_of, pair_row, pair_row_html, plural_of, prov_drawer,
    RenderedArtifact, Run,
};
use crate::sorting::distinct_items_rise;
use crate::text::{cat, chars_of, dec, dec_text, join, joined, same, views};
use crate::text_map::{keys_of, sort_texts, sorted_texts};

verus! {

/// Stylesheet of the comparison.
pub const COMPARE_STYLE: &'static str = r#"
th.sortable { cursor: pointer; user-select: none; }
th.sortable:hover { color: var(--ink); }
th.delta, td.delta { border-left: 2px solid var(--s1); padding-left: 10px; }
thead .group th { border-bottom: none; color: var(--ink2); font-size: 12px; }
canvas { width: 100%; height: 380px; display: block; border-radius: 4px; }
.map-wrap { background: var(--surface); border: 1px solid var(--border);
            border-radius: 8px; padding: 10px; }
.legend { display: flex; flex-wrap: wrap; gap: 8px 22px; font-size: 13px;
          color: var(--ink2); margin-top: 8px; }
.key-dot { display: inline-block; width: 10px; height: 10px; border-radius: 50%;
           vertical-align: middle; margin-right: 6px; }
.legend .delta-note { color: var(--muted); }
.csv { font-size: 13px; }
"#;

/// Column sorting of the comparison.
pub const SORT_JS: &'static str = r#"
const table = document.getElementById('cmp');
const dirs = {};
table.querySelectorAll('thead tr.cols th').forEach((th, i) => {
  th.classList.add('sortable');
  th.title = 'click to sort';
  th.addEventListener('click', () => {
    dirs[i] = -(dirs[i] || -1);
    const tb = table.tBodies[0];
    [...tb.rows]
      .sort((a, b) => {
        const x = a.cells[i], y = b.cells[i];
        const nx = parseFloat(x.dataset.num), ny = parseFloat(y.dataset.num);
        const c = (!isNaN(nx) && !isNaN(ny)) ? nx - ny
                : x.textContent.localeCompare(y.textContent);
        return c * dirs[i];
      })
      .forEach(r => tb.appendChild(r));
  });
});
"#;

/// Track overlay of the comparison.
pub const OVERLAY_JS: &'static str = r#"
const cv = document.getElementById('overlay'), ctx = cv.getContext('2d');
const css = (n) => getComputedStyle(document.documentElement).getPropertyValue(n).trim();
const SERIES = ['--s1','--s2','--s3','--s5','--s6','--s4'];
const MLAT = 111320;
let b = null;
for (const run of RUNS) for (const tr of run.tracks) for (const p of tr) {
  if (!b) b = { la0: p[0], la1: p[0], lo0: p[1], lo1: p[1] };
  b.la0 = Math.min(b.la0, p[0]); b.la1 = Math.max(b.la1, p[0]);
  b.lo0 = Math.min(b.lo0, p[1]); b.lo1 = Math.max(b.lo1, p[1]);
}
if (!b) b = { la0: 0, la1: 0.001, lo0: 0, lo1: 0.001 };
const clat = (b.la0 + b.la1) / 2, clon = (b.lo0 + b.lo1) / 2;
const mlon = MLAT * Math.cos(clat * Math.PI / 180);
function draw() {
  const r = cv.getBoundingClientRect();
  cv.width = r.width * devicePixelRatio; cv.height = r.height * devicePixelRatio;
  const wm = Math.max((b.la1 - b.la0) * MLAT, (b.lo1 - b.lo0) * mlon, 20);
  const mppx = wm * 1.3 / Math.min(cv.width, cv.height);
  const proj = (lat, lon) => [cv.width / 2 + (lon - clon) * mlon / mppx,
                              cv.height / 2 - (lat - clat) * MLAT / mppx];
  ctx.fillStyle = css('--surface'); ctx.fillRect(0, 0, cv.width, cv.height);
  const step = 50 / mppx;
  ctx.strokeStyle = css('--grid'); ctx.lineWidth = 1;
  const [ox, oy] = proj(clat, clon);
  for (let x = ox % step; x < cv.width; x += step) {
    ctx.beginPath(); ctx.moveTo(x, 0); ctx.lineTo(x, cv.height); ctx.stroke(); }
  for (let y = oy % step; y < cv.height; y += step) {
    ctx.beginPath(); ctx.moveTo(0, y); ctx.lineTo(cv.width, y); ctx.stroke(); }
  ctx.font = (11 * devicePixelRatio) + 'px system-ui';
  RUNS.forEach((run, ri) => {
    const color = css(SERIES[ri % SERIES.length]);
    ctx.strokeStyle = color; ctx.lineWidth = 2 * devicePixelRatio;
    ctx.lineJoin = ctx.lineCap = 'round';
    run.tracks.forEach((tr, vi) => {
      ctx.beginPath();
      tr.forEach((p, i) => {
        const [x, y] = proj(p[0], p[1]);
        if (i === 0) ctx.moveTo(x, y); else ctx.lineTo(x, y);
      });
      ctx.stroke();
      const p = tr[tr.length - 1];
      if (p) {
        const [x, y] = proj(p[0], p[1]);
        ctx.beginPath(); ctx.arc(x, y, 5 * devicePixelRatio, 0, 7);
        ctx.fillStyle = color; ctx.fill();
        ctx.lineWidth = 2 * devicePixelRatio; ctx.strokeStyle = css('--surface'); ctx.stroke();
        ctx.fillStyle = css('--ink2');
        ctx.fillText(run.vehicles[vi] || '', x + 9 * devicePixelRatio, y - 7 * devicePixelRatio);
      }
    });
  });
  ctx.fillStyle = css('--muted');
  ctx.fillText('grid 50 m', 10 * devicePixelRatio, cv.height - 10 * devicePixelRatio);
}
addEventListener('resize', draw);
draw();
"#;

/// Whether a byte stands for itself in the embedded table.
pub open spec fn unreserved(b: u8) -> bool {
    65 <= b <= 90 || 97 <= b <= 122 || 48 <= b <= 57 || b == 45 || b == 95 || b == 46 || b == 126
        || b == 47 || b == 58
}

/// An upper-case hex digit.
pub open spec fn upper_hex(d: int) -> char {
    if d < 10 {
        ('0' as u8 + d) as char
    } else {
        ('A' as u8 + (d - 10)) as char
    }
}

/// How a byte is written in the embedded table.
pub open spec fn percent_byte(b: u8) -> Seq<char> {
    if unreserved(b) {
        seq![b as char]
    } else {
        seq!['%', upper_hex((b / 16) as int), upper_hex((b % 16) as int)]
    }
}

/// How bytes are written in the embedded table.
pub open spec fn percent_text(s: Seq<u8>) -> Seq<char>
    decreases s.len(),
{
    if s.len() == 0 {
        Seq::empty()
    } else {
        percent_text(s.drop_last()) + percent_byte(s.last())
    }
}

fn upper_digit(d: u8) -> (r: char)
    requires
        d < 16,
    ensures
        r == upper_hex(d as int),
{
    if d < 10 {
        (48 + d) as char
    } else {
        (55 + d) as char
    }
}

/// Percent-encode a text for a data URI.
pub fn percent_encode(s: &str) -> (r: String)
    ensures
        r@ == percent_text(encode_utf8(s@)),
{
    let bytes = s.as_bytes();
    let ghost all = encode_utf8(s@);
    let mut out = String::new();
    let mut i: usize = 0;
    assert(all.take(0) =~= Seq::empty());
    while i < bytes.len()
        invariant
            i <= bytes@.len(),
            bytes@ == all,
            out@ == percent_text(all.take(i as int)),
        decreases bytes@.len() - i,
    {
        let b: u8 = bytes[i];
        proof {
            assert(all.take(i + 1).drop_last() =~= all.take(i as int));
            assert(all.take(i + 1).last() == b);
        }
        let ghost before = out@;
        if (65 <= b && b <= 90) || (97 <= b && b <= 122) || (48 <= b && b <= 57) || b == 45 || b
            == 95 || b == 46 || b == 126 || b == 47 || b == 58 {
            out.push(b as char);
            assert(out@ =~= before + seq![b as char]);
        } else {
            out.push('%');
            out.push(upper_digit(b / 16));
            out.push(upper_digit(b % 16));
            assert(out@ =~= before + percent_byte(b));
        }
        i = i + 1;
    }
    assert(all.take(i as int) =~= all);
    out
}

/// A text with semicolons for its commas.
pub open spec fn uncommaed(s: Seq<char>) -> Seq<char> {
    s.map_values(
        |c: char|
            if c == ',' {
                ';'
            } else {
                c
            },
    )
}

fn without_commas(s: &str) -> (r: String)
    ensures
        r@ == uncommaed(s@),
{
    let chars = chars_of(s);
    let mut out = String::new();
    let mut i: usize = 0;
    while i < chars.len()
        invariant
            i <= chars@.len(),
            chars@ == s@,
            out@ == uncommaed(s@).take(i as int),
        decreases chars@.len() - i,
    {
        let c: char = chars[i];
        let ghost before = out@;
        let d: char = if c == ',' {
            ';'
        } else {
            c
        };
        out.push(d);
        assert(out@ =~= uncommaed(s@).take(i + 1));
        i = i + 1;
    }
    assert(out@ =~= uncommaed(s@));
    out
}

/// Runs that can be compared.
pub open spec fn all_valid(runs: Seq<Run>) -> bool {
    forall|i: int| 0 <= i < runs.len() ==> (#[trigger] runs[i]).valid()
}

/// The keys of the runs' settings, one run behind the other.
pub open spec fn setting_keys(runs: Seq<Run>, n: nat) -> Seq<Seq<char>>
    decreases n,
{
    if n == 0 || n > runs.len() {
        Seq::empty()
    } else {
        setting_keys(runs, (n - 1) as nat) + keys_of(runs[n - 1].dataset.run.settings.list())
    }
}

/// Whether every run knows the setting, all with the same value.
pub open spec fn is_shared(runs: Seq<Run>, key: Seq<char>) -> bool {
    runs.len() > 0 && runs[0].setting(key) is Some && forall|i: int|
        0 <= i < runs.len() ==> (#[trigger] runs[i]).setting(key) == runs[0].setting(key)
}

/// The shared settings among the first `n` keys.
pub open spec fn shared_keys(runs: Seq<Run>, keys: Seq<Seq<char>>, n: nat) -> Seq<Seq<char>>
    decreases n,
{
    if n == 0 || n > keys.len() {
        Seq::empty()
    } else if is_shared(runs, keys[n - 1]) {
        shared_keys(runs, keys, (n - 1) as nat).push(keys[n - 1])
    } else {
        shared_keys(runs, keys, (n - 1) as nat)
    }
}

/// The settings among the first `n` keys that differ or are missing somewhere.
pub open spec fn changed_keys(runs: Seq<Run>, keys: Seq<Seq<char>>, n: nat) -> Seq<Seq<char>>
    decreases n,
{
    if n == 0 || n > keys.len() {
        Seq::empty()
    } else if is_shared(runs, keys[n - 1]) {
        changed_keys(runs, keys, (n - 1) as nat)
    } else {
        changed_keys(runs, keys, (n - 1) as nat).push(keys[n - 1])
    }
}

/// Every key of the runs' settings, in order.
pub open spec fn all_keys_of(runs: Seq<Run>) -> Seq<Seq<char>> {
    sorted_texts(setting_keys(runs, runs.len()))
}

/// The settings that all runs share.
pub open spec fn shared_of(runs: Seq<Run>) -> Seq<Seq<char>> {
    shared_keys(runs, all_keys_of(runs), all_keys_of(runs).len())
}

/// The settings that changed between the runs.
pub open spec fn deltas_of(runs: Seq<Run>) -> Seq<Seq<char>> {
    changed_keys(runs, all_keys_of(runs), all_keys_of(runs).len())
}

/// Every setting is either shared by all runs or one that changed.
pub proof fn settings_are_shared_or_changed(runs: Seq<Run>, key: Seq<char>)
    ensures
        shared_of(runs).contains(key) <==> all_keys_of(runs).contains(key) && is_shared(runs, key),
        deltas_of(runs).contains(key) <==> all_keys_of(runs).contains(key) && !is_shared(runs, key),
{
    let keys = all_keys_of(runs);
    lemma_parted(runs, keys, keys.len(), key);
    assert(keys.take(keys.len() as int) =~= keys);
}

proof fn lemma_parted(runs: Seq<Run>, keys: Seq<Seq<char>>, n: nat, key: Seq<char>)
    requires
        n <= keys.len(),
    ensures
        shared_keys(runs, keys, n).contains(key) <==> keys.take(n as int).contains(key)
            && is_shared(runs, key),
        changed_keys(runs, keys, n).contains(key) <==> keys.take(n as int).contains(key)
            && !is_shared(runs, key),
    decreases n,
{
    if n > 0 {
        lemma_parted(runs, keys, (n - 1) as nat, key);
        let s = shared_keys(runs, keys, (n - 1) as nat);
        let c = changed_keys(runs, keys, (n - 1) as nat);
        let k = keys[n - 1];
        lemma_push_contains(s, k, key);
        lemma_push_contains(c, k, key);
        lemma_push_contains(keys.take(n - 1), k, key);
        assert(keys.take(n as int) =~= keys.take(n - 1).push(k));
    }
}

proof fn lemma_push_contains(s: Seq<Seq<char>>, x: Seq<char>, y: Seq<char>)
    ensures
        s.push(x).contains(y) <==> s.contains(y) || x == y,
{
    let t = s.push(x);
    if s.contains(y) {
        let i = choose|i: int| 0 <= i < s.len() && s[i] == y;
        assert(t[i] == y);
    }
    if x == y {
        assert(t[s.len() as int] == y);
    }
    if t.contains(y) {
        let i = choose|i: int| 0 <= i < t.len() && t[i] == y;
        if i < s.len() {
            assert(s[i] == y);
        }
    }
}

/// The names of the runs' outcome columns in the order in which the first `n`
/// of `names` show them.
pub open spec fn first_seen(names: Seq<Seq<char>>, n: nat) -> Seq<Seq<char>>
    decreases n,
{
    if n == 0 || n > names.len() {
        Seq::empty()
    } else {
        let before = first_seen(names, (n - 1) as nat);
        if before.contains(names[n - 1]) {
            before
        } else {
            before.push(names[n - 1])
        }
    }
}

/// The names of columns.
pub open spec fn column_names(s: Seq<ColumnView>) -> Seq<Seq<char>> {
    s.map_values(|c: ColumnView| c.name)
}

/// The column names of the runs, one run behind the other.
pub open spec fn listed_names(runs: Seq<Run>, n: nat) -> Seq<Seq<char>>
    decreases n,
{
    if n == 0 || n > runs.len() {
        Seq::empty()
    } else {
        listed_names(runs, (n - 1) as nat) + column_names(runs[n - 1].columns())
    }
}

/// The outcome columns of the table.
pub open spec fn outcome_names(runs: Seq<Run>) -> Seq<Seq<char>> {
    first_seen(listed_names(runs, runs.len()), listed_names(runs, runs.len()).len())
}

/// The first column with a name, from `i` on.
pub open spec fn column_named(s: Seq<ColumnView>, name: Seq<char>, i: nat) -> Option<ColumnView>
    decreases s.len() - i,
{
    if i >= s.len() {
        None
    } else if s[i as int].name == name {
        Some(s[i as int])
    } else {
        column_named(s, name, i + 1)
    }
}

/// A setting as the table shows it.
pub open spec fn cell_text(v: Option<Seq<char>>) -> Seq<char> {
    match v {
        Some(s) => s,
        None => "—"@,
    }
}

/// The cells of a run's first `n` changed settings.
pub open spec fn delta_cells(run: Run, keys: Seq<Seq<char>>, n: nat) -> Seq<char>
    decreases n,
{
    if n == 0 || n > keys.len() {
        Seq::empty()
    } else {
        delta_cells(run, keys, (n - 1) as nat) + "<td class=\"delta\">"@ + escaped(
            cell_text(run.setting(keys[n - 1])),
        ) + "</td>"@
    }
}

/// The fields of a run's first `n` changed settings in the embedded table.
pub open spec fn delta_fields(run: Run, keys: Seq<Seq<char>>, n: nat) -> Seq<char>
    decreases n,
{
    if n == 0 || n > keys.len() {
        Seq::empty()
    } else {
        delta_fields(run, keys, (n - 1) as nat) + ","@ + uncommaed(
            cell_text(run.setting(keys[n - 1])),
        )
    }
}

/// The cell of an outcome.
pub open spec fn outcome_cell(c: Option<ColumnView>) -> Seq<char> {
    match c {
        Some(x) => "<td"@ + (match x.num {
            Some(n) => " data-num=\""@ + n + "\""@,
            None => ""@,
        }) + ">"@ + escaped(x.display) + "</td>"@,
        None => "<td>—</td>"@,
    }
}

/// The field of an outcome in the embedded table.
pub open spec fn outcome_field(c: Option<ColumnView>) -> Seq<char> {
    match c {
        Some(x) => uncommaed(x.display),
        None => ""@,
    }
}

/// The cells of the first `n` outcomes.
pub open spec fn outcome_cells(s: Seq<ColumnView>, names: Seq<Seq<char>>, n: nat) -> Seq<char>
    decreases n,
{
    if n == 0 || n > names.len() {
        Seq::empty()
    } else {
        outcome_cells(s, names, (n - 1) as nat) + outcome_cell(column_named(s, names[n - 1], 0))
    }
}

/// The fields of the first `n` outcomes in the embedded table.
pub open spec fn outcome_fields(s: Seq<ColumnView>, names: Seq<Seq<char>>, n: nat) -> Seq<char>
    decreases n,
{
    if n == 0 || n > names.len() {
        Seq::empty()
    } else {
        outcome_fields(s, names, (n - 1) as nat) + ","@ + outcome_field(
            column_named(s, names[n - 1], 0),
        )
    }
}

/// The row of a run.
pub open spec fn run_row(run: Run, deltas: Seq<Seq<char>>, names: Seq<Seq<char>>) -> Seq<char> {
    "<tr><td>"@ + escaped(run.label()) + "</td>"@ + delta_cells(run, deltas, deltas.len())
        + outcome_cells(run.columns(), names, names.len()) + "</tr>"@
}

/// The line of a run in the embedded table.
pub open spec fn run_line(run: Run, deltas: Seq<Seq<char>>, names: Seq<Seq<char>>) -> Seq<char> {
    uncommaed(run.label()) + delta_fields(run, deltas, deltas.len()) + outcome_fields(
        run.columns(),
        names,
        names.len(),
    ) + "\n"@
}

/// The rows of the first `n` runs.
pub open spec fn run_rows(
    runs: Seq<Run>,
    deltas: Seq<Seq<char>>,
    names: Seq<Seq<char>>,
    n: nat,
) -> Seq<char>
    decreases n,
{
    if n == 0 || n > runs.len() {
        Seq::empty()
    } else {
        run_rows(runs, deltas, names, (n - 1) as nat) + run_row(runs[n - 1], deltas, names)
    }
}

/// The lines of the first `n` runs in the embedded table.
pub open spec fn run_lines(
    runs: Seq<Run>,
    deltas: Seq<Seq<char>>,
    names: Seq<Seq<char>>,
    n: nat,
) -> Seq<char>
    decreases n,
{
    if n == 0 || n > runs.len() {
        Seq::empty()
    } else {
        run_lines(runs, deltas, names, (n - 1) as nat) + run_line(runs[n - 1], deltas, names)
    }
}

/// Headers of the first `n` columns, each behind `open`.
pub open spec fn headers(open_tag: Seq<char>, names: Seq<Seq<char>>, n: nat) -> Seq<char>
    decreases n,
{
    if n == 0 || n > names.len() {
        Seq::empty()
    } else {
        headers(open_tag, names, (n - 1) as nat) + open_tag + escaped(names[n - 1]) + "</th>"@
    }
}

/// The first `n` names, each behind a comma.
pub open spec fn comma_names(names: Seq<Seq<char>>, n: nat) -> Seq<char>
    decreases n,
{
    if n == 0 || n > names.len() {
        Seq::empty()
    } else {
        comma_names(names, (n - 1) as nat) + ","@ + names[n - 1]
    }
}

/// `n`, but at least one.
pub open spec fn one_or_more(n: nat) -> nat {
    if n == 0 {
        1
    } else {
        n
    }
}

/// The group header of changed settings and outcomes.
pub open spec fn both_groups_html(deltas: nat, outcomes: nat) -> Seq<char> {
    "<tr class=\"group\"><th></th><th colspan=\""@
        + dec_text(deltas)
        + "\" class=\"delta\">settings that changed</th><th colspan=\""@
        + dec_text(outcomes)
        + "\">outcomes</th></tr>"@
}

fn both_groups(deltas: u64, outcomes: u64) -> (r: String)
    ensures
        r@ == both_groups_html(deltas as nat, outcomes as nat),
{
    let mut s = "<tr class=\"group\"><th></th><th colspan=\"".to_owned();
    s.append(dec(deltas).as_str());
    s.append("\" class=\"delta\">settings that changed</th><th colspan=\"");
    s.append(dec(outcomes).as_str());
    s.append("\">outcomes</th></tr>");
    s
}

/// The group header of outcomes alone.
pub open spec fn one_group_html(outcomes: nat) -> Seq<char> {
    "<tr class=\"group\"><th></th><th colspan=\""@
        + dec_text(outcomes)
        + "\">outcomes (no settings differ)</th></tr>"@
}

fn one_group(outcomes: u64) -> (r: String)
    ensures
        r@ == one_group_html(outcomes as nat),
{
    let mut s = "<tr class=\"group\"><th></th><th colspan=\"".to_owned();
    s.append(dec(outcomes).as_str());
    s.append("\">outcomes (no settings differ)</th></tr>");
    s
}

/// The group header of the table.
pub open spec fn group_row(deltas: nat, outcomes: nat) -> Seq<char> {
    if deltas == 0 {
        one_group_html(one_or_more(outcomes))
    } else {
        both_groups_html(deltas, one_or_more(outcomes))
    }
}

/// The column header of the table.
pub open spec fn header_row(deltas: Seq<Seq<char>>, names: Seq<Seq<char>>) -> Seq<char> {
    "<tr class=\"cols\"><th>run</th>"@ + headers("<th class=\"delta\">"@, deltas, deltas.len())
        + headers("<th>"@, names, names.len()) + "</tr>"@
}

/// The embedded table.
pub open spec fn table_text(
    runs: Seq<Run>,
    deltas: Seq<Seq<char>>,
    names: Seq<Seq<char>>,
) -> Seq<char> {
    "run"@ + comma_names(deltas, deltas.len()) + comma_names(names, names.len()) + "\n"@
        + run_lines(runs, deltas, names, runs.len())
}

/// The rows of the first `n` shared settings.
pub open spec fn shared_rows(run: Run, keys: Seq<Seq<char>>, n: nat) -> Seq<char>
    decreases n,
{
    if n == 0 || n > keys.len() {
        Seq::empty()
    } else {
        shared_rows(run, keys, (n - 1) as nat) + pair_row_html(
            escaped(keys[n - 1]),
            escaped(cell_text(run.setting(keys[n - 1]))),
        )
    }
}

/// What the page says where no settings differ.
pub const NO_DELTAS: &'static str = "No settings differ between these runs — outcome differences are run-to-run \
     variation, not configuration.";

/// What the page says of changed settings.
pub open spec fn changes_html(
    n: nat,
    plural: Seq<char>,
    verb: Seq<char>,
    keys: Seq<char>,
) -> Seq<char> {
    "Only <strong>"@
        + dec_text(n)
        + "</strong> setting"@
        + plural
        + " differ"@
        + verb
        + " between these runs: <code>"@
        + keys
        + "</code>. Outcome differences are <em>associated</em> with those settings — \
         association shown, causality not claimed."@
}

fn changes(n: u64, plural: &str, verb: &str, keys: &str) -> (r: String)
    ensures
        r@ == changes_html(n as nat, plural@, verb@, keys@),
{
    let mut s = "Only <strong>".to_owned();
    s.append(dec(n).as_str());
    s.append("</strong> setting");
    s.append(plural);
    s.append(" differ");
    s.append(verb);
    s.append(" between these runs: <code>");
    s.append(keys);
    s.append(
        "</code>. Outcome differences are <em>associated</em> with those settings — \
         association shown, causality not claimed.",
    );
    s
}

/// Texts as HTML writes them.
pub open spec fn escaped_all(s: Seq<Seq<char>>) -> Seq<Seq<char>> {
    s.map_values(|t: Seq<char>| escaped(t))
}

/// What changed between the runs, in a sentence.
pub open spec fn delta_summary(deltas: Seq<Seq<char>>) -> Seq<char> {
    if deltas.len() == 0 {
        NO_DELTAS@
    } else {
        changes_html(
            deltas.len(),
            plural_of(deltas.len()),
            if deltas.len() == 1 {
                "s"@
            } else {
                ""@
            },
            joined(escaped_all(deltas), "</code>, <code>"@, deltas.len()),
        )
    }
}

/// The notes of a run in the legend: its value of each changed setting.
pub open spec fn delta_notes(run: Run, keys: Seq<Seq<char>>, n: nat) -> Seq<Seq<char>>
    decreases n,
{
    if n == 0 || n > keys.len() {
        Seq::empty()
    } else {
        match run.setting(keys[n - 1]) {
            Some(v) => delta_notes(run, keys, (n - 1) as nat).push(keys[n - 1] + " "@ + v),
            None => delta_notes(run, keys, (n - 1) as nat),
        }
    }
}

/// The notes of a run in one line.
pub open spec fn note_line(notes: Seq<Seq<char>>) -> Seq<char> {
    if notes.len() == 0 {
        "(identical settings)"@
    } else {
        joined(notes, " · "@, notes.len())
    }
}

/// A run in the legend.
pub open spec fn legend_entry_html(
    slot: Seq<char>,
    label: Seq<char>,
    note: Seq<char>,
) -> Seq<char> {
    "<span><span class=\"key-dot\" style=\"background:var("@
        + slot
        + ")\"></span><strong>"@
        + label
        + "</strong> <span class=\"delta-note\">"@
        + note
        + "</span></span>"@
}

fn legend_entry(slot: &str, label: &str, note: &str) -> (r: String)
    ensures
        r@ == legend_entry_html(slot@, label@, note@),
{
    let mut s = "<span><span class=\"key-dot\" style=\"background:var(".to_owned();
    s.append(slot);
    s.append(")\"></span><strong>");
    s.append(label);
    s.append("</strong> <span class=\"delta-note\">");
    s.append(note);
    s.append("</span></span>");
    s
}

/// The legend of the first `n` runs.
pub open spec fn legend_upto(runs: Seq<Run>, deltas: Seq<Seq<char>>, n: nat) -> Seq<char>
    decreases n,
{
    if n == 0 || n > runs.len() {
        "<div class=\"legend\">"@
    } else {
        legend_upto(runs, deltas, (n - 1) as nat) + legend_entry_html(
            series_slot((n - 1) as nat),
            escaped(runs[n - 1].label()),
            escaped(note_line(delta_notes(runs[n - 1], deltas, deltas.len()))),
        )
    }
}

/// The ground track of a vehicle among the first `n` data.
pub open spec fn ground_track(data: Seq<DatumView>, vehicle: Seq<char>, n: nat) -> Seq<Seq<char>>
    decreases n,
{
    if n == 0 || n > data.len() {
        Seq::empty()
    } else {
        let d = data[n - 1];
        let before = ground_track(data, vehicle, (n - 1) as nat);
        let lat = figure_of(sample_field(d, "lat_deg"@));
        let lon = figure_of(sample_field(d, "lon_deg"@));
        if telemetry_of(d, vehicle) && lat is Some && lon is Some {
            before.push("["@ + lat->0.json + ","@ + lon->0.json + "]"@)
        } else {
            before
        }
    }
}

/// The ground tracks of vehicles.
pub open spec fn ground_tracks(
    data: Seq<DatumView>,
    vehicles: Seq<Seq<char>>,
) -> Seq<Seq<char>> {
    vehicles.map_values(|v: Seq<char>| json_list(ground_track(data, v, data.len())))
}

/// A run of the overlay around its parts.
pub open spec fn overlay_run_html(
    label: Seq<char>,
    tracks: Seq<char>,
    vehicles: Seq<char>,
) -> Seq<char> {
    "{\"label\":"@
        + label
        + ",\"tracks\":"@
        + tracks
        + ",\"vehicles\":"@
        + vehicles
        + "}"@
}

fn overlay_run(label: &str, tracks: &str, vehicles: &str) -> (r: String)
    ensures
        r@ == overlay_run_html(label@, tracks@, vehicles@),
{
    let mut s = "{\"label\":".to_owned();
    s.append(label);
    s.append(",\"tracks\":");
    s.append(tracks);
    s.append(",\"vehicles\":");
    s.append(vehicles);
    s.append("}");
    s
}

/// The overlay data of a run.
pub open spec fn overlay_of(run: Run) -> Seq<char> {
    let data = run.dataset.data();
    let vehicles = sorted_texts(named_vehicles(data, data.len()));
    overlay_run_html(
        quoted(run.label()),
        json_list(ground_tracks(data, vehicles)),
        json_list(quoted_texts(vehicles)),
    )
}

/// The overlay data of runs.
pub open spec fn overlays(runs: Seq<Run>) -> Seq<Seq<char>> {
    runs.map_values(|r: Run| overlay_of(r))
}

/// The provenance drawers of the first `n` runs.
pub open spec fn run_drawers(runs: Seq<Run>, n: nat) -> Seq<char>
    decreases n,
{
    if n == 0 || n > runs.len() {
        Seq::empty()
    } else {
        run_drawers(runs, (n - 1) as nat) + drawer_of(
            "run "@ + runs[n - 1].label(),
            cited_blocks(runs[n - 1].dataset.blocks@),
        )
    }
}

/// The citations of the first `n` runs, one run behind the other.
pub open spec fn listed_citations(runs: Seq<Run>, n: nat) -> Seq<CitationView>
    decreases n,
{
    if n == 0 || n > runs.len() {
        Seq::empty()
    } else {
        listed_citations(runs, (n - 1) as nat) + cited_blocks(runs[n - 1].dataset.blocks@)
    }
}

/// The citations of runs, sorted, each once.
pub open spec fn cited_runs(runs: Seq<Run>) -> Seq<CitationView> {
    sorted_citations(listed_citations(runs, runs.len()))
}

/// The comparison around its parts.
pub open spec fn compare_body_html(
    n: nat,
    blocks: nat,
    summary: Seq<char>,
    shared: nat,
    shared_rows: Seq<char>,
    csv_uri: Seq<char>,
    group_row: Seq<char>,
    header: Seq<char>,
    rows: Seq<char>,
    legend: Seq<char>,
    prov: Seq<char>,
    overlay: Seq<char>,
) -> Seq<char> {
    "<main><h1>Run comparison</h1><p class=\"sub\">"@
        + dec_text(n)
        + " runs · same lens machinery, one dataset per run · "@
        + dec_text(blocks)
        + " blocks total</p><section class=\"card\"><h2>What changed between runs</h2><p \
         class=\"note\">"@
        + summary
        + "</p><details><summary>shared settings ("@
        + dec_text(shared)
        + " identical across all \
         runs)</summary><table><thead><tr><th>setting</th><th>value</th></tr></thead><tbody>"@
        + shared_rows
        + "</tbody></table></details></section><section class=\"card\"><h2>Settings ↔ \
         outcomes</h2><p class=\"note\">Click a column header to sort. <a \
         class=\"csv\" download=\"run-comparison.csv\" \
         href=\"data:text/csv;charset=utf-8,"@
        + csv_uri
        + "\">download CSV</a></p><div class=\"overflow\"><table id=\"cmp\"><thead>"@
        + group_row
        + header
        + "</thead><tbody>"@
        + rows
        + "</tbody></table></div></section><section class=\"card\"><h2>Tracks, \
         overlaid</h2><p class=\"note\">Every run's ground tracks on one map, color = \
         run. The legend ties each color to the settings that distinguish that \
         run.</p><div class=\"map-wrap\"><canvas id=\"overlay\"></canvas>"@
        + legend
        + "</div></section><section class=\"card\"><h2>Provenance</h2><p \
         class=\"note\">Each run cites its own chains; a datum shared with the \
         single-run artifacts carries the identical Block hash there.</p>"@
        + prov
        + "</section><p class=\"footer\">Rendered through a matched, authorized console \
         binding (artifact.compare) over the run set — associated settings, not \
         claimed causality.</p></main><script>const RUNS = "@
        + overlay
        + ";</script><script>"@
        + SORT_JS@
        + "</script><script>"@
        + OVERLAY_JS@
        + "</script>"@
}

fn compare_body(
    n: u64,
    blocks: u64,
    summary: &str,
    shared: u64,
    shared_rows: &str,
    csv_uri: &str,
    group_row: &str,
    header: &str,
    rows: &str,
    legend: &str,
    prov: &str,
    overlay: &str,
) -> (r: String)
    ensures
        r@ == compare_body_html(
            n as nat,
            blocks as nat,
            summary@,
            shared as nat,
            shared_rows@,
            csv_uri@,
            group_row@,
            header@,
            rows@,
            legend@,
            prov@,
            overlay@,
        ),
{
    let mut s = "<main><h1>Run comparison</h1><p class=\"sub\">".to_owned();
    s.append(dec(n).as_str());
    s.append(" runs · same lens machinery, one dataset per run · ");
    s.append(dec(blocks).as_str());
    s.append(
        " blocks total</p><section class=\"card\"><h2>What changed between runs</h2><p \
         class=\"note\">",
    );
    s.append(summary);
    s.append("</p><details><summary>shared settings (");
    s.append(dec(shared).as_str());
    s.append(
        " identical across all \
         runs)</summary><table><thead><tr><th>setting</th><th>value</th></tr></thead><tbody>",
    );
    s.append(shared_rows);
    s.append(
        "</tbody></table></details></section><section class=\"card\"><h2>Settings ↔ \
         outcomes</h2><p class=\"note\">Click a column header to sort. <a \
         class=\"csv\" download=\"run-comparison.csv\" \
         href=\"data:text/csv;charset=utf-8,",
    );
    s.append(csv_uri);
    s.append("\">download CSV</a></p><div class=\"overflow\"><table id=\"cmp\"><thead>");
    s.append(group_row);
    s.append(header);
    s.append("</thead><tbody>");
    s.append(rows);
    s.append(
        "</tbody></table></div></section><section class=\"card\"><h2>Tracks, \
         overlaid</h2><p class=\"note\">Every run's ground tracks on one map, color = \
         run. The legend ties each color to the settings that distinguish that \
         run.</p><div class=\"map-wrap\"><canvas id=\"overlay\"></canvas>",
    );
    s.append(legend);
    s.append(
        "</div></section><section class=\"card\"><h2>Provenance</h2><p \
         class=\"note\">Each run cites its own chains; a datum shared with the \
         single-run artifacts carries the identical Block hash there.</p>",
    );
    s.append(prov);
    s.append(
        "</section><p class=\"footer\">Rendered through a matched, authorized console \
         binding (artifact.compare) over the run set — associated settings, not \
         claimed causality.</p></main><script>const RUNS = ",
    );
    s.append(overlay);
    s.append(";</script><script>");
    s.append(SORT_JS);
    s.append("</script><script>");
    s.append(OVERLAY_JS);
    s.append("</script>");
    s
}

/// The comparison of runs.
pub open spec fn compare_of(runs: Seq<Run>) -> Seq<char> {
    let shared = shared_of(runs);
    let deltas = deltas_of(runs);
    let names = outcome_names(runs);
    page_of(
        "Run comparison"@,
        COMPARE_STYLE@,
        compare_body_html(
            runs.len(),
            cited_runs(runs).len(),
            delta_summary(deltas),
            shared.len(),
            shared_rows(runs[0], shared, shared.len()),
            percent_text(encode_utf8(table_text(runs, deltas, names))),
            group_row(deltas.len(), names.len()),
            header_row(deltas, names),
            run_rows(runs, deltas, names, runs.len()),
            legend_upto(runs, deltas, runs.len()) + "</div>"@,
            run_drawers(runs, runs.len()),
            json_list(overlays(runs)),
        ),
    )
}

fn all_setting_keys(runs: &Vec<Run>) -> (r: Vec<String>)
    ensures
        views(r@) == all_keys_of(runs@),
{
    let mut out: Vec<String> = Vec::new();
    let mut i: usize = 0;
    assert(views(out@) =~= setting_keys(runs@, 0));
    while i < runs.len()
        invariant
            i <= runs@.len(),
            views(out@) == setting_keys(runs@, i as nat),
        decreases runs@.len() - i,
    {
        let settings = &runs[i].dataset.run.settings;
        let ghost keys = keys_of(settings.list());
        let ghost before = views(out@);
        let n: usize = settings.len();
        let mut j: usize = 0;
        assert(before + keys.take(0) =~= before);
        while j < n
            invariant
                j <= n,
                n == settings.list().len(),
                keys == keys_of(settings.list()),
                views(out@) == before + keys.take(j as int),
            decreases n - j,
        {
            let e = settings.entry(j);
            push_text(&mut out, e.0.clone());
            proof {
                assert(keys.take(j + 1) =~= keys.take(j as int).push(keys[j as int]));
                assert(views(out@) =~= before + keys.take(j + 1));
            }
            j = j + 1;
        }
        assert(keys.take(j as int) =~= keys);
        i = i + 1;
    }
    sort_texts(&out)
}

fn same_setting(a: &Option<String>, b: &Option<String>) -> (r: bool)
    ensures
        r == (shown(*a) == shown(*b)),
{
    match a {
        Some(x) => match b {
            Some(y) => same(x.as_str(), y.as_str()),
            None => false,
        },
        None => b.is_none(),
    }
}

fn shared_by_all(runs: &Vec<Run>, key: &str) -> (r: bool)
    requires
        all_valid(runs@),
    ensures
        r == is_shared(runs@, key@),
{
    if runs.len() == 0 {
        return false;
    }
    assert(runs@[0].valid());
    let first = runs[0].dataset.run.display(key);
    assert(shown(first) == runs@[0].setting(key@));
    if first.is_none() {
        return false;
    }
    let mut i: usize = 0;
    while i < runs.len()
        invariant
            i <= runs@.len(),
            runs@.len() > 0,
            all_valid(runs@),
            shown(first) == runs@[0].setting(key@),
            forall|j: int|
                0 <= j < i ==> (#[trigger] runs@[j]).setting(key@) == runs@[0].setting(key@),
        decreases runs@.len() - i,
    {
        assert(runs@[i as int].valid());
        let v = runs[i].dataset.run.display(key);
        assert(shown(v) == runs@[i as int].setting(key@));
        if !same_setting(&v, &first) {
            return false;
        }
        i = i + 1;
    }
    true
}

/// The settings that all runs share, and those that changed.
struct Parted {
    shared: Vec<String>,
    deltas: Vec<String>,
}

fn part_settings(runs: &Vec<Run>) -> (r: Parted)
    requires
        all_valid(runs@),
    ensures
        views(r.shared@) == shared_of(runs@),
        views(r.deltas@) == deltas_of(runs@),
{
    let keys = all_setting_keys(runs);
    let ghost ks = views(keys@);
    let mut shared: Vec<String> = Vec::new();
    let mut deltas: Vec<String> = Vec::new();
    let mut i: usize = 0;
    assert(views(shared@) =~= shared_keys(runs@, ks, 0));
    assert(views(deltas@) =~= changed_keys(runs@, ks, 0));
    while i < keys.len()
        invariant
            i <= keys@.len(),
            all_valid(runs@),
            ks == views(keys@),
            views(shared@) == shared_keys(runs@, ks, i as nat),
            views(deltas@) == changed_keys(runs@, ks, i as nat),
        decreases keys@.len() - i,
    {
        assert(ks[i as int] == keys@[i as int]@);
        if shared_by_all(runs, keys[i].as_str()) {
            push_text(&mut shared, keys[i].clone());
        } else {
            push_text(&mut deltas, keys[i].clone());
        }
        i = i + 1;
    }
    Parted { shared, deltas }
}

fn columns_of_runs(runs: &Vec<Run>) -> (r: Vec<Vec<Column>>)
    requires
        all_valid(runs@),
    ensures
        r@.len() == runs@.len(),
        forall|i: int|
            0 <= i < runs@.len() ==> column_views((#[trigger] r@[i])@) == runs@[i].columns(),
{
    let mut out: Vec<Vec<Column>> = Vec::new();
    let mut i: usize = 0;
    while i < runs.len()
        invariant
            i <= runs@.len(),
            all_valid(runs@),
            out@.len() == i,
            forall|j: int|
                0 <= j < i ==> column_views((#[trigger] out@[j])@) == runs@[j].columns(),
        decreases runs@.len() - i,
    {
        assert(runs@[i as int].valid());
        let m = metrics(&runs[i].dataset);
        out.push(outcome_columns(&m, &runs[i].measured));
        i = i + 1;
    }
    out
}

fn names_of_columns(runs: &Vec<Run>, columns: &Vec<Vec<Column>>) -> (r: Vec<String>)
    requires
        columns@.len() == runs@.len(),
        forall|i: int|
            0 <= i < runs@.len() ==> column_views((#[trigger] columns@[i])@) == runs@[i].columns(),
    ensures
        views(r@) == listed_names(runs@, runs@.len()),
{
    let mut out: Vec<String> = Vec::new();
    let mut i: usize = 0;
    assert(views(out@) =~= listed_names(runs@, 0));
    while i < runs.len()
        invariant
            i <= runs@.len(),
            columns@.len() == runs@.len(),
            forall|k: int|
                0 <= k < runs@.len() ==> column_views((#[trigger] columns@[k])@)
                    == runs@[k].columns(),
            views(out@) == listed_names(runs@, i as nat),
        decreases runs@.len() - i,
    {
        let c = &columns[i];
        let ghost names = column_names(column_views(c@));
        let ghost before = views(out@);
        assert(column_views(columns@[i as int]@) == runs@[i as int].columns());
        let mut j: usize = 0;
        assert(before + names.take(0) =~= before);
        while j < c.len()
            invariant
                j <= c@.len(),
                names == column_names(column_views(c@)),
                views(out@) == before + names.take(j as int),
            decreases c@.len() - j,
        {
            push_text(&mut out, c[j].name.clone());
            proof {
                assert(names[j as int] == c@[j as int].name@);
                assert(names.take(j + 1) =~= names.take(j as int).push(names[j as int]));
                assert(views(out@) =~= before + names.take(j + 1));
            }
            j = j + 1;
        }
        assert(names.take(j as int) =~= names);
        i = i + 1;
    }
    out
}

fn unique_names(names: &Vec<String>) -> (r: Vec<String>)
    ensures
        views(r@) == first_seen(views(names@), names@.len()),
{
    let ghost all = views(names@);
    let mut out: Vec<String> = Vec::new();
    let mut i: usize = 0;
    assert(views(out@) =~= first_seen(all, 0));
    while i < names.len()
        invariant
            i <= names@.len(),
            all == views(names@),
            views(out@) == first_seen(all, i as nat),
        decreases names@.len() - i,
    {
        assert(all[i as int] == names@[i as int]@);
        if !has_text(&out, names[i].as_str()) {
            push_text(&mut out, names[i].clone());
        }
        i = i + 1;
    }
    out
}

fn find_column(c: &Vec<Column>, name: &str) -> (r: usize)
    ensures
        r <= c@.len(),
        column_named(column_views(c@), name@, 0) == if r < c@.len() {
            Some(c@[r as int]@)
        } else {
            None
        },
{
    let ghost s = column_views(c@);
    let mut i: usize = 0;
    while i < c.len() && !same(c[i].name.as_str(), name)
        invariant
            i <= c@.len(),
            s == column_views(c@),
            column_named(s, name@, 0) == column_named(s, name@, i as nat),
        decreases c@.len() - i,
    {
        assert(s[i as int] == c@[i as int]@);
        i = i + 1;
    }
    if i < c.len() {
        assert(s[i as int] == c@[i as int]@);
    }
    i
}

fn cell_of(v: Option<String>) -> (r: String)
    ensures
        r@ == cell_text(shown(v)),
{
    match v {
        Some(s) => s,
        None => "—".to_owned(),
    }
}

fn cell_html(c: &Column) -> (r: String)
    ensures
        r@ == outcome_cell(Some(c@)),
{
    let num = match &c.cell.num {
        Some(n) => {
            let mut s = cat(" data-num=\"", n.as_str());
            s.append("\"");
            s
        },
        None => "".to_owned(),
    };
    let mut s = cat("<td", num.as_str());
    s.append(">");
    s.append(esc(c.cell.display.as_str()).as_str());
    s.append("</td>");
    s
}

fn row_of(run: &Run, columns: &Vec<Column>, deltas: &Vec<String>, names: &Vec<String>) -> (r: (
    String,
    String,
))
    requires
        run.valid(),
        column_views(columns@) == run.columns(),
    ensures
        r.0@ == run_row(*run, views(deltas@), views(names@)),
        r.1@ == run_line(*run, views(deltas@), views(names@)),
{
    let ghost dv = views(deltas@);
    let ghost nv = views(names@);
    let label = run.dataset.run_label();
    let mut row = cat("<tr><td>", esc(label.as_str()).as_str());
    row.append("</td>");
    let mut cells = String::new();
    let mut fields = String::new();
    let mut i: usize = 0;
    while i < deltas.len()
        invariant
            i <= deltas@.len(),
            run.valid(),
            dv == views(deltas@),
            cells@ == delta_cells(*run, dv, i as nat),
            fields@ == delta_fields(*run, dv, i as nat),
        decreases deltas@.len() - i,
    {
        assert(dv[i as int] == deltas@[i as int]@);
        let shown_value = run.dataset.run.display(deltas[i].as_str());
        assert(shown(shown_value) == run.setting(dv[i as int]));
        let v = cell_of(shown_value);
        cells.append("<td class=\"delta\">");
        cells.append(esc(v.as_str()).as_str());
        cells.append("</td>");
        fields.append(",");
        fields.append(without_commas(v.as_str()).as_str());
        i = i + 1;
    }
    let mut outs = String::new();
    let mut out_fields = String::new();
    let mut j: usize = 0;
    while j < names.len()
        invariant
            j <= names@.len(),
            nv == views(names@),
            column_views(columns@) == run.columns(),
            outs@ == outcome_cells(run.columns(), nv, j as nat),
            out_fields@ == outcome_fields(run.columns(), nv, j as nat),
        decreases names@.len() - j,
    {
        assert(nv[j as int] == names@[j as int]@);
        let k: usize = find_column(columns, names[j].as_str());
        out_fields.append(",");
        if k < columns.len() {
            outs.append(cell_html(&columns[k]).as_str());
            out_fields.append(without_commas(columns[k].cell.display.as_str()).as_str());
        } else {
            outs.append("<td>—</td>");
            out_fields.append("");
        }
        j = j + 1;
    }
    row.append(cells.as_str());
    row.append(outs.as_str());
    row.append("</tr>");
    let mut line = without_commas(label.as_str());
    line.append(fields.as_str());
    line.append(out_fields.as_str());
    line.append("\n");
    (row, line)
}

fn header_texts(open_tag: &str, names: &Vec<String>) -> (r: String)
    ensures
        r@ == headers(open_tag@, views(names@), names@.len()),
{
    let ghost nv = views(names@);
    let mut out = String::new();
    let mut i: usize = 0;
    while i < names.len()
        invariant
            i <= names@.len(),
            nv == views(names@),
            out@ == headers(open_tag@, nv, i as nat),
        decreases names@.len() - i,
    {
        assert(nv[i as int] == names@[i as int]@);
        out.append(open_tag);
        out.append(esc(names[i].as_str()).as_str());
        out.append("</th>");
        i = i + 1;
    }
    out
}

fn comma_texts(names: &Vec<String>) -> (r: String)
    ensures
        r@ == comma_names(views(names@), names@.len()),
{
    let ghost nv = views(names@);
    let mut out = String::new();
    let mut i: usize = 0;
    while i < names.len()
        invariant
            i <= names@.len(),
            nv == views(names@),
            out@ == comma_names(nv, i as nat),
        decreases names@.len() - i,
    {
        assert(nv[i as int] == names@[i as int]@);
        out.append(",");
        out.append(names[i].as_str());
        i = i + 1;
    }
    out
}

fn summary_text(deltas: &Vec<String>) -> (r: String)
    ensures
        r@ == delta_summary(views(deltas@)),
{
    let ghost dv = views(deltas@);
    let n: usize = deltas.len();
    if n == 0 {
        return NO_DELTAS.to_owned();
    }
    let mut out: Vec<String> = Vec::new();
    let mut i: usize = 0;
    while i < deltas.len()
        invariant
            i <= deltas@.len(),
            out@.len() == i,
            forall|j: int| 0 <= j < i ==> (#[trigger] out@[j])@ == escaped(deltas@[j]@),
        decreases deltas@.len() - i,
    {
        out.push(esc(deltas[i].as_str()));
        i = i + 1;
    }
    assert(views(out@) =~= escaped_all(dv));
    let keys = join(&out, "</code>, <code>");
    if n == 1 {
        changes(1, "", "s", keys.as_str())
    } else {
        changes(n as u64, "s", "", keys.as_str())
    }
}

fn shared_texts(run: &Run, keys: &Vec<String>) -> (r: String)
    requires
        run.valid(),
    ensures
        r@ == shared_rows(*run, views(keys@), keys@.len()),
{
    let ghost kv = views(keys@);
    let mut out = String::new();
    let mut i: usize = 0;
    while i < keys.len()
        invariant
            i <= keys@.len(),
            run.valid(),
            kv == views(keys@),
            out@ == shared_rows(*run, kv, i as nat),
        decreases keys@.len() - i,
    {
        assert(kv[i as int] == keys@[i as int]@);
        let shown_value = run.dataset.run.display(keys[i].as_str());
        assert(shown(shown_value) == run.setting(kv[i as int]));
        let v = cell_of(shown_value);
        let key = esc(keys[i].as_str());
        out.append(pair_row(key.as_str(), esc(v.as_str()).as_str()).as_str());
        i = i + 1;
    }
    out
}

fn note_text(run: &Run, keys: &Vec<String>) -> (r: String)
    requires
        run.valid(),
    ensures
        r@ == note_line(delta_notes(*run, views(keys@), keys@.len())),
{
    let ghost kv = views(keys@);
    let mut out: Vec<String> = Vec::new();
    let mut i: usize = 0;
    assert(views(out@) =~= delta_notes(*run, kv, 0));
    while i < keys.len()
        invariant
            i <= keys@.len(),
            run.valid(),
            kv == views(keys@),
            views(out@) == delta_notes(*run, kv, i as nat),
        decreases keys@.len() - i,
    {
        assert(kv[i as int] == keys@[i as int]@);
        let shown_value = run.dataset.run.display(keys[i].as_str());
        assert(shown(shown_value) == run.setting(kv[i as int]));
        match shown_value {
            Some(v) => {
                let mut s = cat(keys[i].as_str(), " ");
                s.append(v.as_str());
                push_text(&mut out, s);
            },
            None => {},
        }
        i = i + 1;
    }
    assert(views(out@).len() == out@.len());
    if out.len() == 0 {
        "(identical settings)".to_owned()
    } else {
        join(&out, " · ")
    }
}

fn legend_text(runs: &Vec<Run>, deltas: &Vec<String>) -> (r: String)
    requires
        all_valid(runs@),
    ensures
        r@ == legend_upto(runs@, views(deltas@), runs@.len()) + "</div>"@,
{
    let mut out = "<div class=\"legend\">".to_owned();
    let mut i: usize = 0;
    while i < runs.len()
        invariant
            i <= runs@.len(),
            all_valid(runs@),
            out@ == legend_upto(runs@, views(deltas@), i as nat),
        decreases runs@.len() - i,
    {
        assert(runs@[i as int].valid());
        let label = esc(runs[i].dataset.run_label().as_str());
        let note = esc(note_text(&runs[i], deltas).as_str());
        assert(views(deltas@).len() == deltas@.len());
        out.append(legend_entry(series_var(i), label.as_str(), note.as_str()).as_str());
        i = i + 1;
    }
    out.append("</div>");
    out
}

fn ground_track_text(data: &Vec<Datum>, vehicle: &str) -> (r: String)
    ensures
        r@ == json_list(ground_track(datum_views(data@), vehicle@, data@.len())),
{
    let ghost dv = datum_views(data@);
    let mut out: Vec<String> = Vec::new();
    let mut i: usize = 0;
    assert(views(out@) =~= ground_track(dv, vehicle@, 0));
    while i < data.len()
        invariant
            i <= data@.len(),
            dv == datum_views(data@),
            views(out@) == ground_track(dv, vehicle@, i as nat),
        decreases data@.len() - i,
    {
        let d = &data[i];
        assert(dv[i as int] == d@);
        if is_telemetry_of(d, vehicle) {
            match (sample_figure(d, "lat_deg"), sample_figure(d, "lon_deg")) {
                (Some(lat), Some(lon)) => {
                    let mut s = cat("[", lat.json.as_str());
                    s.append(",");
                    s.append(lon.json.as_str());
                    s.append("]");
                    push_text(&mut out, s);
                },
                _ => {},
            }
        }
        i = i + 1;
    }
    list_text(&out)
}

fn overlay_text(run: &Run) -> (r: String)
    ensures
        r@ == overlay_of(*run),
{
    let data = &run.dataset.data;
    let ghost dv = run.dataset.data();
    let vehicles = run.dataset.vehicles();
    let mut tracks: Vec<String> = Vec::new();
    let mut i: usize = 0;
    while i < vehicles.len()
        invariant
            i <= vehicles@.len(),
            dv == datum_views(data@),
            tracks@.len() == i,
            forall|j: int|
                0 <= j < i ==> (#[trigger] tracks@[j])@ == json_list(
                    ground_track(dv, vehicles@[j]@, dv.len()),
                ),
        decreases vehicles@.len() - i,
    {
        tracks.push(ground_track_text(data, vehicles[i].as_str()));
        i = i + 1;
    }
    assert(views(tracks@) =~= ground_tracks(dv, views(vehicles@)));
    overlay_run(
        quote(run.dataset.run_label().as_str()).as_str(),
        list_text(&tracks).as_str(),
        list_text(&quote_all(&vehicles)).as_str(),
    )
}

fn all_run_citations(runs: &Vec<Run>) -> (r: Vec<Citation>)
    ensures
        citation_views(r@) == cited_runs(runs@),
{
    let mut out: Vec<Citation> = Vec::new();
    let mut i: usize = 0;
    assert(citation_views(out@) =~= sorted_citations(listed_citations(runs@, 0)));
    while i < runs.len()
        invariant
            i <= runs@.len(),
            citation_views(out@) == sorted_citations(listed_citations(runs@, i as nat)),
        decreases runs@.len() - i,
    {
        let own = runs[i].dataset.all_citations();
        let ghost before = listed_citations(runs@, i as nat);
        let ghost more = citation_views(own@);
        let mut j: usize = 0;
        assert(before + more.take(0) =~= before);
        while j < own.len()
            invariant
                j <= own@.len(),
                more == citation_views(own@),
                citation_views(out@) == sorted_citations(before + more.take(j as int)),
            decreases own@.len() - j,
        {
            proof {
                let s = before + more.take(j as int);
                lemma_citation_order();
                distinct_items_rise(s, citation_order());
                let t = before + more.take(j + 1);
                assert(t.drop_last() =~= s);
                assert(t.last() == own@[j as int]@);
            }
            place_citation(&mut out, own[j].clone());
            j = j + 1;
        }
        assert(more.take(j as int) =~= more);
        i = i + 1;
    }
    out
}

/// Render `compare.html` from runs, two or more as a rule.
pub fn render(runs: &Vec<Run>) -> (r: RenderedArtifact)
    requires
        all_valid(runs@),
    ensures
        r.html@ == compare_of(runs@),
        citation_views(r.citations@) == cited_runs(runs@),
{
    let parted = part_settings(runs);
    let columns = columns_of_runs(runs);
    let names = unique_names(&names_of_columns(runs, &columns));
    let ghost dv = views(parted.deltas@);
    let ghost sv = views(parted.shared@);
    let ghost nv = views(names@);
    assert(dv.len() == parted.deltas@.len());
    assert(sv.len() == parted.shared@.len());
    assert(nv.len() == names@.len());

    let n_names: u64 = if names.len() == 0 {
        1
    } else {
        names.len() as u64
    };
    let group = if parted.deltas.len() == 0 {
        one_group(n_names)
    } else {
        both_groups(parted.deltas.len() as u64, n_names)
    };
    let mut header = "<tr class=\"cols\"><th>run</th>".to_owned();
    header.append(header_texts("<th class=\"delta\">", &parted.deltas).as_str());
    header.append(header_texts("<th>", &names).as_str());
    header.append("</tr>");
    let mut csv = "run".to_owned();
    csv.append(comma_texts(&parted.deltas).as_str());
    csv.append(comma_texts(&names).as_str());
    csv.append("\n");

    let mut rows = String::new();
    let mut lines = String::new();
    let mut drawers = String::new();
    let mut overlay: Vec<String> = Vec::new();
    let mut i: usize = 0;
    while i < runs.len()
        invariant
            i <= runs@.len(),
            all_valid(runs@),
            columns@.len() == runs@.len(),
            forall|k: int|
                0 <= k < runs@.len() ==> column_views((#[trigger] columns@[k])@)
                    == runs@[k].columns(),
            dv == views(parted.deltas@),
            nv == views(names@),
            rows@ == run_rows(runs@, dv, nv, i as nat),
            lines@ == run_lines(runs@, dv, nv, i as nat),
            drawers@ == run_drawers(runs@, i as nat),
            overlay@.len() == i,
            forall|j: int| 0 <= j < i ==> (#[trigger] overlay@[j])@ == overlay_of(runs@[j]),
        decreases runs@.len() - i,
    {
        let run = &runs[i];
        assert(runs@[i as int].valid());
        assert(column_views(columns@[i as int]@) == runs@[i as int].columns());
        let pair = row_of(run, &columns[i], &parted.deltas, &names);
        rows.append(pair.0.as_str());
        lines.append(pair.1.as_str());
        let own = run.dataset.all_citations();
        let name = cat("run ", run.dataset.run_label().as_str());
        drawers.append(prov_drawer(name.as_str(), &own).as_str());
        overlay.push(overlay_text(run));
        i = i + 1;
    }
    assert(views(overlay@) =~= overlays(runs@));
    csv.append(lines.as_str());
    assert(csv@ == table_text(runs@, dv, nv));

    let shared_table = if runs.len() > 0 {
        assert(runs@[0].valid());
        shared_texts(&runs[0], &parted.shared)
    } else {
        assert(all_keys_of(runs@) =~= Seq::empty());
        String::new()
    };
    assert(shared_table@ == shared_rows(runs@[0], sv, sv.len()));
    let all = all_run_citations(runs);
    assert(citation_views(all@).len() == all@.len());
    let body = compare_body(
        runs.len() as u64,
        all.len() as u64,
        summary_text(&parted.deltas).as_str(),
        parted.shared.len() as u64,
        shared_table.as_str(),
        percent_encode(csv.as_str()).as_str(),
        group.as_str(),
        header.as_str(),
        rows.as_str(),
        legend_text(runs, &parted.deltas).as_str(),
        drawers.as_str(),
        list_text(&overlay).as_str(),
    );
    RenderedArtifact {
        html: page("Run comparison", COMPARE_STYLE, body.as_str()),
        citations: all,
    }
}

} // verus!
