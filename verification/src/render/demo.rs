//! The demo lens: a replayable mini-map that animates the mission from the
//! same telemetry that the report summarizes.

use vstd::prelude::*;

use crate::blocks::{citation_views, DatumKind};
use crate::dataset::{
    cited_blocks, datum_views, label_of, named_vehicles, shown, Datum, DatumView, MissionDataset,
};
use crate::json::{figure_of, quote, quoted, Figure, FigureView};
use crate::metrics::{is_telemetry_of, sample_field, sample_figure, telemetry_of};
use crate::render::report::push_text;
use crate::render::{
    assoc_line, assoc_text, drawer_of, esc, escaped, key_texts, page, page_of, prov_drawer,
    RenderedArtifact,
};
use crate::text::{cat, dec, dec_text, join, joined, same, views};
use crate::text_map::sorted_texts;

verus! {

/// Stylesheet of the demo.
pub const DEMO_STYLE: &'static str = r#"
.map-wrap { background: var(--surface); border: 1px solid var(--border);
            border-radius: 8px; padding: 10px; }
canvas { width: 100%; height: 420px; display: block; border-radius: 4px; }
.controls { display: flex; gap: 10px; align-items: center; margin-top: 10px;
            flex-wrap: wrap; }
.controls button, .controls select {
  font: inherit; background: var(--page); color: var(--ink);
  border: 1px solid var(--line); border-radius: 6px; padding: 4px 12px; cursor: pointer; }
.controls input[type=range] { flex: 1; min-width: 160px; accent-color: var(--s1); }
.clock { font-variant-numeric: tabular-nums; color: var(--ink2); min-width: 88px; }
.ticker { margin-top: 10px; font-size: 13px; color: var(--ink2); min-height: 7.5em; }
.ticker div { border-bottom: 1px solid var(--grid); padding: 2px 0; }
.legend { display: flex; gap: 16px; font-size: 13px; color: var(--ink2); margin-top: 8px; }
.key-dot { display: inline-block; width: 10px; height: 10px; border-radius: 50%;
           vertical-align: middle; margin-right: 5px; }
"#;

/// Animation of the demo.
pub const DEMO_JS: &'static str = r#"
const cv = document.getElementById('map'), ctx = cv.getContext('2d');
const css = (n) => getComputedStyle(document.documentElement).getPropertyValue(n).trim();
const SERIES = ['--s1','--s2','--s3','--s5','--s6','--s4'];
const MLAT = 111320;
let bounds = null;
for (const tr of DATA.tracks) for (const p of tr) {
  if (!bounds) bounds = { la0: p[1], la1: p[1], lo0: p[2], lo1: p[2] };
  bounds.la0 = Math.min(bounds.la0, p[1]); bounds.la1 = Math.max(bounds.la1, p[1]);
  bounds.lo0 = Math.min(bounds.lo0, p[2]); bounds.lo1 = Math.max(bounds.lo1, p[2]);
}
if (!bounds) bounds = { la0: 0, la1: 0.001, lo0: 0, lo1: 0.001 };
const clat = (bounds.la0 + bounds.la1) / 2, clon = (bounds.lo0 + bounds.lo1) / 2;
const mlon = MLAT * Math.cos(clat * Math.PI / 180);
function resize() {
  const r = cv.getBoundingClientRect();
  cv.width = r.width * devicePixelRatio; cv.height = r.height * devicePixelRatio;
}
addEventListener('resize', () => { resize(); draw(); });
resize();
function proj(lat, lon) {
  const wm = Math.max((bounds.la1 - bounds.la0) * MLAT, (bounds.lo1 - bounds.lo0) * mlon, 20);
  const mppx = wm * 1.3 / Math.min(cv.width, cv.height);
  return [cv.width / 2 + (lon - clon) * mlon / mppx,
          cv.height / 2 - (lat - clat) * MLAT / mppx, mppx];
}
let clock = 0, playing = false, speed = 1, last = null;
const dur = Math.max(DATA.dur, 1);
const fmt = (s) => String(Math.floor(s / 60)).padStart(2, '0') + ':' + String(Math.floor(s % 60)).padStart(2, '0');
function draw() {
  ctx.fillStyle = css('--surface'); ctx.fillRect(0, 0, cv.width, cv.height);
  // 50 m grid.
  const [ox, oy, mppx] = proj(clat, clon);
  const step = 50 / mppx;
  ctx.strokeStyle = css('--grid'); ctx.lineWidth = 1;
  for (let x = ox % step; x < cv.width; x += step) {
    ctx.beginPath(); ctx.moveTo(x, 0); ctx.lineTo(x, cv.height); ctx.stroke(); }
  for (let y = oy % step; y < cv.height; y += step) {
    ctx.beginPath(); ctx.moveTo(0, y); ctx.lineTo(cv.width, y); ctx.stroke(); }
  ctx.fillStyle = css('--muted');
  ctx.font = (11 * devicePixelRatio) + 'px system-ui';
  ctx.fillText('grid 50 m', 10 * devicePixelRatio, cv.height - 10 * devicePixelRatio);
  DATA.tracks.forEach((tr, i) => {
    const color = css(SERIES[i % SERIES.length]);
    ctx.strokeStyle = color; ctx.lineWidth = 2 * devicePixelRatio;
    ctx.lineJoin = ctx.lineCap = 'round';
    ctx.beginPath();
    let lastP = null;
    for (const p of tr) {
      if (p[0] > clock) break;
      const [x, y] = proj(p[1], p[2]);
      if (lastP === null) ctx.moveTo(x, y); else ctx.lineTo(x, y);
      lastP = p;
    }
    ctx.stroke();
    if (lastP) {
      const [x, y] = proj(lastP[1], lastP[2]);
      ctx.beginPath(); ctx.arc(x, y, 6 * devicePixelRatio, 0, 7);
      ctx.fillStyle = color; ctx.fill();
      ctx.lineWidth = 2 * devicePixelRatio; ctx.strokeStyle = css('--surface'); ctx.stroke();
      ctx.fillStyle = css('--ink2');
      ctx.fillText(DATA.vehicles[i] + ' · ' + lastP[3].toFixed(1) + ' m',
                   x + 10 * devicePixelRatio, y - 8 * devicePixelRatio);
    }
  });
}
function tick(ts) {
  if (playing) {
    if (last !== null) clock = Math.min(dur, clock + (ts - last) / 1000 * speed);
    last = ts;
    if (clock >= dur) { playing = false; btn.textContent = 'play'; }
  } else last = ts;
  scrub.value = clock / dur * 1000;
  clockEl.textContent = fmt(clock) + ' / ' + fmt(dur);
  const seen = DATA.events.filter(e => e[0] <= clock).slice(-6);
  ticker.innerHTML = seen.map(e =>
    '<div>' + fmt(e[0]) + ' · ' + (e[1] >= 0 ? DATA.vehicles[e[1]] : 'fleet') + ' · ' + e[2] + '</div>'
  ).join('');
  draw();
  requestAnimationFrame(tick);
}
const btn = document.getElementById('play'), scrub = document.getElementById('scrub'),
      clockEl = document.getElementById('clock'), ticker = document.getElementById('ticker'),
      speedSel = document.getElementById('speed');
btn.onclick = () => { if (clock >= dur) clock = 0; playing = !playing; btn.textContent = playing ? 'pause' : 'play'; };
speedSel.onchange = () => speed = Number(speedSel.value);
scrub.oninput = () => { clock = scrub.value / 1000 * dur; };
const legend = document.getElementById('legend');
legend.innerHTML = DATA.vehicles.map((v, i) =>
  '<span><span class="key-dot" style="background:var(' + SERIES[i % SERIES.length] + ')"></span>' + v + '</span>'
).join('');
requestAnimationFrame(tick);
"#;

/// The first `n` texts as JSON spells them.
pub open spec fn quoted_texts(s: Seq<Seq<char>>) -> Seq<Seq<char>> {
    s.map_values(|t: Seq<char>| quoted(t))
}

/// A JSON list of spelled items.
pub open spec fn json_list(items: Seq<Seq<char>>) -> Seq<char> {
    "["@ + joined(items, ","@, items.len()) + "]"@
}

/// A JSON list of spelled items.
pub(crate) fn list_text(items: &Vec<String>) -> (r: String)
    ensures
        r@ == json_list(views(items@)),
{
    assert(views(items@).len() == items@.len());
    let mut s = cat("[", join(items, ",").as_str());
    s.append("]");
    s
}

/// Texts as JSON spells them.
pub(crate) fn quote_all(v: &Vec<String>) -> (r: Vec<String>)
    ensures
        views(r@) == quoted_texts(views(v@)),
{
    let mut out: Vec<String> = Vec::new();
    let mut i: usize = 0;
    while i < v.len()
        invariant
            i <= v@.len(),
            out@.len() == i,
            forall|j: int| 0 <= j < i ==> (#[trigger] out@[j])@ == quoted(v@[j]@),
        decreases v@.len() - i,
    {
        out.push(quote(v[i].as_str()));
        i = i + 1;
    }
    assert(views(out@) =~= quoted_texts(views(v@)));
    out
}

/// The track point of a sample at a spelled time.
pub open spec fn track_point(
    t: Seq<char>,
    lat: FigureView,
    lon: FigureView,
    agl: Option<FigureView>,
) -> Seq<char> {
    "["@ + t + ","@ + lat.json + ","@ + lon.json + ","@ + (match agl {
        Some(f) => f.json,
        None => "0.0"@,
    }) + "]"@
}

/// The track of a vehicle: its samples with a position, at spelled times,
/// among the first `n` data.
pub open spec fn track_points(
    data: Seq<DatumView>,
    times: Seq<Seq<char>>,
    vehicle: Seq<char>,
    n: nat,
) -> Seq<Seq<char>>
    decreases n,
{
    if n == 0 || n > data.len() {
        Seq::empty()
    } else {
        let d = data[n - 1];
        let before = track_points(data, times, vehicle, (n - 1) as nat);
        let lat = figure_of(sample_field(d, "lat_deg"@));
        let lon = figure_of(sample_field(d, "lon_deg"@));
        if telemetry_of(d, vehicle) && lat is Some && lon is Some {
            before.push(
                track_point(times[n - 1], lat->0, lon->0, figure_of(sample_field(d, "agl_m"@))),
            )
        } else {
            before
        }
    }
}

/// The tracks of vehicles.
pub open spec fn tracks_of(
    data: Seq<DatumView>,
    times: Seq<Seq<char>>,
    vehicles: Seq<Seq<char>>,
) -> Seq<Seq<char>> {
    vehicles.map_values(|v: Seq<char>| json_list(track_points(data, times, v, data.len())))
}

/// Whether a datum is an event of the replay.
pub open spec fn replayed(d: DatumView) -> bool {
    (d.kind == DatumKind::Coord || d.kind == DatumKind::Service || d.kind == DatumKind::Rtl
        || d.kind == DatumKind::Event) && d.label != "run.config"@
}

/// First position of a text in a list from `i` on, or the list's length.
pub open spec fn text_place(s: Seq<Seq<char>>, t: Seq<char>, i: nat) -> nat
    decreases s.len() - i,
{
    if i >= s.len() {
        s.len()
    } else if s[i as int] == t {
        i
    } else {
        text_place(s, t, i + 1)
    }
}

/// The number of a vehicle in the replay; -1 for none.
pub open spec fn vehicle_number(vehicles: Seq<Seq<char>>, v: Option<Seq<char>>) -> Seq<char> {
    match v {
        Some(t) => if text_place(vehicles, t, 0) < vehicles.len() {
            dec_text(text_place(vehicles, t, 0))
        } else {
            "-1"@
        },
        None => "-1"@,
    }
}

/// The events of the replay among the first `n` data.
pub open spec fn replay_events(
    data: Seq<DatumView>,
    times: Seq<Seq<char>>,
    vehicles: Seq<Seq<char>>,
    n: nat,
) -> Seq<Seq<char>>
    decreases n,
{
    if n == 0 || n > data.len() {
        Seq::empty()
    } else {
        let d = data[n - 1];
        let before = replay_events(data, times, vehicles, (n - 1) as nat);
        if replayed(d) {
            before.push(
                "["@ + times[n - 1] + ","@ + vehicle_number(vehicles, d.vehicle) + ","@ + quoted(
                    d.label,
                ) + "]"@,
            )
        } else {
            before
        }
    }
}

/// The replay data around its parts.
pub open spec fn replay_html(
    dur: Seq<char>,
    events: Seq<char>,
    tracks: Seq<char>,
    vehicles: Seq<char>,
) -> Seq<char> {
    "{\"dur\":"@
        + dur
        + ",\"events\":"@
        + events
        + ",\"tracks\":"@
        + tracks
        + ",\"vehicles\":"@
        + vehicles
        + "}"@
}

fn replay(dur: &str, events: &str, tracks: &str, vehicles: &str) -> (r: String)
    ensures
        r@ == replay_html(dur@, events@, tracks@, vehicles@),
{
    let mut s = "{\"dur\":".to_owned();
    s.append(dur);
    s.append(",\"events\":");
    s.append(events);
    s.append(",\"tracks\":");
    s.append(tracks);
    s.append(",\"vehicles\":");
    s.append(vehicles);
    s.append("}");
    s
}

/// The replay data that the page embeds.
pub open spec fn replay_of(
    data: Seq<DatumView>,
    times: Seq<Seq<char>>,
    duration: Seq<char>,
) -> Seq<char> {
    let vehicles = sorted_texts(named_vehicles(data, data.len()));
    replay_html(
        duration,
        json_list(replay_events(data, times, vehicles, data.len())),
        json_list(tracks_of(data, times, vehicles)),
        json_list(quoted_texts(vehicles)),
    )
}

fn place_of(v: &Vec<String>, t: &str) -> (r: usize)
    ensures
        r == text_place(views(v@), t@, 0),
        r <= v@.len(),
{
    let ghost s = views(v@);
    let mut i: usize = 0;
    while i < v.len() && !same(v[i].as_str(), t)
        invariant
            i <= v@.len(),
            s == views(v@),
            text_place(s, t@, 0) == text_place(s, t@, i as nat),
        decreases v@.len() - i,
    {
        assert(s[i as int] == v@[i as int]@);
        i = i + 1;
    }
    if i < v.len() {
        assert(s[i as int] == v@[i as int]@);
    }
    i
}

fn number_text(vehicles: &Vec<String>, v: &Option<String>) -> (r: String)
    ensures
        r@ == vehicle_number(views(vehicles@), shown(*v)),
{
    match v {
        Some(t) => {
            let i: usize = place_of(vehicles, t.as_str());
            assert(views(vehicles@).len() == vehicles@.len());
            if i < vehicles.len() {
                dec(i as u64)
            } else {
                "-1".to_owned()
            }
        },
        None => "-1".to_owned(),
    }
}

fn point_text(t: &str, lat: &Figure, lon: &Figure, agl: &Option<Figure>) -> (r: String)
    ensures
        r@ == track_point(t@, lat@, lon@, crate::json::seen(*agl)),
{
    let mut s = cat("[", t);
    s.append(",");
    s.append(lat.json.as_str());
    s.append(",");
    s.append(lon.json.as_str());
    s.append(",");
    match agl {
        Some(f) => s.append(f.json.as_str()),
        None => s.append("0.0"),
    }
    s.append("]");
    s
}

fn track_text(data: &Vec<Datum>, times: &Vec<String>, vehicle: &str) -> (r: String)
    requires
        times@.len() == data@.len(),
    ensures
        r@ == json_list(
            track_points(datum_views(data@), views(times@), vehicle@, data@.len()),
        ),
{
    let ghost dv = datum_views(data@);
    let ghost tv = views(times@);
    let mut out: Vec<String> = Vec::new();
    let mut i: usize = 0;
    assert(views(out@) =~= track_points(dv, tv, vehicle@, 0));
    while i < data.len()
        invariant
            i <= data@.len(),
            times@.len() == data@.len(),
            dv == datum_views(data@),
            tv == views(times@),
            views(out@) == track_points(dv, tv, vehicle@, i as nat),
        decreases data@.len() - i,
    {
        let d = &data[i];
        assert(dv[i as int] == d@);
        assert(tv[i as int] == times@[i as int]@);
        if is_telemetry_of(d, vehicle) {
            match (sample_figure(d, "lat_deg"), sample_figure(d, "lon_deg")) {
                (Some(lat), Some(lon)) => {
                    let agl = sample_figure(d, "agl_m");
                    push_text(&mut out, point_text(times[i].as_str(), &lat, &lon, &agl));
                },
                _ => {},
            }
        }
        i = i + 1;
    }
    list_text(&out)
}

fn event_texts(data: &Vec<Datum>, times: &Vec<String>, vehicles: &Vec<String>) -> (r: Vec<String>)
    requires
        times@.len() == data@.len(),
    ensures
        views(r@) == replay_events(
            datum_views(data@),
            views(times@),
            views(vehicles@),
            data@.len(),
        ),
{
    let ghost dv = datum_views(data@);
    let ghost tv = views(times@);
    let ghost vv = views(vehicles@);
    let mut out: Vec<String> = Vec::new();
    let mut i: usize = 0;
    assert(views(out@) =~= replay_events(dv, tv, vv, 0));
    while i < data.len()
        invariant
            i <= data@.len(),
            times@.len() == data@.len(),
            dv == datum_views(data@),
            tv == views(times@),
            vv == views(vehicles@),
            views(out@) == replay_events(dv, tv, vv, i as nat),
        decreases data@.len() - i,
    {
        let d = &data[i];
        assert(dv[i as int] == d@);
        assert(tv[i as int] == times@[i as int]@);
        if (d.kind == DatumKind::Coord || d.kind == DatumKind::Service || d.kind == DatumKind::Rtl
            || d.kind == DatumKind::Event) && !same(d.label.as_str(), "run.config") {
            let mut s = cat("[", times[i].as_str());
            s.append(",");
            s.append(number_text(vehicles, &d.vehicle).as_str());
            s.append(",");
            s.append(quote(d.label.as_str()).as_str());
            s.append("]");
            push_text(&mut out, s);
        }
        i = i + 1;
    }
    out
}

/// The replay data of a run: `times` spells each datum's seconds since the
/// start, `duration` those of the last.
pub fn replay_data(ds: &MissionDataset, times: &Vec<String>, duration: &str) -> (r: String)
    requires
        times@.len() == ds.data@.len(),
    ensures
        r@ == replay_of(ds.data(), views(times@), duration@),
{
    let ghost dv = ds.data();
    let ghost tv = views(times@);
    let vehicles = ds.vehicles();
    let ghost vv = views(vehicles@);
    let events = event_texts(&ds.data, times, &vehicles);
    let mut tracks: Vec<String> = Vec::new();
    let mut i: usize = 0;
    while i < vehicles.len()
        invariant
            i <= vehicles@.len(),
            times@.len() == ds.data@.len(),
            dv == ds.data(),
            tv == views(times@),
            tracks@.len() == i,
            forall|j: int|
                0 <= j < i ==> (#[trigger] tracks@[j])@ == json_list(
                    track_points(dv, tv, vehicles@[j]@, dv.len()),
                ),
        decreases vehicles@.len() - i,
    {
        tracks.push(track_text(&ds.data, times, vehicles[i].as_str()));
        i = i + 1;
    }
    assert(views(tracks@) =~= tracks_of(dv, tv, vv));
    replay(
        duration,
        list_text(&events).as_str(),
        list_text(&tracks).as_str(),
        list_text(&quote_all(&vehicles)).as_str(),
    )
}

/// The demo around its parts.
pub open spec fn demo_body_html(
    label: Seq<char>,
    assoc: Seq<char>,
    prov: Seq<char>,
    data: Seq<char>,
) -> Seq<char> {
    "<main><h1>Mission replay — "@
        + label
        + "</h1><p class=\"sub\">Animated from the same telemetry Blocks the report and \
         deck summarize — the third lens over the one dataset.</p>"@
        + assoc
        + "<div class=\"map-wrap\"><canvas id=\"map\"></canvas><div \
         class=\"controls\"><button id=\"play\">play</button><select \
         id=\"speed\"><option value=\"1\">1×</option><option value=\"4\" \
         selected>4×</option><option value=\"16\">16×</option></select><input \
         id=\"scrub\" type=\"range\" min=\"0\" max=\"1000\" value=\"0\"><span \
         class=\"clock\" id=\"clock\"></span></div><div class=\"legend\" \
         id=\"legend\"></div><div class=\"ticker\" id=\"ticker\"></div></div>"@
        + prov
        + "<p class=\"footer\">Rendered through a matched, authorized console binding \
         (artifact.demo). Provenance: hover nothing — open the drawer; every track \
         point cites its recording Block.</p></main><script>const DATA = "@
        + data
        + ";</script><script>"@
        + DEMO_JS@
        + "</script>"@
}

fn demo_body(label: &str, assoc: &str, prov: &str, data: &str) -> (r: String)
    ensures
        r@ == demo_body_html(label@, assoc@, prov@, data@),
{
    let mut s = "<main><h1>Mission replay — ".to_owned();
    s.append(label);
    s.append(
        "</h1><p class=\"sub\">Animated from the same telemetry Blocks the report and \
         deck summarize — the third lens over the one dataset.</p>",
    );
    s.append(assoc);
    s.append(
        "<div class=\"map-wrap\"><canvas id=\"map\"></canvas><div \
         class=\"controls\"><button id=\"play\">play</button><select \
         id=\"speed\"><option value=\"1\">1×</option><option value=\"4\" \
         selected>4×</option><option value=\"16\">16×</option></select><input \
         id=\"scrub\" type=\"range\" min=\"0\" max=\"1000\" value=\"0\"><span \
         class=\"clock\" id=\"clock\"></span></div><div class=\"legend\" \
         id=\"legend\"></div><div class=\"ticker\" id=\"ticker\"></div></div>",
    );
    s.append(prov);
    s.append(
        "<p class=\"footer\">Rendered through a matched, authorized console binding \
         (artifact.demo). Provenance: hover nothing — open the drawer; every track \
         point cites its recording Block.</p></main><script>const DATA = ",
    );
    s.append(data);
    s.append(";</script><script>");
    s.append(DEMO_JS);
    s.append("</script>");
    s
}

/// The settings that the replay is associated with.
pub open spec fn demo_keys() -> Seq<Seq<char>> {
    seq!["link_profile.name"@, "coord.grace_s"@, "coord.floor_agl_m"@, "fleet_ids"@]
}

fn demo_list() -> (r: Vec<&'static str>)
    ensures
        key_texts(r@) == demo_keys(),
{
    let mut v: Vec<&'static str> = Vec::new();
    v.push("link_profile.name");
    v.push("coord.grace_s");
    v.push("coord.floor_agl_m");
    v.push("fleet_ids");
    assert(key_texts(v@) =~= demo_keys());
    v
}

/// The association line in its paragraph; nothing for an empty one.
pub open spec fn assoc_paragraph(assoc: Seq<char>) -> Seq<char> {
    if assoc.len() == 0 {
        ""@
    } else {
        "<p class=\"assoc\">"@ + assoc + "</p>"@
    }
}

/// The demo of a run.
pub open spec fn demo_of(
    ds: MissionDataset,
    times: Seq<Seq<char>>,
    duration: Seq<char>,
) -> Seq<char> {
    let label = label_of(shown(ds.run.run_id), ds.blocks@);
    page_of(
        "Mission replay — "@ + label,
        DEMO_STYLE@,
        demo_body_html(
            escaped(label),
            assoc_paragraph(assoc_text(ds.run.settings, demo_keys(), false)),
            drawer_of("replay source blocks"@, cited_blocks(ds.blocks@)),
            replay_of(ds.data(), times, duration),
        ),
    )
}

/// Render `demo.html` from the one dataset.
pub fn render(ds: &MissionDataset, times: &Vec<String>, duration: &str) -> (r: RenderedArtifact)
    requires
        ds.valid(),
        times@.len() == ds.data@.len(),
    ensures
        r.html@ == demo_of(*ds, views(times@), duration@),
        citation_views(r.citations@) == cited_blocks(ds.blocks@),
{
    let label = ds.run_label();
    let all = ds.all_citations();
    let assoc = assoc_line(&ds.run, &demo_list(), false);
    let paragraph = if assoc.as_str().unicode_len() == 0 {
        "".to_owned()
    } else {
        let mut s = cat("<p class=\"assoc\">", assoc.as_str());
        s.append("</p>");
        s
    };
    let body = demo_body(
        esc(label.as_str()).as_str(),
        paragraph.as_str(),
        prov_drawer("replay source blocks", &all).as_str(),
        replay_data(ds, times, duration).as_str(),
    );
    let title = cat("Mission replay — ", label.as_str());
    RenderedArtifact { html: page(title.as_str(), DEMO_STYLE, body.as_str()), citations: all }
}

} // verus!
