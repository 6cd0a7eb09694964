//! Sensor facts on the capability profile. They ride the profile document as
//! one additional top-level key, which readers that do not know it ignore.
//! Every fact may be missing: a vehicle without a camera omits `camera`.

use vstd::prelude::*;

use crate::json::{
    count_of, field, field_in, figure_of, is_record, lemma_key_place, member, printed,
    printed_entries, printed_items, quoted, seen, Figure, FigureView, Json,
};
use crate::quantity::{real_zero, zero, INFINITE, SIGN};
use crate::text::dec_text;
use crate::text_map::{increasing, keys_of};

verus! {

/// Camera facts for field of view and range rings.
#[derive(Debug)]
pub struct CameraMeta {
    /// Horizontal field of view (degrees).
    pub hfov_deg: Figure,
    /// Detection, recognition and identification ranges (m); missing entries
    /// are not characterized.
    pub dri_m: Vec<Figure>,
    /// Frame width (pixels), 0 for unknown.
    pub width_px: u32,
    /// Frame height (pixels), 0 for unknown.
    pub height_px: u32,
}

/// One directional lobe of a microphone array.
#[derive(Debug)]
pub struct AudioLobe {
    /// Centre bearing from the vehicle's nose (degrees).
    pub bearing_deg: Figure,
    /// Full width (degrees).
    pub width_deg: Figure,
    /// Useful range along the lobe (m).
    pub range_m: Figure,
}

/// Microphone facts: lobes when the array reports them, else a circle.
#[derive(Debug)]
pub struct AudioMeta {
    /// Useful range in all directions (m).
    pub omni_range_m: Figure,
    /// Lobes; none means the circle.
    pub lobes: Vec<AudioLobe>,
}

/// The sensor facts of a vehicle.
#[derive(Debug)]
pub struct SensorMeta {
    pub camera: Option<CameraMeta>,
    pub audio: Option<AudioMeta>,
}

/// Camera facts by their values.
#[verifier::ext_equal]
pub struct CameraView {
    pub hfov_deg: FigureView,
    pub dri_m: Seq<FigureView>,
    pub width_px: u32,
    pub height_px: u32,
}

/// A lobe by its values.
#[verifier::ext_equal]
pub struct LobeView {
    pub bearing_deg: FigureView,
    pub width_deg: FigureView,
    pub range_m: FigureView,
}

/// Microphone facts by their values.
#[verifier::ext_equal]
pub struct AudioView {
    pub omni_range_m: FigureView,
    pub lobes: Seq<LobeView>,
}

/// Sensor facts by their values.
#[verifier::ext_equal]
pub struct MetaView {
    pub camera: Option<CameraView>,
    pub audio: Option<AudioView>,
}

/// Figures by their views.
pub open spec fn figures(v: Seq<Figure>) -> Seq<FigureView> {
    v.map_values(|f: Figure| f@)
}

/// Lobes by their views.
pub open spec fn lobe_views(v: Seq<AudioLobe>) -> Seq<LobeView> {
    v.map_values(|l: AudioLobe| l@)
}

impl View for CameraMeta {
    type V = CameraView;

    open spec fn view(&self) -> CameraView {
        CameraView {
            hfov_deg: self.hfov_deg@,
            dri_m: figures(self.dri_m@),
            width_px: self.width_px,
            height_px: self.height_px,
        }
    }
}

impl View for AudioLobe {
    type V = LobeView;

    open spec fn view(&self) -> LobeView {
        LobeView {
            bearing_deg: self.bearing_deg@,
            width_deg: self.width_deg@,
            range_m: self.range_m@,
        }
    }
}

impl View for AudioMeta {
    type V = AudioView;

    open spec fn view(&self) -> AudioView {
        AudioView { omni_range_m: self.omni_range_m@, lobes: lobe_views(self.lobes@) }
    }
}

impl View for SensorMeta {
    type V = MetaView;

    open spec fn view(&self) -> MetaView {
        MetaView {
            camera: match self.camera {
                Some(c) => Some(c@),
                None => None,
            },
            audio: match self.audio {
                Some(a) => Some(a@),
                None => None,
            },
        }
    }
}

impl SensorMeta {
    /// Whether nothing is advertised.
    pub fn is_empty(&self) -> (r: bool)
        ensures
            r == (self@.camera is None && self@.audio is None),
    {
        self.camera.is_none() && self.audio.is_none()
    }
}

/// The figure zero, which stands for a missing range.
pub open spec fn no_range() -> FigureView {
    FigureView { real: zero(), plain: "0"@, whole: "0"@, tenth: "0.0"@, json: "0.0"@ }
}

/// Figures that all of the first `n` values are; `None` where one is not.
pub open spec fn read_figures(s: Seq<Json>, n: nat) -> Option<Seq<FigureView>>
    decreases n,
{
    if n == 0 || n > s.len() {
        Some(Seq::empty())
    } else {
        match (read_figures(s, (n - 1) as nat), figure_of(Some(s[n - 1]))) {
            (Some(before), Some(f)) => Some(before.push(f)),
            _ => None,
        }
    }
}

/// A list of figures; a missing one is empty.
pub open spec fn read_figure_list(j: Option<Json>) -> Option<Seq<FigureView>> {
    match j {
        None => Some(Seq::empty()),
        Some(Json::List(v)) => read_figures(v@, v@.len()),
        Some(_) => None,
    }
}

/// A pixel count; a missing one is 0.
pub open spec fn read_pixels(j: Option<Json>) -> Option<u32> {
    match j {
        None => Some(0),
        Some(_) => match count_of(j) {
            Some(n) => if n <= u32::MAX {
                Some(n as u32)
            } else {
                None
            },
            None => None,
        },
    }
}

/// The camera facts that a value spells.
pub open spec fn read_camera(j: Json) -> Option<CameraView> {
    let hfov = figure_of(member(j, "hfov_deg"@, 0));
    let dri = read_figure_list(member(j, "dri_m"@, 1));
    let width = read_pixels(member(j, "width_px"@, 2));
    let height = read_pixels(member(j, "height_px"@, 3));
    if is_record(j, 4) && hfov is Some && dri is Some && width is Some && height is Some {
        Some(
            CameraView {
                hfov_deg: hfov->0,
                dri_m: dri->0,
                width_px: width->0,
                height_px: height->0,
            },
        )
    } else {
        None
    }
}

/// The lobe that a value spells.
pub open spec fn read_lobe(j: Json) -> Option<LobeView> {
    let bearing = figure_of(member(j, "bearing_deg"@, 0));
    let width = figure_of(member(j, "width_deg"@, 1));
    let range = figure_of(member(j, "range_m"@, 2));
    if is_record(j, 3) && bearing is Some && width is Some && range is Some {
        Some(LobeView { bearing_deg: bearing->0, width_deg: width->0, range_m: range->0 })
    } else {
        None
    }
}

/// Lobes that all of the first `n` values are; `None` where one is not.
pub open spec fn read_lobes(s: Seq<Json>, n: nat) -> Option<Seq<LobeView>>
    decreases n,
{
    if n == 0 || n > s.len() {
        Some(Seq::empty())
    } else {
        match (read_lobes(s, (n - 1) as nat), read_lobe(s[n - 1])) {
            (Some(before), Some(l)) => Some(before.push(l)),
            _ => None,
        }
    }
}

/// The microphone facts that a value spells.
pub open spec fn read_audio(j: Json) -> Option<AudioView> {
    let omni = match member(j, "omni_range_m"@, 0) {
        None => Some(no_range()),
        Some(v) => figure_of(Some(v)),
    };
    let lobes = match member(j, "lobes"@, 1) {
        None => Some(Seq::empty()),
        Some(Json::List(v)) => read_lobes(v@, v@.len()),
        Some(_) => None,
    };
    if is_record(j, 2) && omni is Some && lobes is Some {
        Some(AudioView { omni_range_m: omni->0, lobes: lobes->0 })
    } else {
        None
    }
}

/// The sensor facts that a value spells.
pub open spec fn read_meta(j: Json) -> Option<MetaView> {
    let camera = match member(j, "camera"@, 0) {
        None => Some(None),
        Some(Json::Null) => Some(None),
        Some(v) => match read_camera(v) {
            Some(c) => Some(Some(c)),
            None => None,
        },
    };
    let audio = match member(j, "audio"@, 1) {
        None => Some(None),
        Some(Json::Null) => Some(None),
        Some(v) => match read_audio(v) {
            Some(a) => Some(Some(a)),
            None => None,
        },
    };
    if is_record(j, 2) && camera is Some && audio is Some {
        Some(MetaView { camera: camera->0, audio: audio->0 })
    } else {
        None
    }
}

/// The sensor facts of a profile document.
pub open spec fn profile_meta(profile: Json) -> Option<MetaView> {
    match field(profile, "sensor_meta"@) {
        Some(j) => read_meta(j),
        None => None,
    }
}

fn take_figures(v: &Vec<Json>) -> (r: Option<Vec<Figure>>)
    ensures
        match r {
            Some(f) => read_figures(v@, v@.len()) == Some(figures(f@)),
            None => read_figures(v@, v@.len()) is None,
        },
{
    let mut out: Vec<Figure> = Vec::new();
    let mut good = true;
    let mut i: usize = 0;
    assert(figures(out@) =~= Seq::empty());
    while i < v.len()
        invariant
            i <= v@.len(),
            good ==> read_figures(v@, i as nat) == Some(figures(out@)),
            !good ==> read_figures(v@, i as nat) is None,
        decreases v@.len() - i,
    {
        match v[i].as_figure() {
            Some(f) => {
                if good {
                    let ghost before = out@;
                    out.push(f);
                    assert(figures(out@) =~= figures(before).push(f@));
                }
            },
            None => {
                good = false;
            },
        }
        i = i + 1;
    }
    if good {
        Some(out)
    } else {
        None
    }
}

fn take_figure(j: Option<&Json>) -> (r: Option<Figure>)
    ensures
        seen(r) == figure_of(
            match j {
                Some(v) => Some(*v),
                None => None,
            },
        ),
{
    match j {
        Some(v) => v.as_figure(),
        None => None,
    }
}

fn take_pixels(j: Option<&Json>) -> (r: Option<u32>)
    ensures
        r == read_pixels(
            match j {
                Some(v) => Some(*v),
                None => None,
            },
        ),
{
    match j {
        None => Some(0),
        Some(v) => match v.as_count() {
            Some(n) => if n <= 0xffff_ffff {
                Some(n as u32)
            } else {
                None
            },
            None => None,
        },
    }
}

fn take_camera(j: &Json) -> (r: Option<CameraMeta>)
    ensures
        match r {
            Some(c) => read_camera(*j) == Some(c@),
            None => read_camera(*j) is None,
        },
{
    if !j.has_members(4) {
        return None;
    }
    let hfov = take_figure(j.member_at("hfov_deg", 0));
    let dri = match j.member_at("dri_m", 1) {
        None => {
            let none: Vec<Figure> = Vec::new();
            assert(figures(none@) =~= Seq::empty());
            Some(none)
        },
        Some(Json::List(v)) => take_figures(v),
        Some(_) => None,
    };
    let width = take_pixels(j.member_at("width_px", 2));
    let height = take_pixels(j.member_at("height_px", 3));
    match (hfov, dri, width, height) {
        (Some(hfov_deg), Some(dri_m), Some(width_px), Some(height_px)) => Some(
            CameraMeta { hfov_deg, dri_m, width_px, height_px },
        ),
        _ => None,
    }
}

fn take_lobe(j: &Json) -> (r: Option<AudioLobe>)
    ensures
        match r {
            Some(l) => read_lobe(*j) == Some(l@),
            None => read_lobe(*j) is None,
        },
{
    if !j.has_members(3) {
        return None;
    }
    let bearing = take_figure(j.member_at("bearing_deg", 0));
    let width = take_figure(j.member_at("width_deg", 1));
    let range = take_figure(j.member_at("range_m", 2));
    match (bearing, width, range) {
        (Some(bearing_deg), Some(width_deg), Some(range_m)) => Some(
            AudioLobe { bearing_deg, width_deg, range_m },
        ),
        _ => None,
    }
}

fn take_lobes(v: &Vec<Json>) -> (r: Option<Vec<AudioLobe>>)
    ensures
        match r {
            Some(l) => read_lobes(v@, v@.len()) == Some(lobe_views(l@)),
            None => read_lobes(v@, v@.len()) is None,
        },
{
    let mut out: Vec<AudioLobe> = Vec::new();
    let mut good = true;
    let mut i: usize = 0;
    assert(lobe_views(out@) =~= Seq::empty());
    while i < v.len()
        invariant
            i <= v@.len(),
            good ==> read_lobes(v@, i as nat) == Some(lobe_views(out@)),
            !good ==> read_lobes(v@, i as nat) is None,
        decreases v@.len() - i,
    {
        match take_lobe(&v[i]) {
            Some(l) => {
                if good {
                    let ghost before = out@;
                    out.push(l);
                    assert(lobe_views(out@) =~= lobe_views(before).push(l@));
                }
            },
            None => {
                good = false;
            },
        }
        i = i + 1;
    }
    if good {
        Some(out)
    } else {
        None
    }
}

fn take_audio(j: &Json) -> (r: Option<AudioMeta>)
    ensures
        match r {
            Some(a) => read_audio(*j) == Some(a@),
            None => read_audio(*j) is None,
        },
{
    if !j.has_members(2) {
        return None;
    }
    let omni = match j.member_at("omni_range_m", 0) {
        None => Some(
            Figure {
                real: real_zero(),
                plain: "0".to_owned(),
                whole: "0".to_owned(),
                tenth: "0.0".to_owned(),
                json: "0.0".to_owned(),
            },
        ),
        Some(v) => v.as_figure(),
    };
    let lobes = match j.member_at("lobes", 1) {
        None => {
            let none: Vec<AudioLobe> = Vec::new();
            assert(lobe_views(none@) =~= Seq::empty());
            Some(none)
        },
        Some(Json::List(v)) => take_lobes(v),
        Some(_) => None,
    };
    match (omni, lobes) {
        (Some(omni_range_m), Some(lobes)) => Some(AudioMeta { omni_range_m, lobes }),
        _ => None,
    }
}

/// Read sensor facts from a value; missing facts take their defaults.
pub fn meta_from(j: &Json) -> (r: Option<SensorMeta>)
    ensures
        match r {
            Some(m) => read_meta(*j) == Some(m@),
            None => read_meta(*j) is None,
        },
{
    if !j.has_members(2) {
        return None;
    }
    let camera = match j.member_at("camera", 0) {
        None => None,
        Some(Json::Null) => None,
        Some(v) => match take_camera(v) {
            Some(c) => Some(c),
            None => {
                return None;
            },
        },
    };
    let audio = match j.member_at("audio", 1) {
        None => None,
        Some(Json::Null) => None,
        Some(v) => match take_audio(v) {
            Some(a) => Some(a),
            None => {
                return None;
            },
        },
    };
    Some(SensorMeta { camera, audio })
}

/// Read the sensor facts of a profile document; `None` when it has none or
/// they cannot be read.
pub fn from_profile_json(profile: &Json) -> (r: Option<SensorMeta>)
    ensures
        match r {
            Some(m) => profile_meta(*profile) == Some(m@),
            None => profile_meta(*profile) is None,
        },
{
    match profile.get("sensor_meta") {
        Some(j) => meta_from(j),
        None => None,
    }
}

/// Whether a figure is a finite number.
pub open spec fn finite(f: FigureView) -> bool {
    f.real.magnitude() < INFINITE
}

/// How JSON spells a figure: what is not finite has no spelling but `null`.
pub open spec fn number_text(f: FigureView) -> Seq<char> {
    if finite(f) {
        f.json
    } else {
        "null"@
    }
}

fn number(f: &Figure) -> (r: Json)
    ensures
        printed(r) == number_text(f@),
        finite(f@) ==> figure_of(Some(r)) == Some(f@),
{
    let magnitude: u64 = if f.real.bits >= SIGN {
        f.real.bits - SIGN
    } else {
        f.real.bits
    };
    if magnitude < INFINITE {
        Json::Number(f.json.clone(), None, Some(f.clone()))
    } else {
        Json::Null
    }
}

/// An entry of an object.
pub open spec fn entry_text(key: Seq<char>, value: Seq<char>) -> Seq<char> {
    quoted(key) + ":"@ + value
}

/// The first `n` figures with commas between them.
pub open spec fn number_texts(s: Seq<FigureView>, n: nat) -> Seq<char>
    decreases n,
{
    if n == 0 || n > s.len() {
        Seq::empty()
    } else if n == 1 {
        number_text(s[0])
    } else {
        number_texts(s, (n - 1) as nat) + ","@ + number_text(s[n - 1])
    }
}

/// How JSON spells camera facts.
pub open spec fn camera_text(c: CameraView) -> Seq<char> {
    "{"@ + (entry_text("dri_m"@, "["@ + number_texts(c.dri_m, c.dri_m.len()) + "]"@) + ","@
        + entry_text("height_px"@, dec_text(c.height_px as nat)) + ","@ + entry_text(
        "hfov_deg"@,
        number_text(c.hfov_deg),
    ) + ","@ + entry_text("width_px"@, dec_text(c.width_px as nat))) + "}"@
}

/// How JSON spells a lobe.
pub open spec fn lobe_text(l: LobeView) -> Seq<char> {
    "{"@ + (entry_text("bearing_deg"@, number_text(l.bearing_deg)) + ","@ + entry_text(
        "range_m"@,
        number_text(l.range_m),
    ) + ","@ + entry_text("width_deg"@, number_text(l.width_deg))) + "}"@
}

/// The first `n` lobes with commas between them.
pub open spec fn lobe_texts(s: Seq<LobeView>, n: nat) -> Seq<char>
    decreases n,
{
    if n == 0 || n > s.len() {
        Seq::empty()
    } else if n == 1 {
        lobe_text(s[0])
    } else {
        lobe_texts(s, (n - 1) as nat) + ","@ + lobe_text(s[n - 1])
    }
}

/// How JSON spells microphone facts: no lobes are left out.
pub open spec fn audio_text(a: AudioView) -> Seq<char> {
    let range = entry_text("omni_range_m"@, number_text(a.omni_range_m));
    if a.lobes.len() == 0 {
        "{"@ + range + "}"@
    } else {
        "{"@ + (entry_text("lobes"@, "["@ + lobe_texts(a.lobes, a.lobes.len()) + "]"@) + ","@
            + range) + "}"@
    }
}

/// How JSON spells sensor facts: what is not advertised is left out.
pub open spec fn meta_text(m: MetaView) -> Seq<char> {
    match (m.audio, m.camera) {
        (Some(a), Some(c)) => "{"@ + (entry_text("audio"@, audio_text(a)) + ","@ + entry_text(
            "camera"@,
            camera_text(c),
        )) + "}"@,
        (Some(a), None) => "{"@ + entry_text("audio"@, audio_text(a)) + "}"@,
        (None, Some(c)) => "{"@ + entry_text("camera"@, camera_text(c)) + "}"@,
        (None, None) => "{"@ + Seq::empty() + "}"@,
    }
}

/// Whether all figures are finite.
pub open spec fn all_finite(s: Seq<FigureView>) -> bool {
    forall|i: int| 0 <= i < s.len() ==> finite(#[trigger] s[i])
}

/// Whether a lobe's figures are finite.
pub open spec fn finite_lobe(l: LobeView) -> bool {
    finite(l.bearing_deg) && finite(l.width_deg) && finite(l.range_m)
}

/// Whether all figures of a camera are finite.
pub open spec fn finite_camera(c: CameraView) -> bool {
    finite(c.hfov_deg) && all_finite(c.dri_m)
}

/// Whether all figures of a microphone are finite.
pub open spec fn finite_audio(a: AudioView) -> bool {
    finite(a.omni_range_m) && forall|i: int|
        0 <= i < a.lobes.len() ==> finite_lobe(#[trigger] a.lobes[i])
}

/// Whether all figures of sensor facts are finite.
pub open spec fn finite_meta(m: MetaView) -> bool {
    (match m.camera {
        Some(c) => finite_camera(c),
        None => true,
    }) && (match m.audio {
        Some(a) => finite_audio(a),
        None => true,
    })
}

fn number_list(v: &Vec<Figure>) -> (r: Vec<Json>)
    ensures
        r@.len() == v@.len(),
        printed_items(r@, r@.len()) == number_texts(figures(v@), v@.len()),
        all_finite(figures(v@)) ==> read_figures(r@, r@.len()) == Some(figures(v@)),
{
    let ghost f = figures(v@);
    let mut out: Vec<Json> = Vec::new();
    let mut i: usize = 0;
    while i < v.len()
        invariant
            i <= v@.len(),
            f == figures(v@),
            out@.len() == i,
            forall|j: int|
                0 <= j < i ==> printed(#[trigger] out@[j]) == number_text(f[j]) && (finite(f[j])
                    ==> figure_of(Some(out@[j])) == Some(f[j])),
        decreases v@.len() - i,
    {
        assert(f[i as int] == v@[i as int]@);
        out.push(number(&v[i]));
        i = i + 1;
    }
    proof {
        lemma_numbers(out@, f, f.len());
    }
    out
}

proof fn lemma_numbers(s: Seq<Json>, f: Seq<FigureView>, n: nat)
    requires
        s.len() == f.len(),
        n <= s.len(),
        forall|j: int|
            0 <= j < s.len() ==> printed(#[trigger] s[j]) == number_text(f[j]) && (finite(f[j])
                ==> figure_of(Some(s[j])) == Some(f[j])),
    ensures
        printed_items(s, n) == number_texts(f, n),
        all_finite(f) ==> read_figures(s, n) == Some(f.take(n as int)),
        n == s.len() && all_finite(f) ==> read_figures(s, n) == Some(f),
    decreases n,
{
    if n > 0 {
        lemma_numbers(s, f, (n - 1) as nat);
        if all_finite(f) {
            assert(finite(f[n - 1]));
            assert(f.take(n as int) =~= f.take(n - 1).push(f[n - 1]));
        }
    } else {
        assert(f.take(0) =~= Seq::empty());
    }
    if n == s.len() {
        assert(f.take(n as int) =~= f);
    }
}

fn camera_json(c: &CameraMeta) -> (r: Json)
    ensures
        printed(r) == camera_text(c@),
        finite_camera(c@) ==> read_camera(r) == Some(c@),
        !(r is Null),
{
    let dri = number_list(&c.dri_m);
    let hfov = number(&c.hfov_deg);
    let height = Json::from_count(c.height_px as u64);
    let width = Json::from_count(c.width_px as u64);
    let ghost dri_j = Json::List(dri);
    let mut v: Vec<(String, Json)> = Vec::new();
    v.push(("dri_m".to_owned(), Json::List(dri)));
    v.push(("height_px".to_owned(), height));
    v.push(("hfov_deg".to_owned(), hfov));
    v.push(("width_px".to_owned(), width));
    proof {
        reveal_strlit("dri_m");
        reveal_strlit("height_px");
        reveal_strlit("hfov_deg");
        reveal_strlit("width_px");
        assert("dri_m"@.len() == 5);
        assert("height_px"@.len() == 9);
        assert("hfov_deg"@.len() == 8 && "hfov_deg"@[0] == 'h');
        assert("width_px"@.len() == 8 && "width_px"@[0] == 'w');
        lemma_key_place(v@, "dri_m"@, 0);
        lemma_key_place(v@, "height_px"@, 1);
        lemma_key_place(v@, "hfov_deg"@, 2);
        lemma_key_place(v@, "width_px"@, 3);
        reveal_with_fuel(printed_entries, 5);
        let text = entry_text("dri_m"@, printed(dri_j)) + ","@ + entry_text(
            "height_px"@,
            printed(height),
        ) + ","@ + entry_text("hfov_deg"@, printed(hfov)) + ","@ + entry_text(
            "width_px"@,
            printed(width),
        );
        assert(printed_entries(v@, 4) == text);
    }
    let r = Json::Object(v);
    proof {
        assert(field(r, "hfov_deg"@) == Some(hfov));
        assert(field(r, "dri_m"@) == Some(dri_j));
        assert(field(r, "width_px"@) == Some(width));
        assert(field(r, "height_px"@) == Some(height));
    }
    r
}

fn lobe_json(l: &AudioLobe) -> (r: Json)
    ensures
        printed(r) == lobe_text(l@),
        finite_lobe(l@) ==> read_lobe(r) == Some(l@),
{
    let bearing = number(&l.bearing_deg);
    let range = number(&l.range_m);
    let width = number(&l.width_deg);
    let mut v: Vec<(String, Json)> = Vec::new();
    v.push(("bearing_deg".to_owned(), bearing));
    v.push(("range_m".to_owned(), range));
    v.push(("width_deg".to_owned(), width));
    proof {
        reveal_strlit("bearing_deg");
        reveal_strlit("range_m");
        reveal_strlit("width_deg");
        assert("bearing_deg"@.len() == 11);
        assert("range_m"@.len() == 7);
        assert("width_deg"@.len() == 9);
        lemma_key_place(v@, "bearing_deg"@, 0);
        lemma_key_place(v@, "range_m"@, 1);
        lemma_key_place(v@, "width_deg"@, 2);
        reveal_with_fuel(printed_entries, 4);
        let text = entry_text("bearing_deg"@, printed(bearing)) + ","@ + entry_text(
            "range_m"@,
            printed(range),
        ) + ","@ + entry_text("width_deg"@, printed(width));
        assert(printed_entries(v@, 3) == text);
    }
    let r = Json::Object(v);
    proof {
        assert(field(r, "bearing_deg"@) == Some(bearing));
        assert(field(r, "range_m"@) == Some(range));
        assert(field(r, "width_deg"@) == Some(width));
    }
    r
}

fn lobe_list(v: &Vec<AudioLobe>) -> (r: Vec<Json>)
    ensures
        r@.len() == v@.len(),
        printed_items(r@, r@.len()) == lobe_texts(lobe_views(v@), v@.len()),
        (forall|i: int| 0 <= i < v@.len() ==> finite_lobe(#[trigger] lobe_views(v@)[i]))
            ==> read_lobes(r@, r@.len()) == Some(lobe_views(v@)),
{
    let ghost f = lobe_views(v@);
    let mut out: Vec<Json> = Vec::new();
    let mut i: usize = 0;
    while i < v.len()
        invariant
            i <= v@.len(),
            f == lobe_views(v@),
            out@.len() == i,
            forall|j: int|
                0 <= j < i ==> printed(#[trigger] out@[j]) == lobe_text(f[j]) && (finite_lobe(f[j])
                    ==> read_lobe(out@[j]) == Some(f[j])),
        decreases v@.len() - i,
    {
        assert(f[i as int] == v@[i as int]@);
        out.push(lobe_json(&v[i]));
        i = i + 1;
    }
    proof {
        lemma_lobes(out@, f, f.len());
    }
    out
}

proof fn lemma_lobes(s: Seq<Json>, f: Seq<LobeView>, n: nat)
    requires
        s.len() == f.len(),
        n <= s.len(),
        forall|j: int|
            0 <= j < s.len() ==> printed(#[trigger] s[j]) == lobe_text(f[j]) && (finite_lobe(f[j])
                ==> read_lobe(s[j]) == Some(f[j])),
    ensures
        printed_items(s, n) == lobe_texts(f, n),
        (forall|i: int| 0 <= i < f.len() ==> finite_lobe(#[trigger] f[i])) ==> read_lobes(s, n)
            == Some(f.take(n as int)),
        n == s.len() && (forall|i: int| 0 <= i < f.len() ==> finite_lobe(#[trigger] f[i]))
            ==> read_lobes(s, n) == Some(f),
    decreases n,
{
    if n > 0 {
        lemma_lobes(s, f, (n - 1) as nat);
        if forall|i: int| 0 <= i < f.len() ==> finite_lobe(#[trigger] f[i]) {
            assert(finite_lobe(f[n - 1]));
            assert(read_lobe(s[n - 1]) == Some(f[n - 1]));
            assert(f.take(n as int) =~= f.take(n - 1).push(f[n - 1]));
        }
        assert(printed(s[n - 1]) == lobe_text(f[n - 1]));
    } else {
        assert(f.take(0) =~= Seq::empty());
    }
    if n == s.len() {
        assert(f.take(n as int) =~= f);
    }
}

fn audio_json(a: &AudioMeta) -> (r: Json)
    ensures
        printed(r) == audio_text(a@),
        finite_audio(a@) ==> read_audio(r) == Some(a@),
        !(r is Null),
{
    let range = number(&a.omni_range_m);
    let list = lobe_list(&a.lobes);
    let ghost list_j = Json::List(list);
    let mut v: Vec<(String, Json)> = Vec::new();
    proof {
        reveal_strlit("lobes");
        reveal_strlit("omni_range_m");
        assert("lobes"@.len() == 5);
        assert("omni_range_m"@.len() == 12);
        reveal_with_fuel(printed_entries, 3);
    }
    if a.lobes.len() == 0 {
        v.push(("omni_range_m".to_owned(), range));
        proof {
            lemma_key_place(v@, "omni_range_m"@, 0);
            lemma_key_place(v@, "lobes"@, 1);
            assert(printed_entries(v@, 1) == entry_text("omni_range_m"@, printed(range)));
            assert(lobe_views(a.lobes@) =~= Seq::empty());
        }
    } else {
        v.push(("lobes".to_owned(), Json::List(list)));
        v.push(("omni_range_m".to_owned(), range));
        proof {
            lemma_key_place(v@, "lobes"@, 0);
            lemma_key_place(v@, "omni_range_m"@, 1);
            assert(printed_entries(v@, 2) == entry_text("lobes"@, printed(list_j)) + ","@
                + entry_text("omni_range_m"@, printed(range)));
        }
    }
    let r = Json::Object(v);
    proof {
        assert(field(r, "omni_range_m"@) == Some(range));
    }
    r
}

/// Sensor facts as a JSON value.
pub fn meta_json(m: &SensorMeta) -> (r: Json)
    ensures
        printed(r) == meta_text(m@),
        finite_meta(m@) ==> read_meta(r) == Some(m@),
        !(r is Null),
{
    let mut v: Vec<(String, Json)> = Vec::new();
    proof {
        reveal_strlit("audio");
        reveal_strlit("camera");
        assert("audio"@.len() == 5);
        assert("camera"@.len() == 6);
        reveal_with_fuel(printed_entries, 3);
    }
    match &m.audio {
        Some(a) => {
            let audio = audio_json(a);
            v.push(("audio".to_owned(), audio));
            match &m.camera {
                Some(c) => {
                    let camera = camera_json(c);
                    v.push(("camera".to_owned(), camera));
                    proof {
                        lemma_key_place(v@, "audio"@, 0);
                        lemma_key_place(v@, "camera"@, 1);
                        assert(printed_entries(v@, 2) == entry_text("audio"@, printed(audio)) + ","@
                            + entry_text("camera"@, printed(camera)));
                    }
                    let r = Json::Object(v);
                    assert(field(r, "audio"@) == Some(audio));
                    assert(field(r, "camera"@) == Some(camera));
                    r
                },
                None => {
                    proof {
                        lemma_key_place(v@, "audio"@, 0);
                        lemma_key_place(v@, "camera"@, 1);
                        assert(printed_entries(v@, 1) == entry_text("audio"@, printed(audio)));
                    }
                    let r = Json::Object(v);
                    assert(field(r, "audio"@) == Some(audio));
                    assert(field(r, "camera"@) is None);
                    r
                },
            }
        },
        None => match &m.camera {
            Some(c) => {
                let camera = camera_json(c);
                v.push(("camera".to_owned(), camera));
                proof {
                    lemma_key_place(v@, "camera"@, 0);
                    lemma_key_place(v@, "audio"@, 1);
                    assert(printed_entries(v@, 1) == entry_text("camera"@, printed(camera)));
                }
                let r = Json::Object(v);
                assert(field(r, "camera"@) == Some(camera));
                assert(field(r, "audio"@) is None);
                r
            },
            None => {
                proof {
                    lemma_key_place(v@, "camera"@, 0);
                    lemma_key_place(v@, "audio"@, 0);
                    assert(printed_entries(v@, 0) =~= Seq::empty());
                }
                let r = Json::Object(v);
                assert(field(r, "camera"@) is None);
                assert(field(r, "audio"@) is None);
                r
            },
        },
    }
}

/// Merge sensor facts into a profile document as the additional key
/// `sensor_meta`. Nothing happens to what is no object, or for no facts. The
/// other fields keep their values.
pub fn merge_into_profile(profile: Json, meta: &SensorMeta) -> (r: Json)
    requires
        match profile {
            Json::Object(v) => increasing(keys_of(v@)),
            _ => true,
        },
    ensures
        meta@.camera is None && meta@.audio is None ==> r == profile,
        !(profile is Object) ==> r == profile,
        profile is Object && !(meta@.camera is None && meta@.audio is None) ==> r is Object
            && increasing(keys_of(r->Object_0@)) && field(r, "sensor_meta"@) is Some && printed(
            field(r, "sensor_meta"@)->0,
        ) == meta_text(meta@) && (forall|k: Seq<char>|
            k != "sensor_meta"@ ==> #[trigger] field(r, k) == field(profile, k)),
        profile is Object && !(meta@.camera is None && meta@.audio is None) && finite_meta(meta@)
            ==> profile_meta(r) == Some(meta@),
{
    if meta.is_empty() {
        return profile;
    }
    match profile {
        Json::Object(v) => {
            let value = meta_json(meta);
            let entries = Json::set_field(v, "sensor_meta", value);
            let r = Json::Object(entries);
            proof {
                assert(field_in(entries@, "sensor_meta"@) == Some(value));
                assert forall|k: Seq<char>| k != "sensor_meta"@ implies #[trigger] field(r, k)
                    == field(profile, k) by {
                    assert(field_in(entries@, k) == field_in(v@, k));
                }
            }
            r
        },
        other => other,
    }
}

} // verus!
