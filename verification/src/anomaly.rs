//! The ground truth that a virtual deployment owns and the agents' synthetic
//! sensors fetch. New kinds of anomalies may appear on the wire: entries that
//! are not understood are skipped.

use vstd::prelude::*;

use crate::dataset::shown;
use crate::json::{
    count_of, figure_of, is_record, json_of, member, parse_json, text_of, Json,
};
use crate::quantity::Real;
use crate::text::same;

verus! {

/// One placed anomaly. The owning field assigns the id; an empty one on a
/// placement request asks for that.
#[derive(Debug)]
pub enum Anomaly {
    /// A ground blob that a downward camera can see.
    Visual {
        id: String,
        lat_deg: Real,
        lon_deg: Real,
        /// Blob diameter (m).
        size_m: Real,
        /// Colour name that renderer and detector agree on.
        signature: String,
        created_ns: u64,
    },
    /// A point sound source that a microphone can hear.
    Audio {
        id: String,
        lat_deg: Real,
        lon_deg: Real,
        /// Source level (dB).
        loudness_db: Real,
        /// Tone family.
        signature: String,
        created_ns: u64,
    },
}

/// An anomaly by its values; `extent` is the size of what is seen or the
/// loudness of what is heard.
#[verifier::ext_equal]
pub struct AnomalyView {
    pub visual: bool,
    pub id: Seq<char>,
    pub lat_deg: Real,
    pub lon_deg: Real,
    pub extent: Real,
    pub signature: Seq<char>,
    pub created_ns: u64,
}

impl View for Anomaly {
    type V = AnomalyView;

    open spec fn view(&self) -> AnomalyView {
        match *self {
            Anomaly::Visual { id, lat_deg, lon_deg, size_m, signature, created_ns } => AnomalyView {
                visual: true,
                id: id@,
                lat_deg,
                lon_deg,
                extent: size_m,
                signature: signature@,
                created_ns,
            },
            Anomaly::Audio { id, lat_deg, lon_deg, loudness_db, signature, created_ns } =>
            AnomalyView {
                visual: false,
                id: id@,
                lat_deg,
                lon_deg,
                extent: loudness_db,
                signature: signature@,
                created_ns,
            },
        }
    }
}

/// Anomalies by their views.
pub open spec fn anomaly_views(v: Seq<Anomaly>) -> Seq<AnomalyView> {
    v.map_values(|a: Anomaly| a@)
}

impl Anomaly {
    pub fn id(&self) -> (r: &str)
        ensures
            r@ == self@.id,
    {
        match self {
            Anomaly::Visual { id, .. } => id.as_str(),
            Anomaly::Audio { id, .. } => id.as_str(),
        }
    }

    pub fn set_id(&mut self, new_id: String)
        ensures
            final(self)@ == (AnomalyView { id: new_id@, ..old(self)@ }),
    {
        match self {
            Anomaly::Visual { id, .. } => {
                *id = new_id;
            },
            Anomaly::Audio { id, .. } => {
                *id = new_id;
            },
        }
    }

    pub fn set_created_ns(&mut self, ns: u64)
        ensures
            final(self)@ == (AnomalyView { created_ns: ns, ..old(self)@ }),
    {
        match self {
            Anomaly::Visual { created_ns, .. } => {
                *created_ns = ns;
            },
            Anomaly::Audio { created_ns, .. } => {
                *created_ns = ns;
            },
        }
    }

    /// Latitude and longitude (degrees).
    pub fn position(&self) -> (r: (Real, Real))
        ensures
            r == (self@.lat_deg, self@.lon_deg),
    {
        match self {
            Anomaly::Visual { lat_deg, lon_deg, .. } => (*lat_deg, *lon_deg),
            Anomaly::Audio { lat_deg, lon_deg, .. } => (*lat_deg, *lon_deg),
        }
    }

    /// The tag on the wire.
    pub fn kind(&self) -> (r: &'static str)
        ensures
            r@ == kind_text(self@.visual),
    {
        match self {
            Anomaly::Visual { .. } => "visual",
            Anomaly::Audio { .. } => "audio",
        }
    }
}

/// The tag of a kind.
pub open spec fn kind_text(visual: bool) -> Seq<char> {
    if visual {
        "visual"@
    } else {
        "audio"@
    }
}

/// The text of a member, or nothing for a missing one; `None` where it is not
/// a text.
pub open spec fn text_member(j: Option<Json>) -> Option<Seq<char>> {
    match j {
        None => Some(Seq::empty()),
        Some(_) => text_of(j),
    }
}

/// The count of a member, 0 for a missing one; `None` where it is not a count.
pub open spec fn count_member(j: Option<Json>) -> Option<u64> {
    match j {
        None => Some(0),
        Some(_) => count_of(j),
    }
}

/// The name of the third quantity of a kind.
pub open spec fn extent_key(visual: bool) -> Seq<char> {
    if visual {
        "size_m"@
    } else {
        "loudness_db"@
    }
}

/// The anomaly that a record of a kind spells.
pub open spec fn read_as(visual: bool, j: Json) -> Option<AnomalyView> {
    let id = text_member(member(j, "id"@, 1));
    let lat = figure_of(member(j, "lat_deg"@, 2));
    let lon = figure_of(member(j, "lon_deg"@, 3));
    let extent = figure_of(member(j, extent_key(visual), 4));
    let signature = text_member(member(j, "signature"@, 5));
    let created = count_member(member(j, "created_ns"@, 6));
    if id is Some && lat is Some && lon is Some && extent is Some && signature is Some
        && created is Some {
        Some(
            AnomalyView {
                visual,
                id: id->0,
                lat_deg: lat->0.real,
                lon_deg: lon->0.real,
                extent: extent->0.real,
                signature: signature->0,
                created_ns: created->0,
            },
        )
    } else {
        None
    }
}

/// The anomaly that a value spells, if it spells one: a record whose first
/// member is the kind.
pub open spec fn read_anomaly(j: Json) -> Option<AnomalyView> {
    let kind = text_of(member(j, "kind"@, 0));
    if !is_record(j, 7) {
        None
    } else if kind == Some("visual"@) {
        read_as(true, j)
    } else if kind == Some("audio"@) {
        read_as(false, j)
    } else {
        None
    }
}

/// The anomalies among the first `n` values.
pub open spec fn understood(s: Seq<Json>, n: nat) -> Seq<AnomalyView>
    decreases n,
{
    if n == 0 || n > s.len() {
        Seq::empty()
    } else {
        let before = understood(s, (n - 1) as nat);
        match read_anomaly(s[n - 1]) {
            Some(a) => before.push(a),
            None => before,
        }
    }
}

/// The anomalies that a document lists.
pub open spec fn listed(bytes: Seq<u8>) -> Seq<AnomalyView> {
    match json_of(bytes) {
        Some(Json::List(v)) => understood(v@, v@.len()),
        _ => Seq::empty(),
    }
}

fn read_text(j: Option<&Json>) -> (r: Option<String>)
    ensures
        shown(r) == text_member(
            match j {
                Some(v) => Some(*v),
                None => None,
            },
        ),
{
    match j {
        None => {
            proof {
                reveal_strlit("");
                assert(""@ =~= Seq::empty());
            }
            Some("".to_owned())
        },
        Some(v) => v.as_text(),
    }
}

fn read_real(j: Option<&Json>) -> (r: Option<Real>)
    ensures
        match r {
            Some(x) => j is Some && figure_of(Some(*(j->0))) is Some && figure_of(
                Some(*(j->0)),
            )->0.real == x,
            None => j is None || figure_of(Some(*(j->0))) is None,
        },
{
    match j {
        Some(v) => match v.as_figure() {
            Some(f) => Some(f.real),
            None => None,
        },
        None => None,
    }
}

fn read_count(j: Option<&Json>) -> (r: Option<u64>)
    ensures
        r == count_member(
            match j {
                Some(v) => Some(*v),
                None => None,
            },
        ),
{
    match j {
        None => Some(0),
        Some(v) => v.as_count(),
    }
}

fn decode_as(visual: bool, j: &Json) -> (r: Option<Anomaly>)
    ensures
        match r {
            Some(a) => read_as(visual, *j) == Some(a@),
            None => read_as(visual, *j) is None,
        },
{
    let id = read_text(j.member_at("id", 1));
    let lat = read_real(j.member_at("lat_deg", 2));
    let lon = read_real(j.member_at("lon_deg", 3));
    let extent = if visual {
        read_real(j.member_at("size_m", 4))
    } else {
        read_real(j.member_at("loudness_db", 4))
    };
    let signature = read_text(j.member_at("signature", 5));
    let created = read_count(j.member_at("created_ns", 6));
    match (id, lat, lon, extent, signature, created) {
        (Some(id), Some(lat_deg), Some(lon_deg), Some(x), Some(signature), Some(created_ns)) => {
            if visual {
                Some(Anomaly::Visual { id, lat_deg, lon_deg, size_m: x, signature, created_ns })
            } else {
                Some(
                    Anomaly::Audio { id, lat_deg, lon_deg, loudness_db: x, signature, created_ns },
                )
            }
        },
        _ => None,
    }
}

fn decode(j: &Json) -> (r: Option<Anomaly>)
    ensures
        match r {
            Some(a) => read_anomaly(*j) == Some(a@),
            None => read_anomaly(*j) is None,
        },
{
    if !j.has_members(7) {
        return None;
    }
    let kind = match j.member_at("kind", 0) {
        Some(k) => match k.as_text() {
            Some(t) => t,
            None => {
                return None;
            },
        },
        None => {
            return None;
        },
    };
    if same(kind.as_str(), "visual") {
        decode_as(true, j)
    } else if same(kind.as_str(), "audio") {
        decode_as(false, j)
    } else {
        None
    }
}

/// Decode an anomaly list entry by entry; entries that are not understood are
/// skipped, and what is no list holds none.
pub fn decode_lossy(bytes: &[u8]) -> (r: Vec<Anomaly>)
    ensures
        anomaly_views(r@) == listed(bytes@),
{
    match parse_json(bytes) {
        Some(Json::List(v)) => decode_values(&v),
        _ => {
            let none: Vec<Anomaly> = Vec::new();
            assert(anomaly_views(none@) =~= Seq::empty());
            none
        },
    }
}

/// Decode a list of parsed values, skipping those that are not understood.
pub fn decode_values(v: &Vec<Json>) -> (r: Vec<Anomaly>)
    ensures
        anomaly_views(r@) == understood(v@, v@.len()),
{
    let mut out: Vec<Anomaly> = Vec::new();
    let mut i: usize = 0;
    assert(anomaly_views(out@) =~= Seq::empty());
    while i < v.len()
        invariant
            i <= v@.len(),
            anomaly_views(out@) == understood(v@, i as nat),
        decreases v@.len() - i,
    {
        match decode(&v[i]) {
            Some(a) => {
                let ghost before = out@;
                out.push(a);
                assert(anomaly_views(out@) =~= anomaly_views(before).push(a@));
            },
            None => {},
        }
        i = i + 1;
    }
    out
}

/// Entries of unknown kinds are skipped: they do not change what the others
/// decode to.
pub proof fn unknown_kinds_are_skipped(a: Seq<Json>, unknown: Json, b: Seq<Json>)
    requires
        read_anomaly(unknown) is None,
    ensures
        ({
            let s = a.push(unknown) + b;
            let t = a + b;
            understood(s, s.len()) == understood(t, t.len())
        }),
{
    lemma_skip(a, unknown, b, b.len());
}

proof fn lemma_skip(a: Seq<Json>, unknown: Json, b: Seq<Json>, n: nat)
    requires
        read_anomaly(unknown) is None,
        n <= b.len(),
    ensures
        understood(a.push(unknown) + b, a.len() + 1 + n) == understood(a + b, a.len() + n),
    decreases n,
{
    let s = a.push(unknown) + b;
    let t = a + b;
    if n == 0 {
        assert(s[a.len() as int] == unknown);
        lemma_prefix(s, a, a.len());
        lemma_prefix(t, a, a.len());
    } else {
        lemma_skip(a, unknown, b, (n - 1) as nat);
        assert(s[a.len() + n as int] == b[n - 1]);
        assert(t[a.len() + n - 1] == b[n - 1]);
    }
}

proof fn lemma_prefix(s: Seq<Json>, a: Seq<Json>, n: nat)
    requires
        n <= a.len() <= s.len(),
        forall|i: int| 0 <= i < a.len() ==> s[i] == a[i],
    ensures
        understood(s, n) == understood(a, n),
    decreases n,
{
    if n > 0 {
        lemma_prefix(s, a, (n - 1) as nat);
    }
}

} // verus!
