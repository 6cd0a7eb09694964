//! The provenance proof: artifact, to the Blocks it cites, to each hash
//! verified by fetching the Block again and hashing it again.

use vstd::prelude::*;

use crate::blocks::{citation_views, Citation, CitationView};
use crate::dataset::shown;
use crate::render::report::push_text;
use crate::render::RenderedArtifact;
use crate::text::{same, views};
use crate::text_map::{
    increasing, sort_texts, sorted_texts, sorted_texts_hold_each_once, text_before, TextMap,
};

verus! {

/// A Block fetched again from its chain and hashed again.
#[derive(Debug)]
pub struct RefetchedBlock {
    /// Chain root the Block was fetched from.
    pub chain: String,
    /// Chain position.
    pub seq: u64,
    /// The content hash that the chain stores (hex).
    pub stored: String,
    /// Hash of the packet that was fetched (hex).
    pub rehashed: String,
}

/// A fetched Block by its values.
#[verifier::ext_equal]
pub struct FetchedView {
    pub chain: Seq<char>,
    pub seq: u64,
    pub stored: Seq<char>,
    pub rehashed: Seq<char>,
}

impl View for RefetchedBlock {
    type V = FetchedView;

    open spec fn view(&self) -> FetchedView {
        FetchedView {
            chain: self.chain@,
            seq: self.seq,
            stored: self.stored@,
            rehashed: self.rehashed@,
        }
    }
}

/// Fetched Blocks by their views.
pub open spec fn fetched_views(v: Seq<RefetchedBlock>) -> Seq<FetchedView> {
    v.map_values(|b: RefetchedBlock| b@)
}

/// The last of the first `n` fetched Blocks stored under a hash. The hash is
/// the identity: chain names may repeat across runs of one fleet.
pub open spec fn fetched_at(s: Seq<FetchedView>, hash: Seq<char>, n: nat) -> Option<FetchedView>
    decreases n,
{
    if n == 0 || n > s.len() {
        None
    } else if s[n - 1].stored == hash {
        Some(s[n - 1])
    } else {
        fetched_at(s, hash, (n - 1) as nat)
    }
}

/// What the audit says of a citation.
#[derive(Debug)]
pub struct CitationAudit {
    pub citation: Citation,
    pub verified: bool,
    /// Hash of the packet that was fetched for it.
    pub rehashed: Option<String>,
}

/// What the audit says of a citation, by its values.
#[verifier::ext_equal]
pub struct CiteAuditView {
    pub citation: CitationView,
    pub verified: bool,
    pub rehashed: Option<Seq<char>>,
}

impl View for CitationAudit {
    type V = CiteAuditView;

    open spec fn view(&self) -> CiteAuditView {
        CiteAuditView {
            citation: self.citation@,
            verified: self.verified,
            rehashed: shown(self.rehashed),
        }
    }
}

/// Audits of citations by their views.
pub open spec fn cite_audit_views(v: Seq<CitationAudit>) -> Seq<CiteAuditView> {
    v.map_values(|c: CitationAudit| c@)
}

/// The audit of a citation: the cited hash is stored on the cited chain at the
/// cited position, and is the hash of what was fetched.
pub open spec fn audited(s: Seq<FetchedView>, c: CitationView) -> CiteAuditView {
    match fetched_at(s, c.hash, s.len()) {
        Some(b) => CiteAuditView {
            citation: c,
            verified: b.chain == c.chain && b.seq == c.seq && b.rehashed == c.hash,
            rehashed: Some(b.rehashed),
        },
        None => CiteAuditView { citation: c, verified: false, rehashed: None },
    }
}

/// The audit of one artifact.
#[derive(Debug)]
pub struct ArtifactAudit {
    pub name: String,
    pub citations: Vec<CitationAudit>,
}

/// The audit of one artifact, by its values.
#[verifier::ext_equal]
pub struct ArtifactAuditView {
    pub name: Seq<char>,
    pub citations: Seq<CiteAuditView>,
}

impl View for ArtifactAudit {
    type V = ArtifactAuditView;

    open spec fn view(&self) -> ArtifactAuditView {
        ArtifactAuditView { name: self.name@, citations: cite_audit_views(self.citations@) }
    }
}

/// Audits of artifacts by their views.
pub open spec fn audit_views(v: Seq<ArtifactAudit>) -> Seq<ArtifactAuditView> {
    v.map_values(|a: ArtifactAudit| a@)
}

/// A hash that several artifacts cite.
#[derive(Debug)]
pub struct SharedHash {
    pub hash: String,
    pub artifacts: Vec<String>,
}

/// A shared hash by its values.
#[verifier::ext_equal]
pub struct SharedView {
    pub hash: Seq<char>,
    pub artifacts: Seq<Seq<char>>,
}

impl View for SharedHash {
    type V = SharedView;

    open spec fn view(&self) -> SharedView {
        SharedView { hash: self.hash@, artifacts: views(self.artifacts@) }
    }
}

/// Shared hashes by their views.
pub open spec fn shared_views(v: Seq<SharedHash>) -> Seq<SharedView> {
    v.map_values(|s: SharedHash| s@)
}

/// The audit manifest.
#[derive(Debug)]
pub struct AuditReport {
    /// The artifacts, in the order of their names.
    pub artifacts: Vec<ArtifactAudit>,
    /// The hashes that several artifacts cite, in order.
    pub shared: Vec<SharedHash>,
    pub blocks_fetched: usize,
    pub verified: bool,
}

/// Artifacts with their names.
pub type Artifacts = Seq<(String, RenderedArtifact)>;

/// The audit of an artifact.
pub open spec fn artifact_audit(
    s: Seq<FetchedView>,
    name: Seq<char>,
    citations: Seq<CitationView>,
) -> ArtifactAuditView {
    ArtifactAuditView { name, citations: citations.map_values(|c: CitationView| audited(s, c)) }
}

/// The audits of artifacts.
pub open spec fn audits_of(s: Seq<FetchedView>, artifacts: Artifacts) -> Seq<ArtifactAuditView> {
    artifacts.map_values(
        |a: (String, RenderedArtifact)| artifact_audit(s, a.0@, citation_views(a.1.citations@)),
    )
}

/// Whether an artifact cites a hash.
pub open spec fn cites(artifact: RenderedArtifact, hash: Seq<char>) -> bool {
    exists|k: int| 0 <= k < artifact.citations@.len() && #[trigger] artifact.citations@[k].hash@ == hash
}

/// The names of those of the first `n` artifacts that cite a hash, each once.
pub open spec fn citing(artifacts: Artifacts, hash: Seq<char>, n: nat) -> Seq<Seq<char>>
    decreases n,
{
    if n == 0 || n > artifacts.len() {
        Seq::empty()
    } else if cites(artifacts[n - 1].1, hash) {
        citing(artifacts, hash, (n - 1) as nat).push(artifacts[n - 1].0@)
    } else {
        citing(artifacts, hash, (n - 1) as nat)
    }
}

/// The hashes of citations.
pub open spec fn hashes_of(s: Seq<CitationView>) -> Seq<Seq<char>> {
    s.map_values(|c: CitationView| c.hash)
}

/// The hashes that the first `n` artifacts cite.
pub open spec fn cited_hashes(artifacts: Artifacts, n: nat) -> Seq<Seq<char>>
    decreases n,
{
    if n == 0 || n > artifacts.len() {
        Seq::empty()
    } else {
        cited_hashes(artifacts, (n - 1) as nat) + hashes_of(
            citation_views(artifacts[n - 1].1.citations@),
        )
    }
}

/// The hashes among the first `n` that more than one artifact cites, with
/// those artifacts.
pub open spec fn shared_upto(
    artifacts: Artifacts,
    hashes: Seq<Seq<char>>,
    n: nat,
) -> Seq<SharedView>
    decreases n,
{
    if n == 0 || n > hashes.len() {
        Seq::empty()
    } else {
        let before = shared_upto(artifacts, hashes, (n - 1) as nat);
        let names = citing(artifacts, hashes[n - 1], artifacts.len());
        if names.len() > 1 {
            before.push(SharedView { hash: hashes[n - 1], artifacts: names })
        } else {
            before
        }
    }
}

/// The shared hashes of artifacts, in order.
pub open spec fn shared_of(artifacts: Artifacts) -> Seq<SharedView> {
    let hashes = sorted_texts(cited_hashes(artifacts, artifacts.len()));
    shared_upto(artifacts, hashes, hashes.len())
}

/// Whether every citation of every artifact verified.
pub open spec fn sound(s: Seq<ArtifactAuditView>) -> bool {
    forall|i: int, j: int|
        0 <= i < s.len() && 0 <= j < s[i].citations.len()
            ==> (#[trigger] s[i].citations[j]).verified
}

fn find_fetched(v: &Vec<RefetchedBlock>, hash: &str) -> (r: Option<usize>)
    ensures
        match r {
            Some(i) => i < v@.len() && fetched_at(fetched_views(v@), hash@, v@.len()) == Some(
                v@[i as int]@,
            ),
            None => fetched_at(fetched_views(v@), hash@, v@.len()) is None,
        },
{
    let ghost s = fetched_views(v@);
    let mut i: usize = v.len();
    while i > 0
        invariant
            i <= v@.len(),
            s == fetched_views(v@),
            fetched_at(s, hash@, v@.len()) == fetched_at(s, hash@, i as nat),
        decreases i,
    {
        assert(s[i - 1] == v@[i - 1]@);
        if same(v[i - 1].stored.as_str(), hash) {
            return Some(i - 1);
        }
        i = i - 1;
    }
    None
}

fn audit_citation(v: &Vec<RefetchedBlock>, c: &Citation) -> (r: CitationAudit)
    ensures
        r@ == audited(fetched_views(v@), c@),
{
    let r = match find_fetched(v, c.hash.as_str()) {
        Some(i) => {
            let b = &v[i];
            let verified = same(b.chain.as_str(), c.chain.as_str()) && b.seq == c.seq && same(
                b.rehashed.as_str(),
                c.hash.as_str(),
            );
            CitationAudit { citation: c.clone(), verified, rehashed: Some(b.rehashed.clone()) }
        },
        None => CitationAudit { citation: c.clone(), verified: false, rehashed: None },
    };
    assert(r@ =~= audited(fetched_views(v@), c@));
    r
}

fn audit_artifact(v: &Vec<RefetchedBlock>, name: &str, citations: &Vec<Citation>) -> (r: (
    ArtifactAudit,
    bool,
))
    ensures
        r.0@ == artifact_audit(fetched_views(v@), name@, citation_views(citations@)),
        r.1 == (forall|j: int|
            0 <= j < r.0@.citations.len() ==> (#[trigger] r.0@.citations[j]).verified),
{
    let ghost s = fetched_views(v@);
    let mut out: Vec<CitationAudit> = Vec::new();
    let mut good = true;
    let mut i: usize = 0;
    while i < citations.len()
        invariant
            i <= citations@.len(),
            s == fetched_views(v@),
            out@.len() == i,
            forall|j: int| 0 <= j < i ==> (#[trigger] out@[j])@ == audited(s, citations@[j]@),
            good == (forall|j: int|
                0 <= j < i ==> (#[trigger] cite_audit_views(out@)[j]).verified),
        decreases citations@.len() - i,
    {
        let a = audit_citation(v, &citations[i]);
        let ghost before = cite_audit_views(out@);
        let verified = a.verified;
        out.push(a);
        proof {
            let after = cite_audit_views(out@);
            assert(after =~= before.push(a@));
            assert(after[i as int].verified == verified);
            if good && verified {
                assert forall|j: int| 0 <= j < i + 1 implies (#[trigger] after[j]).verified by {
                    if j < i {
                        assert(before[j].verified);
                    }
                }
            } else if !good {
                let j = choose|j: int| 0 <= j < i && !(#[trigger] before[j]).verified;
                assert(!after[j].verified);
            }
        }
        good = good && verified;
        i = i + 1;
    }
    let r = ArtifactAudit { name: name.to_owned(), citations: out };
    assert(cite_audit_views(out@) =~= citation_views(citations@).map_values(
        |c: CitationView| audited(s, c),
    ));
    (r, good)
}

fn cites_hash(artifact: &RenderedArtifact, hash: &str) -> (r: bool)
    ensures
        r == cites(*artifact, hash@),
{
    let mut j: usize = 0;
    while j < artifact.citations.len()
        invariant
            j <= artifact.citations@.len(),
            forall|k: int| 0 <= k < j ==> #[trigger] artifact.citations@[k].hash@ != hash@,
        decreases artifact.citations@.len() - j,
    {
        if same(artifact.citations[j].hash.as_str(), hash) {
            assert(artifact.citations@[j as int].hash@ == hash@);
            return true;
        }
        j = j + 1;
    }
    false
}

fn names_citing_hash(artifacts: &TextMap<RenderedArtifact>, hash: &str) -> (r: Vec<String>)
    ensures
        views(r@) == citing(artifacts.list(), hash@, artifacts.list().len()),
{
    let ghost list = artifacts.list();
    let mut out: Vec<String> = Vec::new();
    let mut i: usize = 0;
    let n: usize = artifacts.len();
    assert(views(out@) =~= citing(list, hash@, 0));
    while i < n
        invariant
            i <= n,
            n == list.len(),
            list == artifacts.list(),
            views(out@) == citing(list, hash@, i as nat),
        decreases n - i,
    {
        let e = artifacts.entry(i);
        if cites_hash(e.1, hash) {
            push_text(&mut out, e.0.clone());
        }
        i = i + 1;
    }
    out
}

fn all_cited_hashes(artifacts: &TextMap<RenderedArtifact>) -> (r: Vec<String>)
    ensures
        views(r@) == cited_hashes(artifacts.list(), artifacts.list().len()),
{
    let ghost list = artifacts.list();
    let mut out: Vec<String> = Vec::new();
    let mut i: usize = 0;
    let n: usize = artifacts.len();
    assert(views(out@) =~= cited_hashes(list, 0));
    while i < n
        invariant
            i <= n,
            n == list.len(),
            list == artifacts.list(),
            views(out@) == cited_hashes(list, i as nat),
        decreases n - i,
    {
        let e = artifacts.entry(i);
        let cites = &e.1.citations;
        let ghost hs = hashes_of(citation_views(cites@));
        let ghost before = views(out@);
        let mut j: usize = 0;
        assert(before + hs.take(0) =~= before);
        while j < cites.len()
            invariant
                j <= cites@.len(),
                hs == hashes_of(citation_views(cites@)),
                views(out@) == before + hs.take(j as int),
            decreases cites@.len() - j,
        {
            push_text(&mut out, cites[j].hash.clone());
            proof {
                assert(hs[j as int] == cites@[j as int].hash@);
                assert(hs.take(j + 1) =~= hs.take(j as int).push(hs[j as int]));
                assert(views(out@) =~= before + hs.take(j + 1));
            }
            j = j + 1;
        }
        assert(hs.take(j as int) =~= hs);
        i = i + 1;
    }
    out
}

/// Build the audit manifest from the Blocks that were fetched again.
pub fn audit(fetched: &Vec<RefetchedBlock>, artifacts: &TextMap<RenderedArtifact>) -> (r:
    AuditReport)
    ensures
        audit_views(r.artifacts@) == audits_of(fetched_views(fetched@), artifacts.list()),
        shared_views(r.shared@) == shared_of(artifacts.list()),
        r.blocks_fetched == fetched@.len(),
        r.verified == sound(audits_of(fetched_views(fetched@), artifacts.list())),
{
    let ghost s = fetched_views(fetched@);
    let ghost list = artifacts.list();
    let mut reports: Vec<ArtifactAudit> = Vec::new();
    let mut verified = true;
    let n: usize = artifacts.len();
    let mut i: usize = 0;
    while i < n
        invariant
            i <= n,
            n == list.len(),
            list == artifacts.list(),
            s == fetched_views(fetched@),
            reports@.len() == i,
            forall|k: int|
                0 <= k < i ==> (#[trigger] reports@[k])@ == artifact_audit(
                    s,
                    list[k].0@,
                    citation_views(list[k].1.citations@),
                ),
            verified == sound(audit_views(reports@)),
        decreases n - i,
    {
        let e = artifacts.entry(i);
        let a = audit_artifact(fetched, e.0.as_str(), &e.1.citations);
        let ghost before = audit_views(reports@);
        let good = a.1;
        reports.push(a.0);
        proof {
            let after = audit_views(reports@);
            assert(after =~= before.push(a.0@));
            if verified && good {
                assert forall|k: int, j: int|
                    0 <= k < after.len() && 0 <= j < after[k].citations.len() implies (
                #[trigger] after[k].citations[j]).verified by {
                    if k < i {
                        assert(before[k].citations[j].verified);
                    } else {
                        assert(a.0@.citations[j].verified);
                    }
                }
            } else if !verified {
                let (k, j) = choose|k: int, j: int|
                    0 <= k < before.len() && 0 <= j < before[k].citations.len() && !(
                    #[trigger] before[k].citations[j]).verified;
                assert(!after[k].citations[j].verified);
            } else {
                let j = choose|j: int|
                    0 <= j < a.0@.citations.len() && !(#[trigger] a.0@.citations[j]).verified;
                assert(!after[i as int].citations[j].verified);
            }
        }
        verified = verified && good;
        i = i + 1;
    }
    assert(audit_views(reports@) =~= audits_of(s, list));
    let listed = all_cited_hashes(artifacts);
    let hashes = sort_texts(&listed);
    let ghost hs = views(hashes@);
    let mut shared: Vec<SharedHash> = Vec::new();
    let mut k: usize = 0;
    assert(shared_views(shared@) =~= shared_upto(list, hs, 0));
    while k < hashes.len()
        invariant
            k <= hashes@.len(),
            hs == views(hashes@),
            list == artifacts.list(),
            shared_views(shared@) == shared_upto(list, hs, k as nat),
        decreases hashes@.len() - k,
    {
        assert(hs[k as int] == hashes@[k as int]@);
        let names = names_citing_hash(artifacts, hashes[k].as_str());
        assert(views(names@).len() == names@.len());
        if names.len() > 1 {
            let ghost before = shared@;
            let one = SharedHash { hash: hashes[k].clone(), artifacts: names };
            shared.push(one);
            assert(shared_views(shared@) =~= shared_views(before).push(one@));
        }
        k = k + 1;
    }
    AuditReport { artifacts: reports, shared, blocks_fetched: fetched.len(), verified }
}

/// Whether every citation verified.
pub fn all_verified(report: &AuditReport) -> (r: bool)
    ensures
        r == report.verified,
{
    report.verified
}

/// The hashes that more than one artifact cites, in order, each once.
pub fn shared_hashes(report: &AuditReport) -> (r: Vec<String>)
    ensures
        views(r@) == shared_views(report.shared@).map_values(|s: SharedView| s.hash),
{
    let mut out: Vec<String> = Vec::new();
    let mut i: usize = 0;
    while i < report.shared.len()
        invariant
            i <= report.shared@.len(),
            out@.len() == i,
            forall|j: int| 0 <= j < i ==> (#[trigger] out@[j])@ == report.shared@[j].hash@,
        decreases report.shared@.len() - i,
    {
        out.push(report.shared[i].hash.clone());
        i = i + 1;
    }
    assert(views(out@) =~= shared_views(report.shared@).map_values(|s: SharedView| s.hash));
    out
}

/// A hash is reported as shared exactly if two different artifacts cite it, and
/// it is reported once.
pub proof fn shared_hashes_are_cited_by_several_artifacts(artifacts: Artifacts, hash: Seq<char>)
    ensures
        ({
            let reported = shared_of(artifacts).map_values(|s: SharedView| s.hash);
            &&& reported.contains(hash) <==> exists|i: int, j: int|
                0 <= i < j < artifacts.len() && cites(#[trigger] artifacts[i].1, hash) && cites(
                    #[trigger] artifacts[j].1,
                    hash,
                )
            &&& increasing(reported)
        }),
{
    let cited = cited_hashes(artifacts, artifacts.len());
    let hashes = sorted_texts(cited);
    sorted_texts_hold_each_once(cited);
    lemma_shared_upto(artifacts, hashes, hashes.len());
    lemma_several(artifacts, hash, artifacts.len());
    let reported = shared_of(artifacts).map_values(|s: SharedView| s.hash);
    if exists|i: int, j: int|
        0 <= i < j < artifacts.len() && cites(#[trigger] artifacts[i].1, hash) && cites(
            #[trigger] artifacts[j].1,
            hash,
        ) {
        let (i, j) = choose|i: int, j: int|
            0 <= i < j < artifacts.len() && cites(#[trigger] artifacts[i].1, hash) && cites(
                #[trigger] artifacts[j].1,
                hash,
            );
        lemma_cited(artifacts, artifacts.len(), i, hash);
        assert(hashes.contains(hash));
        let k = choose|k: int| 0 <= k < hashes.len() && hashes[k] == hash;
        assert(reported.contains(hashes[k]));
    }
}

/// The reported hashes: in order, and those among `hashes` with several names.
proof fn lemma_shared_upto(artifacts: Artifacts, hashes: Seq<Seq<char>>, n: nat)
    requires
        increasing(hashes),
        n <= hashes.len(),
    ensures
        ({
            let reported = shared_upto(artifacts, hashes, n).map_values(|s: SharedView| s.hash);
            &&& increasing(reported)
            &&& forall|h: Seq<char>| #[trigger]
                reported.contains(h) ==> citing(artifacts, h, artifacts.len()).len() > 1
                    && exists|k: int| 0 <= k < n && #[trigger] hashes[k] == h
            &&& forall|k: int|
                0 <= k < n && citing(artifacts, #[trigger] hashes[k], artifacts.len()).len() > 1
                    ==> reported.contains(hashes[k])
        }),
    decreases n,
{
    let reported = shared_upto(artifacts, hashes, n).map_values(|s: SharedView| s.hash);
    if n > 0 {
        let m = (n - 1) as nat;
        lemma_shared_upto(artifacts, hashes, m);
        let before = shared_upto(artifacts, hashes, m).map_values(|s: SharedView| s.hash);
        let last = hashes[n - 1];
        if citing(artifacts, last, artifacts.len()).len() > 1 {
            assert(reported =~= before.push(last));
            assert forall|i: int, j: int| 0 <= i < j < reported.len() implies text_before(
                #[trigger] reported[i],
                #[trigger] reported[j],
            ) by {
                if j == before.len() {
                    assert(before.contains(before[i]));
                    let k = choose|k: int| 0 <= k < m && #[trigger] hashes[k] == before[i];
                    assert(text_before(hashes[k], hashes[n - 1]));
                } else {
                    assert(text_before(before[i], before[j]));
                }
            }
            assert forall|h: Seq<char>| #[trigger] reported.contains(h) implies citing(
                artifacts,
                h,
                artifacts.len(),
            ).len() > 1 && exists|k: int| 0 <= k < n && #[trigger] hashes[k] == h by {
                if h != last {
                    let i = choose|i: int| 0 <= i < reported.len() && reported[i] == h;
                    assert(before[i] == h);
                    assert(before.contains(h));
                    let k = choose|k: int| 0 <= k < m && #[trigger] hashes[k] == h;
                    assert(hashes[k] == h);
                } else {
                    assert(hashes[n - 1] == h);
                }
            }
            assert forall|k: int|
                0 <= k < n && citing(artifacts, #[trigger] hashes[k], artifacts.len()).len()
                    > 1 implies reported.contains(hashes[k]) by {
                if k < m {
                    assert(before.contains(hashes[k]));
                    let i = choose|i: int| 0 <= i < before.len() && before[i] == hashes[k];
                    assert(reported[i] == hashes[k]);
                } else {
                    assert(reported[before.len() as int] == last);
                }
            }
        } else {
            assert(reported =~= before);
            assert forall|h: Seq<char>| #[trigger] reported.contains(h) implies exists|k: int|
                0 <= k < n && #[trigger] hashes[k] == h by {
                assert(before.contains(h));
                let k = choose|k: int| 0 <= k < m && #[trigger] hashes[k] == h;
                assert(hashes[k] == h);
            }
        }
    }
}

/// How many of the first `n` artifacts cite a hash: none, one or several.
proof fn lemma_several(artifacts: Artifacts, hash: Seq<char>, n: nat)
    requires
        n <= artifacts.len(),
    ensures
        citing(artifacts, hash, n).len() > 0 <==> exists|i: int|
            0 <= i < n && cites(#[trigger] artifacts[i].1, hash),
        citing(artifacts, hash, n).len() > 1 <==> exists|i: int, j: int|
            0 <= i < j < n && cites(#[trigger] artifacts[i].1, hash) && cites(
                #[trigger] artifacts[j].1,
                hash,
            ),
    decreases n,
{
    if n > 0 {
        let m = (n - 1) as nat;
        lemma_several(artifacts, hash, m);
        if cites(artifacts[n - 1].1, hash) {
            if citing(artifacts, hash, m).len() > 0 {
                let i = choose|i: int| 0 <= i < m && cites(#[trigger] artifacts[i].1, hash);
                assert(cites(artifacts[i].1, hash) && cites(artifacts[n - 1].1, hash));
            }
        }
        if citing(artifacts, hash, m).len() > 1 {
            let (i, j) = choose|i: int, j: int|
                0 <= i < j < m && cites(#[trigger] artifacts[i].1, hash) && cites(
                    #[trigger] artifacts[j].1,
                    hash,
                );
            assert(cites(artifacts[i].1, hash) && cites(artifacts[j].1, hash));
        }
    }
}

/// What an artifact cites is among the cited hashes.
proof fn lemma_cited(artifacts: Artifacts, n: nat, i: int, hash: Seq<char>)
    requires
        0 <= i < n <= artifacts.len(),
        cites(artifacts[i].1, hash),
    ensures
        cited_hashes(artifacts, n).contains(hash),
    decreases n,
{
    let before = cited_hashes(artifacts, (n - 1) as nat);
    let own = hashes_of(citation_views(artifacts[n - 1].1.citations@));
    let all = cited_hashes(artifacts, n);
    if i < n - 1 {
        lemma_cited(artifacts, (n - 1) as nat, i, hash);
        let k = choose|k: int| 0 <= k < before.len() && before[k] == hash;
        assert(all[k] == hash);
    } else {
        let c = artifacts[i].1.citations@;
        let k = choose|k: int| 0 <= k < c.len() && #[trigger] c[k].hash@ == hash;
        assert(own[k] == hash);
        assert(all[before.len() + k] == hash);
    }
}

/// An audit passes only if each cited Block was fetched again from the cited
/// chain and position and still hashes to the cited hash.
pub proof fn sound_audits_rehash_every_citation(
    s: Seq<FetchedView>,
    artifacts: Artifacts,
    i: int,
    j: int,
)
    requires
        sound(audits_of(s, artifacts)),
        0 <= i < artifacts.len(),
        0 <= j < artifacts[i].1.citations@.len(),
    ensures
        ({
            let c = artifacts[i].1.citations@[j]@;
            exists|k: int|
                0 <= k < s.len() && (#[trigger] s[k]).stored == c.hash && s[k].chain == c.chain
                    && s[k].seq == c.seq && s[k].rehashed == c.hash
        }),
{
    let c = artifacts[i].1.citations@[j]@;
    let audits = audits_of(s, artifacts);
    assert(audits[i].citations[j] == audited(s, citation_views(artifacts[i].1.citations@)[j]));
    assert(audits[i].citations[j].verified);
    lemma_fetched_from(s, c.hash, s.len());
}

proof fn lemma_fetched_from(s: Seq<FetchedView>, hash: Seq<char>, n: nat)
    requires
        fetched_at(s, hash, n) is Some,
    ensures
        exists|k: int|
            0 <= k < s.len() && #[trigger] s[k] == fetched_at(s, hash, n)->0 && s[k].stored == hash,
    decreases n,
{
    if s[n - 1].stored == hash {
        assert(s[n - 1] == fetched_at(s, hash, n)->0);
    } else {
        lemma_fetched_from(s, hash, (n - 1) as nat);
    }
}

} // verus!
