//! What citations and their audit stand for.

use vstd::prelude::*;

use crate::audit::{
    audited, audits_of, cites, citing, fetched_at, shared_of, shared_upto, Artifacts, FetchedView,
};
use crate::blocks::{
    citation_order, citation_views, hex_text, lemma_citation_order, sorted_citations, BlockRef,
    CitationView, DatumKind,
};
use crate::dataset::{label_of, named_vehicles, places_of_kind, DatumView};
use crate::sorting::distinct_items_rise;
use crate::text_map::{lemma_before_total, text_before};

verus! {

/// Texts are ordered by the first character in which they differ, and a text
/// comes before those it begins.
pub proof fn texts_differ_in_their_first_difference(
    p: Seq<char>,
    a: Seq<char>,
    b: Seq<char>,
    x: char,
    y: char,
)
    ensures
        x != y ==> (text_before(p + seq![x] + a, p + seq![y] + b) <==> x < y),
        text_before(p, p + seq![x] + a),
        !text_before(p + seq![x] + a, p),
        !text_before(p, p),
    decreases p.len(),
{
    let l = p + seq![x] + a;
    let r = p + seq![y] + b;
    if p.len() > 0 {
        let q = p.skip(1);
        texts_differ_in_their_first_difference(q, a, b, x, y);
        assert(l.skip(1) =~= q + seq![x] + a);
        assert(r.skip(1) =~= q + seq![y] + b);
        assert(l[0] == p[0] && r[0] == p[0]);
    } else {
        assert(l[0] == x && r[0] == y);
    }
}

/// A citation names the Block: its hash in hex, its chain and its position.
/// Citations are ordered by hash, then by chain, then by position.
pub proof fn citations_are_ordered_by_hash_chain_and_position(
    block: BlockRef,
    a: CitationView,
    b: CitationView,
)
    ensures
        block.cited().hash == hex_text(block.hash@),
        block.cited().chain == block.chain@,
        block.cited().seq == block.seq,
        a.hash != b.hash ==> (citation_order()(a, b) <==> text_before(a.hash, b.hash)),
        a.hash == b.hash && a.chain != b.chain ==> (citation_order()(a, b) <==> text_before(
            a.chain,
            b.chain,
        )),
        a.hash == b.hash && a.chain == b.chain ==> (citation_order()(a, b) <==> a.seq < b.seq),
{
    lemma_before_total(a.hash, a.hash);
    lemma_before_total(a.chain, a.chain);
}

/// A list of citations holds each once, in order, and makes none up.
pub proof fn citation_lists_hold_each_once(s: Seq<CitationView>)
    ensures
        forall|c: CitationView| #[trigger] sorted_citations(s).contains(c) <==> s.contains(c),
        forall|i: int, j: int|
            0 <= i < j < sorted_citations(s).len() ==> citation_order()(
                #[trigger] sorted_citations(s)[i],
                #[trigger] sorted_citations(s)[j],
            ),
{
    lemma_citation_order();
    distinct_items_rise(s, citation_order());
}

proof fn lemma_fetched_last(s: Seq<FetchedView>, hash: Seq<char>, n: nat, k: int)
    requires
        n <= s.len(),
        0 <= k < n,
        s[k].stored == hash,
        forall|j: int| k < j < n ==> (#[trigger] s[j]).stored != hash,
    ensures
        fetched_at(s, hash, n) == Some(s[k]),
    decreases n,
{
    if k < n - 1 {
        assert(s[n - 1].stored != hash);
        lemma_fetched_last(s, hash, (n - 1) as nat, k);
    }
}

proof fn lemma_not_fetched(s: Seq<FetchedView>, hash: Seq<char>, n: nat)
    requires
        n <= s.len(),
        forall|j: int| 0 <= j < n ==> (#[trigger] s[j]).stored != hash,
    ensures
        fetched_at(s, hash, n) is None,
    decreases n,
{
    if n > 0 {
        assert(s[n - 1].stored != hash);
        lemma_not_fetched(s, hash, (n - 1) as nat);
    }
}

/// A citation verifies exactly if the Block that was last fetched under its
/// hash lies on its chain at its position and hashes to it again; one that
/// nothing was fetched for does not.
pub proof fn citations_verify_by_what_was_fetched(s: Seq<FetchedView>, c: CitationView, k: int)
    ensures
        audited(s, c).citation == c,
        (forall|j: int| 0 <= j < s.len() ==> (#[trigger] s[j]).stored != c.hash) ==> !audited(
            s,
            c,
        ).verified && audited(s, c).rehashed is None,
        0 <= k < s.len() && s[k].stored == c.hash && (forall|j: int|
            k < j < s.len() ==> (#[trigger] s[j]).stored != c.hash) ==> {
            &&& audited(s, c).verified <==> s[k].chain == c.chain && s[k].seq == c.seq
                && s[k].rehashed == c.hash
            &&& audited(s, c).rehashed == Some(s[k].rehashed)
        },
{
    if forall|j: int| 0 <= j < s.len() ==> (#[trigger] s[j]).stored != c.hash {
        lemma_not_fetched(s, c.hash, s.len());
    }
    if 0 <= k < s.len() && s[k].stored == c.hash && (forall|j: int|
        k < j < s.len() ==> (#[trigger] s[j]).stored != c.hash) {
        lemma_fetched_last(s, c.hash, s.len(), k);
    }
}

/// An audit lists every artifact under its name with every citation it makes,
/// in their order.
pub proof fn audits_cover_every_citation(
    s: Seq<FetchedView>,
    artifacts: Artifacts,
    i: int,
    j: int,
)
    requires
        0 <= i < artifacts.len(),
    ensures
        audits_of(s, artifacts).len() == artifacts.len(),
        audits_of(s, artifacts)[i].name == artifacts[i].0@,
        audits_of(s, artifacts)[i].citations.len() == artifacts[i].1.citations@.len(),
        0 <= j < artifacts[i].1.citations@.len() ==> audits_of(s, artifacts)[i].citations[j].citation
            == artifacts[i].1.citations@[j]@,
{
    let c = citation_views(artifacts[i].1.citations@);
    assert(audits_of(s, artifacts)[i].citations =~= c.map_values(|c: CitationView| audited(s, c)));
}

proof fn lemma_citing(artifacts: Artifacts, hash: Seq<char>, n: nat, name: Seq<char>)
    requires
        n <= artifacts.len(),
    ensures
        citing(artifacts, hash, n).contains(name) <==> exists|i: int|
            0 <= i < n && (#[trigger] artifacts[i]).0@ == name && cites(artifacts[i].1, hash),
    decreases n,
{
    if n > 0 {
        let before = citing(artifacts, hash, (n - 1) as nat);
        lemma_citing(artifacts, hash, (n - 1) as nat, name);
        if cites(artifacts[n - 1].1, hash) {
            let all = before.push(artifacts[n - 1].0@);
            assert(all.last() == artifacts[n - 1].0@);
            if before.contains(name) {
                let k = choose|k: int| 0 <= k < before.len() && before[k] == name;
                assert(all[k] == name);
            }
            if all.contains(name) {
                let k = choose|k: int| 0 <= k < all.len() && all[k] == name;
                if k < before.len() {
                    assert(before[k] == name);
                }
            }
        }
    }
}

proof fn lemma_shared_names(artifacts: Artifacts, hashes: Seq<Seq<char>>, n: nat, i: int)
    requires
        0 <= i < shared_upto(artifacts, hashes, n).len(),
    ensures
        shared_upto(artifacts, hashes, n)[i].artifacts == citing(
            artifacts,
            shared_upto(artifacts, hashes, n)[i].hash,
            artifacts.len(),
        ),
    decreases n,
{
    let before = shared_upto(artifacts, hashes, (n - 1) as nat);
    if i < before.len() {
        lemma_shared_names(artifacts, hashes, (n - 1) as nat, i);
    }
}

/// A shared hash is reported with exactly the artifacts that cite it.
pub proof fn shared_hashes_name_their_artifacts(artifacts: Artifacts, i: int, name: Seq<char>)
    requires
        0 <= i < shared_of(artifacts).len(),
    ensures
        shared_of(artifacts)[i].artifacts.contains(name) <==> exists|k: int|
            0 <= k < artifacts.len() && (#[trigger] artifacts[k]).0@ == name && cites(
                artifacts[k].1,
                shared_of(artifacts)[i].hash,
            ),
{
    let hashes = crate::text_map::sorted_texts(
        crate::audit::cited_hashes(artifacts, artifacts.len()),
    );
    lemma_shared_names(artifacts, hashes, hashes.len(), i);
    lemma_citing(artifacts, shared_of(artifacts)[i].hash, artifacts.len(), name);
}

// ---------------------------------------------------------------------------
// views of a dataset
// ---------------------------------------------------------------------------

/// A run is labelled by its declared id; without one, by the first eight hex
/// digits of its first Block, or as empty.
pub proof fn runs_are_labelled_by_id_or_first_block(
    run_id: Option<Seq<char>>,
    blocks: Seq<BlockRef>,
)
    ensures
        run_id matches Some(id) ==> label_of(run_id, blocks) == id,
        run_id is None && blocks.len() == 0 ==> label_of(run_id, blocks) == "run-empty"@,
        run_id is None && blocks.len() > 0 ==> label_of(run_id, blocks) == "run-"@ + hex_text(
            blocks[0].hash@,
        ).take(8),
{
}

/// The data of a kind are listed by their positions, in order, and none is
/// left out.
pub proof fn kinds_are_listed_by_position(data: Seq<DatumView>, kind: DatumKind, n: nat)
    requires
        n <= data.len(),
    ensures
        ({
            let p = places_of_kind(data, kind, n);
            &&& forall|i: int|
                0 <= i < p.len() ==> 0 <= #[trigger] p[i] < n && data[p[i]].kind == kind
            &&& forall|i: int, j: int| 0 <= i < j < p.len() ==> #[trigger] p[i] < #[trigger] p[j]
            &&& forall|k: int|
                0 <= k < n && (#[trigger] data[k]).kind == kind ==> p.contains(k)
        }),
    decreases n,
{
    if n > 0 {
        kinds_are_listed_by_position(data, kind, (n - 1) as nat);
        let before = places_of_kind(data, kind, (n - 1) as nat);
        let p = places_of_kind(data, kind, n);
        assert forall|k: int| 0 <= k < n && (#[trigger] data[k]).kind == kind implies p.contains(
            k,
        ) by {
            if k < n - 1 {
                assert(before.contains(k));
                let i = choose|i: int| 0 <= i < before.len() && before[i] == k;
                assert(p[i] == k);
            } else {
                assert(p.last() == k);
            }
        }
    }
}

/// The vehicles of a dataset are those that some datum names.
pub proof fn vehicles_are_those_named(data: Seq<DatumView>, n: nat, v: Seq<char>)
    requires
        n <= data.len(),
    ensures
        named_vehicles(data, n).contains(v) <==> exists|i: int|
            0 <= i < n && (#[trigger] data[i]).vehicle == Some(v),
    decreases n,
{
    if n > 0 {
        vehicles_are_those_named(data, (n - 1) as nat, v);
        let before = named_vehicles(data, (n - 1) as nat);
        match data[n - 1].vehicle {
            Some(w) => {
                let all = before.push(w);
                assert(all.last() == w);
                if before.contains(v) {
                    let k = choose|k: int| 0 <= k < before.len() && before[k] == v;
                    assert(all[k] == v);
                }
                if all.contains(v) {
                    let k = choose|k: int| 0 <= k < all.len() && all[k] == v;
                    if k < before.len() {
                        assert(before[k] == v);
                    } else {
                        assert(data[n - 1].vehicle == Some(v));
                    }
                }
            },
            None => {},
        }
    }
}

} // verus!
