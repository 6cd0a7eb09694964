//! The artifact lenses: the vocabulary of subject kinds and lens targets, and
//! the render contract over it. Four intents, four native renderer ids, one
//! subject kind for every single-run lens: artifacts differ only in lens,
//! never in data.

use vstd::prelude::*;

use crate::text::same;

pub mod intent;
pub mod renderer;

verus! {

/// The terms of the vocabulary.
#[derive(Clone, Copy, Debug, PartialEq, Eq, Structural)]
pub enum Term {
    /// Subject kind: one run's mission dataset.
    MissionDataset,
    /// Subject kind of a comparison: an ordered set of run datasets.
    RunSet,
    /// Target of the report intent.
    MissionReport,
    /// Target of the deck intent.
    MissionDeck,
    /// Target of the demo intent.
    MissionReplay,
    /// Target of the comparison intent.
    MissionComparison,
}

impl Term {
    /// The label of a term.
    pub open spec fn label_text(self) -> Seq<char> {
        match self {
            Term::MissionDataset => "mission-dataset"@,
            Term::RunSet => "run-set"@,
            Term::MissionReport => "mission-report"@,
            Term::MissionDeck => "mission-deck"@,
            Term::MissionReplay => "mission-replay"@,
            Term::MissionComparison => "mission-comparison"@,
        }
    }

    /// The label of a term.
    pub fn label(&self) -> (r: &'static str)
        ensures
            r@ == self.label_text(),
    {
        match self {
            Term::MissionDataset => "mission-dataset",
            Term::RunSet => "run-set",
            Term::MissionReport => "mission-report",
            Term::MissionDeck => "mission-deck",
            Term::MissionReplay => "mission-replay",
            Term::MissionComparison => "mission-comparison",
        }
    }

    /// What a term means.
    pub open spec fn doc_text(self) -> Seq<char> {
        match self {
            Term::MissionDataset => "One run's mission data as resolved, content-addressed Blocks: the run \
                 configuration (the inputs) plus every journaled event, telemetry \
                 sample, coordination decision, service call, and link-health datum \
                 (the outcomes), each carrying the hash, chain, and seq of the Block \
                 it came from. There is exactly one of these per run — every artifact \
                 is a lens over it, never a copy of it."@,
            Term::RunSet => "An ordered set of mission-datasets from different runs, for \
                 input→output association across runs: which settings changed, and how \
                 the outcomes moved with them (associated settings, never claimed \
                 causality)."@,
            Term::MissionReport => "The operator/engineer lens: run configuration first, then timeline, \
                 per-vehicle flight summaries, and network health, each outcome \
                 correlated to the settings that shaped it, with Block-hash provenance \
                 behind progressive disclosure."@,
            Term::MissionDeck => "The stakeholder lens: few slides, high level — outcome, one \
                 coordination chart, a link table — same data, same hashes, less \
                 detail."@,
            Term::MissionReplay => "The demo lens: the mission animated on a miniature map from the same \
                 telemetry the report summarizes."@,
            Term::MissionComparison => "The cross-run lens: a sortable settings×outcomes table with setting \
                 deltas highlighted, and an overlay map of every run's tracks \
                 color-coded by run."@,
        }
    }

    /// What a term means.
    pub fn doc(&self) -> (r: &'static str)
        ensures
            r@ == self.doc_text(),
    {
        match self {
            Term::MissionDataset => "One run's mission data as resolved, content-addressed Blocks: the run \
                 configuration (the inputs) plus every journaled event, telemetry \
                 sample, coordination decision, service call, and link-health datum \
                 (the outcomes), each carrying the hash, chain, and seq of the Block \
                 it came from. There is exactly one of these per run — every artifact \
                 is a lens over it, never a copy of it.",
            Term::RunSet => "An ordered set of mission-datasets from different runs, for \
                 input→output association across runs: which settings changed, and how \
                 the outcomes moved with them (associated settings, never claimed \
                 causality).",
            Term::MissionReport => "The operator/engineer lens: run configuration first, then timeline, \
                 per-vehicle flight summaries, and network health, each outcome \
                 correlated to the settings that shaped it, with Block-hash provenance \
                 behind progressive disclosure.",
            Term::MissionDeck => "The stakeholder lens: few slides, high level — outcome, one \
                 coordination chart, a link table — same data, same hashes, less \
                 detail.",
            Term::MissionReplay => "The demo lens: the mission animated on a miniature map from the same \
                 telemetry the report summarizes.",
            Term::MissionComparison => "The cross-run lens: a sortable settings×outcomes table with setting \
                 deltas highlighted, and an overlay map of every run's tracks \
                 color-coded by run.",
        }
    }
}

/// A term below a broader one: what is the narrower can be seen as the
/// broader.
#[derive(Clone, Copy, Debug, PartialEq, Eq, Structural)]
pub struct Edge {
    pub narrower: Term,
    pub broader: Term,
}

/// The lens vocabulary.
#[derive(Debug)]
pub struct Vocabulary {
    pub label: &'static str,
    pub doc: &'static str,
    pub terms: Vec<Term>,
    pub edges: Vec<Edge>,
}

/// What the vocabulary is.
pub const VOCABULARY_DOC: &'static str = "Lenses over one named mission dataset. The same mission-dataset term reaches \
     report, deck, and replay — three audiences, zero data copies; provenance is the \
     Block hash.";

/// What the render contract is.
pub const CONTRACT_DOC: &'static str = "Render contracts for the mission artifact lenses. Every clause targets a lens \
     term reachable from the ONE dataset kind — an artifact is a matched, authorized \
     rendering, never a private export.";

/// The terms, in the order in which the vocabulary defines them.
pub open spec fn terms() -> Seq<Term> {
    seq![
        Term::MissionDataset,
        Term::RunSet,
        Term::MissionReport,
        Term::MissionDeck,
        Term::MissionReplay,
        Term::MissionComparison,
    ]
}

/// The edges: one dataset expresses three lenses, a set of runs the fourth.
pub open spec fn edges() -> Seq<Edge> {
    seq![
        Edge { narrower: Term::MissionDataset, broader: Term::MissionReport },
        Edge { narrower: Term::MissionDataset, broader: Term::MissionDeck },
        Edge { narrower: Term::MissionDataset, broader: Term::MissionReplay },
        Edge { narrower: Term::RunSet, broader: Term::MissionComparison },
    ]
}

/// The terms of the vocabulary.
pub fn artifact_terms() -> (r: Vec<Term>)
    ensures
        r@ == terms(),
{
    let mut v: Vec<Term> = Vec::new();
    v.push(Term::MissionDataset);
    v.push(Term::RunSet);
    v.push(Term::MissionReport);
    v.push(Term::MissionDeck);
    v.push(Term::MissionReplay);
    v.push(Term::MissionComparison);
    assert(v@ =~= terms());
    v
}

/// The lens vocabulary: the dataset and run-set kinds, the four lens targets,
/// and the edges between them.
pub fn artifact_vocabulary() -> (r: Vocabulary)
    ensures
        r.label@ == "artifact-lenses"@,
        r.doc@ == VOCABULARY_DOC@,
        r.terms@ == terms(),
        r.edges@ == edges(),
{
    let mut v: Vec<Edge> = Vec::new();
    v.push(Edge { narrower: Term::MissionDataset, broader: Term::MissionReport });
    v.push(Edge { narrower: Term::MissionDataset, broader: Term::MissionDeck });
    v.push(Edge { narrower: Term::MissionDataset, broader: Term::MissionReplay });
    v.push(Edge { narrower: Term::RunSet, broader: Term::MissionComparison });
    assert(v@ =~= edges());
    Vocabulary { label: "artifact-lenses", doc: VOCABULARY_DOC, terms: artifact_terms(), edges: v }
}

/// A clause of the render contract: an intent on a target goes to a native
/// renderer.
#[derive(Debug)]
pub struct Clause {
    pub intent: &'static str,
    pub target: Term,
    pub via: &'static str,
}

/// A clause by its values.
#[verifier::ext_equal]
pub struct ClauseView {
    pub intent: Seq<char>,
    pub target: Term,
    pub via: Seq<char>,
}

impl View for Clause {
    type V = ClauseView;

    open spec fn view(&self) -> ClauseView {
        ClauseView { intent: self.intent@, target: self.target, via: self.via@ }
    }
}

/// Clauses by their views.
pub open spec fn clause_views(v: Seq<Clause>) -> Seq<ClauseView> {
    v.map_values(|c: Clause| c@)
}

/// The clauses of the render contract, one for each lens.
pub open spec fn clauses() -> Seq<ClauseView> {
    seq![
        ClauseView {
            intent: intent::REPORT@,
            target: Term::MissionReport,
            via: renderer::REPORT@,
        },
        ClauseView { intent: intent::DECK@, target: Term::MissionDeck, via: renderer::DECK@ },
        ClauseView { intent: intent::DEMO@, target: Term::MissionReplay, via: renderer::DEMO@ },
        ClauseView {
            intent: intent::COMPARE@,
            target: Term::MissionComparison,
            via: renderer::COMPARE@,
        },
    ]
}

/// The render contract.
#[derive(Debug)]
pub struct Contract {
    pub label: &'static str,
    pub doc: &'static str,
    pub clauses: Vec<Clause>,
}

/// The artifact render contract: four clauses, one for each lens.
pub fn artifact_contract() -> (r: Contract)
    ensures
        r.label@ == "mission-artifacts"@,
        r.doc@ == CONTRACT_DOC@,
        clause_views(r.clauses@) == clauses(),
{
    let mut v: Vec<Clause> = Vec::new();
    v.push(
        Clause { intent: intent::REPORT, target: Term::MissionReport, via: renderer::REPORT },
    );
    v.push(Clause { intent: intent::DECK, target: Term::MissionDeck, via: renderer::DECK });
    v.push(Clause { intent: intent::DEMO, target: Term::MissionReplay, via: renderer::DEMO });
    v.push(
        Clause {
            intent: intent::COMPARE,
            target: Term::MissionComparison,
            via: renderer::COMPARE,
        },
    );
    assert(clause_views(v@) =~= clauses());
    Contract { label: "mission-artifacts", doc: CONTRACT_DOC, clauses: v }
}

/// The kind of what an intent is about.
pub open spec fn subject_kind(which: Seq<char>) -> Term {
    if which == intent::COMPARE@ {
        Term::RunSet
    } else {
        Term::MissionDataset
    }
}

/// The kind of what an intent is about: the comparison is about a set of runs,
/// every other lens about one dataset.
pub fn subject_of(which: &str) -> (r: Term)
    ensures
        r == subject_kind(which@),
{
    if same(which, intent::COMPARE) {
        Term::RunSet
    } else {
        Term::MissionDataset
    }
}

/// Every lens reaches its target from the kind it is about: the target of each
/// clause is broader than the subject of its intent.
pub proof fn every_lens_is_reachable(i: int)
    requires
        0 <= i < clauses().len(),
    ensures
        edges().contains(
            Edge { narrower: subject_kind(clauses()[i].intent), broader: clauses()[i].target },
        ),
{
    reveal_strlit("artifact.report");
    reveal_strlit("artifact.deck");
    reveal_strlit("artifact.demo");
    reveal_strlit("artifact.compare");
    assert(intent::COMPARE@[9] == 'c');
    assert(intent::REPORT@[9] == 'r');
    assert(intent::DECK@[9] == 'd');
    assert(intent::DEMO@[9] == 'd');
    assert(edges()[i] == (Edge {
        narrower: subject_kind(clauses()[i].intent),
        broader: clauses()[i].target,
    }));
}

/// One dataset reaches three lenses, and nothing but them.
pub proof fn one_dataset_reaches_three_lenses(target: Term)
    ensures
        edges().contains(Edge { narrower: Term::MissionDataset, broader: target }) <==> (target
            == Term::MissionReport || target == Term::MissionDeck || target == Term::MissionReplay),
{
    let e = Edge { narrower: Term::MissionDataset, broader: target };
    assert(edges()[0].broader == Term::MissionReport);
    assert(edges()[1].broader == Term::MissionDeck);
    assert(edges()[2].broader == Term::MissionReplay);
    assert(edges()[3].narrower == Term::RunSet);
    if edges().contains(e) {
        let k = choose|k: int| 0 <= k < edges().len() && edges()[k] == e;
        assert(k == 0 || k == 1 || k == 2 || k == 3);
    }
    if target == Term::MissionReport {
        assert(edges()[0] == e);
    }
    if target == Term::MissionDeck {
        assert(edges()[1] == e);
    }
    if target == Term::MissionReplay {
        assert(edges()[2] == e);
    }
}

} // verus!
