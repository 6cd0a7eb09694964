//! How a bound lens reaches its renderer: the handle it is given, the ids it
//! is registered under, and the file each intent renders to.

use vstd::prelude::*;

use crate::blocks::{citation_order, citation_views, lemma_citation_order, CitationView};
use crate::dataset::cited_blocks;
use crate::lens::{clauses, intent, renderer};
use crate::render::compare::{all_valid, cited_runs, compare_of, listed_citations};
use crate::render::deck::deck_of;
use crate::render::demo::demo_of;
use crate::render::report::report_of;
use crate::render::{compare, deck, demo, report, RenderedArtifact, Run, RunSet};
use crate::sorting::distinct_items_rise;
use crate::text::{cat, dec, dec_text, same, views};
use crate::text_map::TextMap;

verus! {

/// Kind of the handle of one run's dataset.
pub const VM_DATASET: &'static str = "mission-dataset";

/// Kind of the handle of a set of runs.
pub const VM_RUN_SET: &'static str = "run-set";

/// The name of the set of runs.
pub const RUN_SET_NAME: &'static str = "/muas/v3/artifacts/run-set";

/// What a bound renderer is given: the data by name, never a copy.
#[derive(Debug)]
pub struct DatasetView {
    pub name: String,
    pub media_type: String,
    pub size: u64,
    pub kind: String,
}

/// A view model: a raw handle, or one of another kind.
#[derive(Debug)]
pub enum ViewModel {
    Raw(DatasetView),
    Other(String),
}

/// A view model by the kind of what it handles.
pub enum HandleView {
    Raw(Seq<char>),
    Other(Seq<char>),
}

impl View for ViewModel {
    type V = HandleView;

    open spec fn view(&self) -> HandleView {
        match *self {
            ViewModel::Raw(raw) => HandleView::Raw(raw.kind@),
            ViewModel::Other(kind) => HandleView::Other(kind@),
        }
    }
}

/// Why a renderer does not render.
#[derive(Debug)]
pub enum RenderError {
    Unrenderable { renderer: String, reason: String },
    WrongViewModel { renderer: String, expected: String, got: String },
    Unregistered { renderer: String },
}

/// A refusal by its texts.
pub enum ErrorView {
    Unrenderable(Seq<char>, Seq<char>),
    WrongViewModel(Seq<char>, Seq<char>, Seq<char>),
    Unregistered(Seq<char>),
}

impl View for RenderError {
    type V = ErrorView;

    open spec fn view(&self) -> ErrorView {
        match *self {
            RenderError::Unrenderable { renderer, reason } => ErrorView::Unrenderable(
                renderer@,
                reason@,
            ),
            RenderError::WrongViewModel { renderer, expected, got } => ErrorView::WrongViewModel(
                renderer@,
                expected@,
                got@,
            ),
            RenderError::Unregistered { renderer } => ErrorView::Unregistered(renderer@),
        }
    }
}

/// Why a handle does not suit a renderer that wants one of a kind.
pub open spec fn handle_refusal(
    vm: HandleView,
    id: Seq<char>,
    want: Seq<char>,
) -> Option<ErrorView> {
    match vm {
        HandleView::Raw(kind) => if kind == want {
            None
        } else {
            Some(
                ErrorView::Unrenderable(
                    id,
                    "expected a "@ + want + " handle, got kind `"@ + kind + "`"@,
                ),
            )
        },
        HandleView::Other(kind) => Some(ErrorView::WrongViewModel(id, "raw"@, kind)),
    }
}

/// Whether a handle suits a renderer that wants one of a kind.
pub fn expect_vm(vm: &ViewModel, id: &str, want: &str) -> (r: Result<(), RenderError>)
    ensures
        match r {
            Ok(_) => handle_refusal(vm@, id@, want@) is None,
            Err(e) => handle_refusal(vm@, id@, want@) == Some(e@),
        },
{
    match vm {
        ViewModel::Raw(raw) => if same(raw.kind.as_str(), want) {
            Ok(())
        } else {
            let mut reason = cat("expected a ", want);
            reason.append(" handle, got kind `");
            reason.append(raw.kind.as_str());
            reason.append("`");
            Err(RenderError::Unrenderable { renderer: id.to_owned(), reason })
        },
        ViewModel::Other(kind) => Err(
            RenderError::WrongViewModel {
                renderer: id.to_owned(),
                expected: "raw".to_owned(),
                got: kind.clone(),
            },
        ),
    }
}

/// The name of a run's dataset.
pub open spec fn dataset_name(set: RunSet) -> Seq<char> {
    "/muas/v3/artifacts/run/"@ + (if set.runs@.len() > 0 {
        set.runs@[0].label()
    } else {
        ""@
    })
}

/// The name that an instance manifest of the dataset describes.
pub fn dataset_subject(set: &RunSet) -> (r: String)
    ensures
        r@ == dataset_name(*set),
{
    if set.runs.len() > 0 {
        cat("/muas/v3/artifacts/run/", set.runs[0].dataset.run_label().as_str())
    } else {
        cat("/muas/v3/artifacts/run/", "")
    }
}

/// The kind of the handle of an intent.
pub open spec fn handle_of(which: Seq<char>) -> HandleView {
    HandleView::Raw(
        if which == intent::COMPARE@ {
            VM_RUN_SET@
        } else {
            VM_DATASET@
        },
    )
}

/// The handle of an intent: the data named, not copied.
pub fn dataset_view(set: &RunSet, which: &str) -> (r: ViewModel)
    ensures
        r@ == handle_of(which@),
        match r {
            ViewModel::Raw(v) => v.media_type@ == "application/x-mission-dataset"@ && (if which@
                == intent::COMPARE@ {
                v.kind@ == VM_RUN_SET@ && v.name@ == RUN_SET_NAME@ && v.size == set.runs@.len()
            } else {
                v.kind@ == VM_DATASET@ && v.name@ == dataset_name(*set) && v.size == (
                if set.runs@.len() > 0 {
                    set.runs@[0].dataset.data@.len()
                } else {
                    0
                })
            }),
            ViewModel::Other(_) => false,
        },
{
    let media_type = "application/x-mission-dataset".to_owned();
    if same(which, intent::COMPARE) {
        ViewModel::Raw(
            DatasetView {
                name: RUN_SET_NAME.to_owned(),
                media_type,
                size: set.runs.len() as u64,
                kind: VM_RUN_SET.to_owned(),
            },
        )
    } else {
        ViewModel::Raw(
            DatasetView {
                name: dataset_subject(set),
                media_type,
                size: if set.runs.len() > 0 {
                    set.runs[0].dataset.data.len() as u64
                } else {
                    0
                },
                kind: VM_DATASET.to_owned(),
            },
        )
    }
}

/// The file that an intent renders to.
pub open spec fn filename_of(which: Seq<char>) -> Seq<char> {
    if which == intent::REPORT@ {
        "report.html"@
    } else if which == intent::DECK@ {
        "deck.html"@
    } else if which == intent::DEMO@ {
        "demo.html"@
    } else if which == intent::COMPARE@ {
        "compare.html"@
    } else {
        "artifact.html"@
    }
}

/// File name each intent renders to.
pub fn artifact_filename(which: &str) -> (r: &'static str)
    ensures
        r@ == filename_of(which@),
{
    if same(which, intent::REPORT) {
        "report.html"
    } else if same(which, intent::DECK) {
        "deck.html"
    } else if same(which, intent::DEMO) {
        "demo.html"
    } else if same(which, intent::COMPARE) {
        "compare.html"
    } else {
        "artifact.html"
    }
}

/// Whether an id is that of a single-run renderer.
pub open spec fn reads_one_run(id: Seq<char>) -> bool {
    id == renderer::REPORT@ || id == renderer::DECK@ || id == renderer::DEMO@
}

/// Why a registered renderer does not render a set of runs.
pub open spec fn refusal(set: RunSet, id: Seq<char>, vm: HandleView) -> Option<ErrorView> {
    if reads_one_run(id) {
        match handle_refusal(vm, id, VM_DATASET@) {
            Some(e) => Some(e),
            None => if set.runs@.len() == 0 {
                Some(ErrorView::Unrenderable(id, "empty run set"@))
            } else {
                None
            },
        }
    } else if id == renderer::COMPARE@ {
        match handle_refusal(vm, id, VM_RUN_SET@) {
            Some(e) => Some(e),
            None => if set.runs@.len() < 2 {
                Some(
                    ErrorView::Unrenderable(
                        id,
                        "comparison needs >= 2 runs, got "@ + dec_text(set.runs@.len()),
                    ),
                )
            } else {
                None
            },
        }
    } else {
        Some(ErrorView::Unregistered(id))
    }
}

/// The page that a registered renderer gives.
pub open spec fn page_by(set: RunSet, id: Seq<char>) -> Seq<char> {
    let run = set.runs@[0];
    if id == renderer::REPORT@ {
        report_of(run.dataset, run.measured@)
    } else if id == renderer::DECK@ {
        deck_of(run.dataset, run.measured@, run.chart@)
    } else if id == renderer::DEMO@ {
        demo_of(run.dataset, views(run.times@), run.duration@)
    } else {
        compare_of(set.runs@)
    }
}

/// The citations that a registered renderer gives.
pub open spec fn citations_by(set: RunSet, id: Seq<char>) -> Seq<CitationView> {
    if reads_one_run(id) {
        cited_blocks(set.runs@[0].dataset.blocks@)
    } else {
        cited_runs(set.runs@)
    }
}

/// Render through a registered id. Every renderer reads the same set of runs.
pub fn render_by(set: &RunSet, id: &str, vm: &ViewModel) -> (r: Result<RenderedArtifact, RenderError>)
    requires
        all_valid(set.runs@),
    ensures
        match r {
            Ok(a) => refusal(*set, id@, vm@) is None && a.html@ == page_by(*set, id@)
                && citation_views(a.citations@) == citations_by(*set, id@),
            Err(e) => refusal(*set, id@, vm@) == Some(e@),
        },
{
    let one = same(id, renderer::REPORT) || same(id, renderer::DECK) || same(id, renderer::DEMO);
    if one {
        match expect_vm(vm, id, VM_DATASET) {
            Ok(_) => {},
            Err(e) => {
                return Err(e);
            },
        }
        if set.runs.len() == 0 {
            return Err(
                RenderError::Unrenderable {
                    renderer: id.to_owned(),
                    reason: "empty run set".to_owned(),
                },
            );
        }
        let run = &set.runs[0];
        assert(set.runs@[0].valid());
        if same(id, renderer::REPORT) {
            Ok(report::render(&run.dataset, &run.measured))
        } else if same(id, renderer::DECK) {
            Ok(deck::render(&run.dataset, &run.measured, &run.chart))
        } else {
            Ok(demo::render(&run.dataset, &run.times, run.duration.as_str()))
        }
    } else if same(id, renderer::COMPARE) {
        match expect_vm(vm, id, VM_RUN_SET) {
            Ok(_) => {},
            Err(e) => {
                return Err(e);
            },
        }
        let n: usize = set.runs.len();
        if n < 2 {
            let reason = cat("comparison needs >= 2 runs, got ", dec(n as u64).as_str());
            return Err(RenderError::Unrenderable { renderer: id.to_owned(), reason });
        }
        Ok(compare::render(&set.runs))
    } else {
        Err(RenderError::Unregistered { renderer: id.to_owned() })
    }
}

/// Why no artifact is produced for an intent.
#[derive(Debug)]
pub enum ProduceError {
    /// The intent was not bound to a renderer.
    Bind { intent: String, error: String },
    /// Its renderer does not render.
    Render { intent: String, error: RenderError },
}

/// A failure by its texts.
pub enum FailureView {
    Bind(Seq<char>, Seq<char>),
    Render(Seq<char>, ErrorView),
}

impl View for ProduceError {
    type V = FailureView;

    open spec fn view(&self) -> FailureView {
        match *self {
            ProduceError::Bind { intent, error } => FailureView::Bind(intent@, error@),
            ProduceError::Render { intent, error } => FailureView::Render(intent@, error@),
        }
    }
}

/// An intent with the renderer it was bound to, or why it was not.
#[derive(Debug)]
pub struct Binding {
    pub intent: String,
    pub renderer: Result<String, String>,
}

/// Why a binding gives no artifact.
#[verifier::opaque]
pub open spec fn failure(set: RunSet, b: Binding) -> Option<FailureView> {
    match b.renderer {
        Err(e) => Some(FailureView::Bind(b.intent@, e@)),
        Ok(id) => match refusal(set, id@, handle_of(b.intent@)) {
            Some(e) => Some(FailureView::Render(b.intent@, e)),
            None => None,
        },
    }
}

/// The last of the first `n` bindings that renders to a file.
pub open spec fn last_for(bindings: Seq<Binding>, file: Seq<char>, n: nat) -> Option<int>
    decreases n,
{
    if n == 0 || n > bindings.len() {
        None
    } else if filename_of(bindings[n - 1].intent@) == file {
        Some(n - 1)
    } else {
        last_for(bindings, file, (n - 1) as nat)
    }
}

/// Whether an artifact is what a binding renders.
#[verifier::opaque]
pub open spec fn renders(set: RunSet, b: Binding, a: RenderedArtifact) -> bool {
    match b.renderer {
        Ok(id) => a.html@ == page_by(set, id@) && citation_views(a.citations@) == citations_by(
            set,
            id@,
        ),
        Err(_) => false,
    }
}

/// Whether a file holds what the first `n` bindings render to it.
pub open spec fn holds(
    set: RunSet,
    bindings: Seq<Binding>,
    n: nat,
    file: Seq<char>,
    a: Option<RenderedArtifact>,
) -> bool {
    match last_for(bindings, file, n) {
        Some(i) => a is Some && renders(set, bindings[i], a->0),
        None => a is None,
    }
}

/// Produce the artifact of one bound intent.
pub fn produce_one(set: &RunSet, b: &Binding) -> (r: Result<RenderedArtifact, ProduceError>)
    requires
        all_valid(set.runs@),
    ensures
        match r {
            Ok(a) => failure(*set, *b) is None && renders(*set, *b, a),
            Err(e) => failure(*set, *b) == Some(e@),
        },
{
    reveal(failure);
    reveal(renders);
    let id = match &b.renderer {
        Ok(id) => id,
        Err(e) => {
            return Err(ProduceError::Bind { intent: b.intent.clone(), error: e.clone() });
        },
    };
    let vm = dataset_view(set, b.intent.as_str());
    match render_by(set, id.as_str(), &vm) {
        Ok(a) => Ok(a),
        Err(e) => Err(ProduceError::Render { intent: b.intent.clone(), error: e }),
    }
}

/// Produce the artifacts of bound intents, by file name. The first binding
/// that gives none is reported.
pub fn produce(set: &RunSet, bindings: &Vec<Binding>) -> (r: Result<
    TextMap<RenderedArtifact>,
    ProduceError,
>)
    requires
        all_valid(set.runs@),
    ensures
        match r {
            Ok(m) => m.ordered() && (forall|i: int|
                0 <= i < bindings@.len() ==> failure(*set, #[trigger] bindings@[i]) is None) && (
            forall|f: Seq<char>|
                holds(*set, bindings@, bindings@.len(), f, #[trigger] m.lookup(f))),
            Err(e) => exists|i: int|
                0 <= i < bindings@.len() && failure(*set, #[trigger] bindings@[i]) == Some(e@) && (
                forall|j: int| 0 <= j < i ==> failure(*set, #[trigger] bindings@[j]) is None),
        },
{
    let mut out: TextMap<RenderedArtifact> = TextMap::new();
    let mut i: usize = 0;
    proof {
        assert forall|f: Seq<char>| holds(*set, bindings@, 0, f, #[trigger] out.lookup(f)) by {
            assert(!out.has(f));
        }
    }
    while i < bindings.len()
        invariant
            i <= bindings@.len(),
            all_valid(set.runs@),
            out.ordered(),
            forall|j: int| 0 <= j < i ==> failure(*set, #[trigger] bindings@[j]) is None,
            forall|f: Seq<char>| holds(*set, bindings@, i as nat, f, #[trigger] out.lookup(f)),
        decreases bindings@.len() - i,
    {
        let b = &bindings[i];
        let ghost before = out;
        match produce_one(set, b) {
            Ok(a) => {
                out.insert(artifact_filename(b.intent.as_str()).to_owned(), a);
                proof {
                    assert forall|f: Seq<char>|
                        holds(*set, bindings@, (i + 1) as nat, f, #[trigger] out.lookup(f)) by {
                        let old_value = before.lookup(f);
                    }
                }
            },
            Err(e) => {
                return Err(e);
            },
        }
        i = i + 1;
    }
    Ok(out)
}

/// Two lenses over one run cite the same Blocks: report, deck and demo are
/// derived from the same set.
pub proof fn single_run_lenses_cite_the_same_blocks(set: RunSet, a: Seq<char>, b: Seq<char>)
    requires
        reads_one_run(a),
        reads_one_run(b),
    ensures
        citations_by(set, a) == citations_by(set, b),
{
}

/// The comparison cites every Block that a single-run lens over one of its
/// runs cites, with the same hash, chain and position.
pub proof fn comparisons_cite_every_run(set: RunSet, i: int, c: CitationView)
    requires
        0 <= i < set.runs@.len(),
        cited_blocks(set.runs@[i].dataset.blocks@).contains(c),
    ensures
        citations_by(set, renderer::COMPARE@).contains(c),
{
    reveal_strlit("artifact.render.compare");
    reveal_strlit("artifact.render.report");
    reveal_strlit("artifact.render.deck");
    reveal_strlit("artifact.render.demo");
    assert(renderer::COMPARE@[16] == 'c');
    assert(renderer::REPORT@[16] == 'r');
    assert(renderer::DECK@[16] == 'd');
    assert(renderer::DEMO@[16] == 'd');
    let n = set.runs@.len();
    lemma_listed(set.runs@, n, i, c);
    lemma_citation_order();
    distinct_items_rise(listed_citations(set.runs@, n), citation_order());
}

proof fn lemma_listed(runs: Seq<Run>, n: nat, i: int, c: CitationView)
    requires
        0 <= i < n <= runs.len(),
        cited_blocks(runs[i].dataset.blocks@).contains(c),
    ensures
        listed_citations(runs, n).contains(c),
    decreases n,
{
    let front = listed_citations(runs, (n - 1) as nat);
    let own = cited_blocks(runs[n - 1].dataset.blocks@);
    let all = listed_citations(runs, n);
    if i == n - 1 {
        let k = choose|k: int| 0 <= k < own.len() && own[k] == c;
        assert(all[front.len() + k] == c);
    } else {
        lemma_listed(runs, (n - 1) as nat, i, c);
        let k = choose|k: int| 0 <= k < front.len() && front[k] == c;
        assert(all[k] == c);
    }
}

/// Every clause of the render contract reaches a registered renderer that
/// takes the handle of its intent, for two runs or more.
pub proof fn every_clause_renders(set: RunSet, i: int)
    requires
        0 <= i < clauses().len(),
        set.runs@.len() >= 2,
    ensures
        refusal(set, clauses()[i].via, handle_of(clauses()[i].intent)) is None,
{
    reveal_strlit("artifact.report");
    reveal_strlit("artifact.deck");
    reveal_strlit("artifact.demo");
    reveal_strlit("artifact.compare");
    assert(intent::COMPARE@[9] == 'c');
    assert(intent::REPORT@[9] == 'r');
    assert(intent::DECK@[9] == 'd');
    assert(intent::DEMO@[9] == 'd');
    reveal_strlit("artifact.render.compare");
    reveal_strlit("artifact.render.report");
    reveal_strlit("artifact.render.deck");
    reveal_strlit("artifact.render.demo");
    assert(renderer::COMPARE@[16] == 'c');
    assert(renderer::REPORT@[16] == 'r');
    assert(renderer::DECK@[16] == 'd');
    assert(renderer::DEMO@[16] == 'd');
}

} // verus!
