use minimuas::lens::{
    artifact_contract, artifact_terms, artifact_vocabulary, intent, renderer, subject_of, Edge, Term,
};

#[test]
fn contract_covers_all_four_lenses_via_native() {
    let built = artifact_contract();
    let expressed: Vec<(&str, &str)> = built.clauses.iter().map(|c| (c.intent, c.via)).collect();
    assert_eq!(
        expressed,
        [
            (intent::REPORT, renderer::REPORT),
            (intent::DECK, renderer::DECK),
            (intent::DEMO, renderer::DEMO),
            (intent::COMPARE, renderer::COMPARE),
        ]
    );
    assert_eq!(built.label, "mission-artifacts");
}

#[test]
fn one_dataset_term_reaches_three_lenses() {
    let v = artifact_vocabulary();
    for target in [Term::MissionReport, Term::MissionDeck, Term::MissionReplay] {
        assert!(
            v.edges.contains(&Edge { narrower: Term::MissionDataset, broader: target }),
            "the ONE dataset kind reaches every single-run lens"
        );
    }
    assert!(v
        .edges
        .contains(&Edge { narrower: Term::RunSet, broader: Term::MissionComparison }));
}

#[test]
fn renderer_ids_never_name_an_app() {
    for id in [renderer::REPORT, renderer::DECK, renderer::DEMO, renderer::COMPARE] {
        assert!(!id.to_ascii_lowercase().contains("muas"), "renderer id `{id}` names an app");
    }
}

#[test]
fn every_clause_targets_what_its_subject_reaches() {
    let v = artifact_vocabulary();
    for c in &artifact_contract().clauses {
        assert!(v.edges.contains(&Edge { narrower: subject_of(c.intent), broader: c.target }));
    }
    assert_eq!(artifact_terms(), v.terms);
    let labels: Vec<&str> = v.terms.iter().map(|t| t.label()).collect();
    assert_eq!(
        labels,
        [
            "mission-dataset",
            "run-set",
            "mission-report",
            "mission-deck",
            "mission-replay",
            "mission-comparison",
        ]
    );
    assert!(Term::RunSet.doc().starts_with("An ordered set of mission-datasets"));
}
