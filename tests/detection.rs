use rcronym::{
    detect, scan_candidates, scan_known, Acronym, BuildError, Message, PatternIndex,
};

fn acronym(id: i32, key: &str, regex: &str, value: &str) -> Acronym {
    Acronym { id, key: key.to_string(), regex: regex.to_string(), value: value.to_string() }
}

fn message(thread: &str, id: &str, body: &str) -> Message {
    Message {
        id: id.to_string(),
        thread_id: thread.to_string(),
        author: "someone".to_string(),
        body: body.to_string(),
    }
}

fn vocabulary() -> Vec<Acronym> {
    vec![
        acronym(1, "IMO", r"\bIMO\b", "In my opinion"),
        acronym(2, "MSRV", r"\bMSRV\b", "Minimum supported Rust version"),
        acronym(3, "RAII", r"\bRAII\b", "Resource acquisition is initialization"),
    ]
}

#[test]
fn single_key_matches_only_its_slot() {
    let vocab = vocabulary();
    let index = PatternIndex::build(&vocab).ok().unwrap();
    assert_eq!(index.match_all("bump the MSRV please"), vec![1]);
    assert_eq!(index.match_all("IMO"), vec![0]);
    assert_eq!(index.match_all("nothing here"), Vec::<usize>::new());
    assert_eq!(index.len(), 3);
    assert_eq!(index.id_at(2), 3);
}

#[test]
fn repeated_matches_give_one_slot_in_ascending_order() {
    let vocab = vocabulary();
    let index = PatternIndex::build(&vocab).ok().unwrap();
    assert_eq!(index.match_all("RAII, then IMO, then RAII and IMO again"), vec![0, 2]);
}

#[test]
fn word_boundaries_are_respected() {
    let vocab = vocabulary();
    let index = PatternIndex::build(&vocab).ok().unwrap();
    assert_eq!(index.match_all("IMOX and XMSRV"), Vec::<usize>::new());
}

#[test]
fn empty_vocabulary_is_rejected() {
    let vocab: Vec<Acronym> = Vec::new();
    assert!(matches!(PatternIndex::build(&vocab), Err(BuildError::EmptyVocabulary)));
    let batch = vec![message("t1", "c1", "IMO")];
    assert!(matches!(detect(&vocab, &batch), Err(BuildError::EmptyVocabulary)));
}

#[test]
fn unbalanced_group_fails_the_build() {
    let mut vocab = vocabulary();
    vocab.push(acronym(7, "BAD", r"(\bBAD\b", "broken"));
    vocab.push(acronym(8, "WORSE", r"[WORSE", "broken too"));
    match PatternIndex::build(&vocab) {
        Err(BuildError::InvalidPattern { slot, acronym_id }) => {
            assert_eq!(slot, 3);
            assert_eq!(acronym_id, 7);
        },
        _ => panic!("the build should name the first broken pattern"),
    }
    let batch = vec![message("t1", "c1", "IMO BAD")];
    assert!(matches!(detect(&vocab, &batch), Err(BuildError::InvalidPattern { slot: 3, .. })));
}

#[test]
fn known_scan_emits_one_detection_for_imo() {
    let vocab = vec![acronym(1, "IMO", r"\bIMO\b", "In my opinion")];
    let batch = vec![message("t1", "c1", "IMO this is fine")];
    let scan = detect(&vocab, &batch).ok().unwrap();
    assert_eq!(scan.detections.len(), 1);
    assert_eq!(scan.detections[0].thread_id, "t1");
    assert_eq!(scan.detections[0].comment_id, "c1");
    assert_eq!(scan.detections[0].acronym_id, 1);
    assert_eq!(scan.counts, vec![1]);
}

#[test]
fn known_scan_orders_by_message_then_slot() {
    let vocab = vocabulary();
    let index = PatternIndex::build(&vocab).ok().unwrap();
    let batch = vec![
        message("t1", "c1", "MSRV before IMO"),
        message("t1", "c2", "no acronyms"),
        message("t2", "c3", "RAII RAII"),
    ];
    let scan = scan_known(&index, &batch);
    let keys: Vec<(String, String, i32)> = scan
        .detections
        .iter()
        .map(|o| (o.thread_id.clone(), o.comment_id.clone(), o.acronym_id))
        .collect();
    assert_eq!(
        keys,
        vec![
            ("t1".to_string(), "c1".to_string(), 1),
            ("t1".to_string(), "c1".to_string(), 2),
            ("t2".to_string(), "c3".to_string(), 3),
        ]
    );
    assert_eq!(scan.counts, vec![2, 0, 1]);
}

#[test]
fn candidate_scan_finds_imo_and_msrv() {
    let batch = vec![message("t9", "c9", "The IMO and MSRV are both used")];
    let found = scan_candidates(&batch).ok().unwrap();
    let tokens: Vec<String> = found.iter().map(|c| c.token.clone()).collect();
    assert_eq!(tokens, vec!["IMO".to_string(), "MSRV".to_string()]);
    assert!(found.iter().all(|c| c.thread_id == "t9" && c.comment_id == "c9"));
}

#[test]
fn candidate_scan_skips_short_long_and_joined_runs() {
    let batch = vec![
        message("t1", "c1", "AB ABCDEFG RAII1 ABCDEF"),
        message("t1", "c2", "lower case only"),
        message("t2", "c3", "ABC"),
    ];
    let found = scan_candidates(&batch).ok().unwrap();
    let tokens: Vec<(String, String)> =
        found.iter().map(|c| (c.token.clone(), c.comment_id.clone())).collect();
    assert_eq!(
        tokens,
        vec![("ABCDEF".to_string(), "c1".to_string()), ("ABC".to_string(), "c3".to_string())]
    );
}
