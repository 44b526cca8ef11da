use rcronym::{Acronym, Occurance, OccurrenceStore};

fn acronym(id: i32, key: &str, value: &str) -> Acronym {
    Acronym {
        id,
        key: key.to_string(),
        regex: format!(r"\b{}\b", key),
        value: value.to_string(),
    }
}

fn occurrence(thread: &str, comment: &str, id: i32) -> Occurance {
    Occurance { thread_id: thread.to_string(), comment_id: comment.to_string(), acronym_id: id }
}

#[test]
fn recording_twice_counts_zero_the_second_time() {
    let mut store = OccurrenceStore::new();
    let batch = vec![occurrence("t1", "c1", 1), occurrence("t1", "c2", 1)];
    assert_eq!(store.record(&batch), 2);
    assert_eq!(store.len(), 2);
    assert_eq!(store.record(&batch), 0);
    assert_eq!(store.len(), 2);
}

#[test]
fn duplicate_detections_in_one_batch_count_once() {
    let mut store = OccurrenceStore::new();
    let batch = vec![occurrence("t1", "c1", 1), occurrence("t1", "c1", 1), occurrence("t1", "c1", 2)];
    assert_eq!(store.record(&batch), 2);
    assert!(store.contains(&occurrence("t1", "c1", 2)));
    assert!(!store.contains(&occurrence("t1", "c2", 2)));
    assert_eq!(store.records()[0].acronym_id, 1);
    assert_eq!(store.records()[1].acronym_id, 2);
}

#[test]
fn thread_acronyms_are_distinct_and_sorted() {
    let vocab = vec![
        acronym(1, "RAII", "Resource acquisition is initialization"),
        acronym(2, "IMO", "In my opinion"),
        acronym(3, "MSRV", "Minimum supported Rust version"),
        acronym(4, "ABI", "Application binary interface"),
    ];
    let mut store = OccurrenceStore::new();
    store.record(&vec![
        occurrence("t1", "c1", 1),
        occurrence("t1", "c2", 1),
        occurrence("t1", "c2", 2),
        occurrence("t2", "c3", 4),
        occurrence("t1", "c4", 3),
    ]);
    let found = store.acronyms_for_thread(&"t1".to_string(), &vocab);
    let keys: Vec<String> = found.iter().map(|a| a.key.clone()).collect();
    assert_eq!(keys, vec!["IMO".to_string(), "MSRV".to_string(), "RAII".to_string()]);
    assert!(store.mentions(&"t2".to_string(), 4));
    assert!(!store.mentions(&"t2".to_string(), 1));
}

#[test]
fn unknown_thread_has_no_acronyms() {
    let vocab = vec![acronym(1, "IMO", "In my opinion")];
    let mut store = OccurrenceStore::new();
    store.record(&vec![occurrence("t1", "c1", 1)]);
    assert!(store.acronyms_for_thread(&"t5".to_string(), &vocab).is_empty());
}

#[test]
fn imo_batch_is_recorded_once() {
    let vocab = vec![acronym(1, "IMO", "In my opinion")];
    let batch = vec![rcronym::Message {
        id: "c1".to_string(),
        thread_id: "t1".to_string(),
        author: "someone".to_string(),
        body: "IMO this is fine".to_string(),
    }];
    let mut store = OccurrenceStore::new();
    let first = rcronym::detect(&vocab, &batch).ok().unwrap();
    assert_eq!(store.record(&first.detections), 1);
    let second = rcronym::detect(&vocab, &batch).ok().unwrap();
    assert_eq!(store.record(&second.detections), 0);
    let found = store.acronyms_for_thread(&"t1".to_string(), &vocab);
    assert_eq!(found.len(), 1);
    assert_eq!(found[0].key, "IMO");
    assert_eq!(found[0].value, "In my opinion");
}
