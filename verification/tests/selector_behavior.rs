use video_triage::errors::TriageError;
use video_triage::select::Selector;
use video_triage::video::Video;
use video_triage::video::VideoExt;
use video_triage::video::VideoMetadata;

/// A candidate of duration one second, so its score equals its size.
fn by_score(name: &str, score: u64) -> Video {
    Video {
        path: String::from(name),
        ext: VideoExt::Mp4,
        size: score,
        metadata: VideoMetadata { width: 1920, height: 1080, duration_secs: 1 },
    }
}

fn scores_of(list: &[Video]) -> Vec<u64> {
    list.iter().map(|v| v.size_per_second()).collect()
}

#[test]
fn three_files_limit_two_keeps_the_two_best() {
    // scores [500000, 100000, 800000] with limit 2: the last candidate
    // displaces the tracked minimum, leaving {500000, 800000}
    let mut sel = Selector::new(2);
    sel.offer(by_score("a", 500_000));
    sel.offer(by_score("b", 100_000));
    assert_eq!(sel.min_score, 100_000);
    sel.offer(by_score("c", 800_000));
    let (list, total) = sel.finish().unwrap();
    assert_eq!(total, 3);
    let mut got = scores_of(&list);
    got.sort();
    assert_eq!(got, vec![500_000, 800_000]);
}

#[test]
fn short_stream_is_kept_whole() {
    let mut sel = Selector::new(5);
    sel.offer(by_score("a", 30));
    sel.offer(by_score("b", 10));
    sel.offer(by_score("c", 20));
    let (list, total) = sel.finish().unwrap();
    assert_eq!(total, 3);
    assert_eq!(scores_of(&list), vec![30, 10, 20]);
}

#[test]
fn replacement_hits_the_first_member_scoring_the_minimum() {
    // two members tie at the minimum: only the first is replaced, and the
    // recomputed minimum is the surviving tie
    let mut sel = Selector::new(3);
    sel.offer(by_score("a", 100));
    sel.offer(by_score("b", 100));
    sel.offer(by_score("c", 500));
    assert_eq!(sel.min_score, 100);
    sel.offer(by_score("d", 300));
    assert_eq!(scores_of(&sel.list), vec![300, 100, 500]);
    assert_eq!(sel.min_score, 100);
}

#[test]
fn low_scoring_candidates_are_dropped_once_full() {
    let mut sel = Selector::new(2);
    sel.offer(by_score("a", 400));
    sel.offer(by_score("b", 200));
    sel.offer(by_score("c", 200));
    assert_eq!(scores_of(&sel.list), vec![400, 200]);
    sel.offer(by_score("d", 50));
    assert_eq!(scores_of(&sel.list), vec![400, 200]);
    let (list, total) = sel.finish().unwrap();
    assert_eq!(total, 4);
    assert_eq!(list.len(), 2);
}

#[test]
fn tracked_minimum_never_decreases_once_full() {
    let mut sel = Selector::new(2);
    sel.offer(by_score("a", 300));
    sel.offer(by_score("b", 700));
    let mut minima = vec![sel.min_score];
    for (i, s) in [100u64, 900, 400, 800, 50, 1000].iter().enumerate() {
        sel.offer(by_score(&format!("v{}", i), *s));
        assert!(sel.min_score >= *minima.last().unwrap());
        minima.push(sel.min_score);
        // every member scores at least every minimum the set has held
        for v in &sel.list {
            for m in &minima {
                assert!(v.size_per_second() >= *m);
            }
        }
    }
}

#[test]
fn empty_run_is_a_run_level_failure() {
    let sel = Selector::new(4);
    assert!(matches!(sel.finish(), Err(TriageError::EmptyCorpus)));
}

#[test]
fn total_counts_every_candidate_seen() {
    let mut sel = Selector::new(1);
    sel.offer(by_score("a", 5));
    sel.offer(by_score("b", 4));
    sel.offer(by_score("c", 6));
    let (list, total) = sel.finish().unwrap();
    assert_eq!(total, 3);
    assert_eq!(scores_of(&list), vec![6]);
}
