use media_transcriber::batch::{
    apply_limit, batch_finished, batch_record, batch_start, batch_success_count,
    order_newest_first, ItemOutcome, SourceItem,
};
use media_transcriber::errors::PipelineError;

fn item(title: &str, published_at: Option<i64>) -> SourceItem {
    SourceItem {
        title: title.to_string(),
        audio_location: format!("https://example.org/{}.mp3", title),
        published_at,
    }
}

#[test]
fn limit_keeps_exactly_the_newest_items() {
    // ten items with strictly decreasing timestamps t1 > t2 > ... > t10,
    // handed over shuffled
    let mut items: Vec<SourceItem> = Vec::new();
    for k in [4usize, 9, 1, 7, 3, 10, 2, 8, 6, 5] {
        items.push(item(&format!("e{}", k), Some(1000 - k as i64)));
    }
    let sorted = order_newest_first(items);
    let picked = apply_limit(sorted, Some(3));
    let titles: Vec<&str> = picked.iter().map(|i| i.title.as_str()).collect();
    assert_eq!(titles, vec!["e1", "e2", "e3"]);
}

#[test]
fn items_without_timestamps_sort_last() {
    let items = vec![
        item("undated", None),
        item("old", Some(10)),
        item("new", Some(20)),
    ];
    let sorted = order_newest_first(items);
    let titles: Vec<&str> = sorted.iter().map(|i| i.title.as_str()).collect();
    assert_eq!(titles, vec!["new", "old", "undated"]);
}

#[test]
fn limit_unset_or_larger_keeps_everything() {
    let items = vec![item("a", Some(2)), item("b", Some(1))];
    assert_eq!(apply_limit(items.clone(), None).len(), 2);
    assert_eq!(apply_limit(items, Some(10)).len(), 2);
}

#[test]
fn one_failure_leaves_the_other_nine_outcomes_alone() {
    // ten items; item 4 fails while downloading, the batch goes on
    let mut run = batch_start(10);
    for i in 0..10u32 {
        let outcome = if i == 3 {
            ItemOutcome::Failed {
                error: PipelineError::Resolution {
                    message: "download failed".to_string(),
                },
            }
        } else {
            ItemOutcome::Succeeded
        };
        batch_record(&mut run, outcome);
    }
    assert!(batch_finished(&run));
    assert_eq!(run.completed.len(), 10);
    assert_eq!(batch_success_count(&run), 9);
    for (i, outcome) in run.completed.iter().enumerate() {
        if i == 3 {
            assert!(matches!(
                outcome,
                ItemOutcome::Failed {
                    error: PipelineError::Resolution { .. }
                }
            ));
        } else {
            assert_eq!(*outcome, ItemOutcome::Succeeded);
        }
    }
}
