use rs_summarizer::cluster_titler::group_abstracts;
use rs_summarizer::cluster_titler::{batch_prompts, combine_batch_prompts, create_cluster_prompt,
    extract_abstract_block};

#[test]
fn test_extract_abstract_no_marker() {
    let summary = "This is a summary without an abstract marker.\nJust some regular text.";
    let result = extract_abstract_block(summary);
    assert!(result.is_none());
}

#[test]
fn test_extract_abstract_no_timestamp() {
    let summary = "**Abstract**:\n\nThis is the abstract content.\nNo timestamp here.";
    let result = extract_abstract_block(summary);
    assert!(result.is_some());
    let block = result.unwrap();
    assert!(block.contains("This is the abstract content."));
    assert!(block.contains("No timestamp here."));
}

#[test]
fn test_extract_abstract_case_insensitive() {
    let summary = "**abstract**:\n\nThis should work with lowercase.\n* 1:23 timestamp";
    let result = extract_abstract_block(summary);
    assert!(result.is_some());
    let block = result.unwrap();
    assert!(block.contains("This should work with lowercase."));
    assert!(!block.contains("1:23"));
}

#[test]
fn abstract_starts_after_the_label_on_its_line() {
    assert_eq!(
        extract_abstract_block("# T\n**ABSTRACT**: first part\nsecond\n*00:10 point\nlater").unwrap(),
        "first part second"
    );
}

#[test]
fn cluster_prompt_lists_ten_abstracts() {
    let abstracts: Vec<String> = (1..=12).map(|i| format!("abs{}", i)).collect();
    let p = create_cluster_prompt(-3, &abstracts);
    assert!(p.starts_with("You are analyzing a cluster of transcript summaries with cluster ID -3.\n\nHere are sample abstracts from this cluster:\n\n1. abs1\n2. abs2\n"));
    assert!(p.contains("10. abs10\n"));
    assert!(!p.contains("abs11"));
    assert!(p.ends_with("[{\"id\": -3, \"title\": \"Your title here\"}]"));
}

#[test]
fn prompts_are_batched_by_words() {
    let big = "w ".repeat(15_000);
    let small = "w ".repeat(6_000);
    let prompts = vec![(1, big.clone()), (2, small.clone()), (3, small.clone()), (4, big.clone())];
    let batches = batch_prompts(&prompts);
    let ids: Vec<Vec<i32>> = batches.iter().map(|b| b.iter().map(|p| p.0).collect()).collect();
    assert_eq!(ids, vec![vec![1], vec![2, 3], vec![4]]);
    assert_eq!(combine_batch_prompts(&vec![(1, "a".to_string()), (2, "b".to_string())]), "a\n\n---\n\nb\n\n---\n\n");
}

#[test]
fn abstracts_are_grouped_by_cluster_in_order_of_appearance() {
    let summaries: Vec<String> = vec![
        "**Abstract**: First one.\n* 00:01 point".to_string(),
        "no abstract here".to_string(),
        "**abstract**: Second one.".to_string(),
        "**Abstract**: Third one.".to_string(),
        "**Abstract**: Dropped, no label.".to_string(),
    ];
    let labels = vec![3, 3, -1, 3];
    let (groups, members) = group_abstracts(&summaries, &labels);
    assert_eq!(groups, vec![3, -1]);
    assert_eq!(members, vec![
        vec!["First one.".to_string(), "Third one.".to_string()],
        vec!["Second one.".to_string()],
    ]);
    let (groups, members) = group_abstracts(&Vec::new(), &labels);
    assert!(groups.is_empty() && members.is_empty());
}
