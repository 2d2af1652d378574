use semantic_map::text::{join_lines, split_lines};

#[test]
fn join_separates_lines_with_single_newlines() {
    let lines = vec!["alpha".to_string(), "beta".to_string(), "gamma".to_string()];
    assert_eq!(join_lines(&lines), "alpha\nbeta\ngamma");
    assert_eq!(join_lines(&vec!["solo".to_string()]), "solo");
    assert_eq!(join_lines(&Vec::new()), "");
}

#[test]
fn split_reads_the_lines_back() {
    let r = split_lines("alpha\nbeta\ngamma");
    assert_eq!(r, vec!["alpha".to_string(), "beta".to_string(), "gamma".to_string()]);
    assert_eq!(split_lines("solo"), vec!["solo".to_string()]);
    // An absent or fresh cache reads as no lines at all.
    assert_eq!(split_lines(""), Vec::<String>::new());
}

#[test]
fn split_keeps_empty_segments() {
    assert_eq!(split_lines("a\n\nb"), vec!["a".to_string(), "".to_string(), "b".to_string()]);
    assert_eq!(split_lines("\n"), vec!["".to_string(), "".to_string()]);
    assert_eq!(split_lines("a\n"), vec!["a".to_string(), "".to_string()]);
}

#[test]
fn cache_file_round_trip() {
    let lines = vec![
        "Voice AI models for underserved languages".to_string(),
        "Automated mobile app testing using AI".to_string(),
        "".to_string(),
        "Friendship matching platform for women".to_string(),
    ];
    assert_eq!(split_lines(&join_lines(&lines)), lines);
}
