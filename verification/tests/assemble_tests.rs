use lastfm_bulk::assemble::assemble;

#[test]
fn concatenates_in_page_order_and_truncates() {
    let pages = vec![vec![1u32, 2], vec![3, 4], vec![5]];
    assert_eq!(assemble(pages, 3), vec![1, 2, 3]);
}

#[test]
fn short_supply_returns_everything() {
    let pages = vec![vec![1u32, 2], vec![3, 4], vec![5]];
    assert_eq!(assemble(pages, 10), vec![1, 2, 3, 4, 5]);
}

#[test]
fn limit_equal_to_supply_is_identity() {
    let pages = vec![vec![1u32, 2], vec![3]];
    assert_eq!(assemble(pages, 3), vec![1, 2, 3]);
}

#[test]
fn zero_limit_returns_empty() {
    let pages = vec![vec![1u32, 2], vec![3, 4]];
    assert_eq!(assemble(pages, 0), Vec::<u32>::new());
}

#[test]
fn no_pages_returns_empty() {
    let pages: Vec<Vec<String>> = Vec::new();
    assert_eq!(assemble(pages, 5), Vec::<String>::new());
}

#[test]
fn empty_pages_are_skipped_without_effect() {
    let pages = vec![vec![], vec![9u32], vec![], vec![8]];
    assert_eq!(assemble(pages, 5), vec![9, 8]);
}
