use launchpane::commands::{
    fetched_newest_first, newer_log_page, older_log_page, oldest_first, order_after_last,
    order_for_move, page_limit, LogPage, LOG_PAGE_SIZE, NEWER_LOG_LIMIT,
};
use launchpane::errors::ClientError;

#[test]
fn move_between_two_commands() {
    assert_eq!(order_for_move(true, Some(1), Some("abcde"), Some(2), Some("abchi")), Ok("abcf".to_string()));
}

#[test]
fn move_to_the_end() {
    assert_eq!(order_for_move(true, Some(1), Some("abc"), None, None), Ok("n".to_string()));
}

#[test]
fn move_to_the_start() {
    assert_eq!(order_for_move(true, None, None, Some(2), Some("abc")), Ok("aan".to_string()));
}

#[test]
fn move_with_missing_pieces_is_not_found() {
    assert_eq!(order_for_move(false, Some(1), Some("a"), Some(2), Some("c")), Err(ClientError::CommandNotFound));
    assert_eq!(order_for_move(true, Some(1), None, None, None), Err(ClientError::CommandNotFound));
    assert_eq!(order_for_move(true, Some(1), Some("b"), Some(2), None), Err(ClientError::CommandNotFound));
    assert_eq!(order_for_move(true, Some(1), None, Some(2), Some("c")), Err(ClientError::CommandNotFound));
    assert_eq!(order_for_move(true, None, None, None, None), Err(ClientError::CommandNotFound));
}

#[test]
fn new_command_goes_last() {
    assert_eq!(order_after_last(None), "n");
    assert_eq!(order_after_last(Some("n")), "u");
    assert_eq!(order_after_last(Some("z")), "zn");
}

#[test]
fn log_pages() {
    assert_eq!(older_log_page(0), Err(ClientError::InvalidCommandId));
    assert_eq!(older_log_page(15), Ok(LogPage::OlderThan(15)));
    assert_eq!(newer_log_page(0), LogPage::Latest);
    assert_eq!(newer_log_page(8), LogPage::NewerThan(8));
    assert_eq!(page_limit(LogPage::Latest), LOG_PAGE_SIZE);
    assert_eq!(page_limit(LogPage::OlderThan(3)), 100);
    assert_eq!(page_limit(LogPage::NewerThan(3)), NEWER_LOG_LIMIT);
    assert_eq!(NEWER_LOG_LIMIT, 10000);
    assert!(fetched_newest_first(LogPage::Latest));
    assert!(fetched_newest_first(LogPage::OlderThan(2)));
    assert!(!fetched_newest_first(LogPage::NewerThan(2)));
}

#[test]
fn newest_first_lines_turned_around() {
    assert_eq!(oldest_first(vec![3, 2, 1]), vec![1, 2, 3]);
    assert_eq!(oldest_first(Vec::<i32>::new()), Vec::<i32>::new());
    assert_eq!(oldest_first(vec!["b".to_string(), "a".to_string()]), vec!["a".to_string(), "b".to_string()]);
}
