use ebook_sort::run::{Run, Strategy};

#[test]
fn a_fresh_run_reports_nothing() {
    let r = Run::new(0, Strategy::Move);
    assert_eq!(r.total, 0);
    assert_eq!(r.completed, 0);
    assert!(r.error_rows().is_empty());
}

#[test]
fn extraction_failure_records_path_and_description() {
    let mut r = Run::new(1, Strategy::Move);
    r.extraction_failed(String::from("shelf/corrupt.epub"), String::from("bad archive"));
    let rows = r.error_rows();
    assert_eq!(rows.len(), 1);
    assert_eq!(rows[0].error, "bad archive");
    assert_eq!(rows[0].path, "shelf/corrupt.epub");
    assert_eq!(r.completed, 1);
}

#[test]
fn directory_failure_records_description_without_a_path() {
    let mut r = Run::new(1, Strategy::Copy);
    r.dir_create_failed(String::from("permission denied"));
    let rows = r.error_rows();
    assert_eq!(rows.len(), 1);
    assert_eq!(rows[0].error, "permission denied");
    assert_eq!(rows[0].path, "");
    assert_eq!(r.completed, 1);
}

#[test]
fn place_failure_records_but_leaves_progress() {
    let mut r = Run::new(2, Strategy::Move);
    r.place_failed(String::from("cross-device link"));
    let rows = r.error_rows();
    assert_eq!(rows.len(), 1);
    assert_eq!(rows[0].error, "cross-device link");
    assert_eq!(rows[0].path, "");
    assert_eq!(r.completed, 0);
}

#[test]
fn success_advances_progress_without_an_error() {
    let mut r = Run::new(2, Strategy::Move);
    r.placed();
    r.placed();
    assert_eq!(r.completed, 2);
    assert!(r.error_rows().is_empty());
}

#[test]
fn errors_keep_their_order() {
    let mut r = Run::new(3, Strategy::Move);
    r.extraction_failed(String::from("a.epub"), String::from("first"));
    r.dir_create_failed(String::from("second"));
    r.place_failed(String::from("third"));
    let rows = r.error_rows();
    assert_eq!(rows.len(), 3);
    assert_eq!(rows[0].error, "first");
    assert_eq!(rows[1].error, "second");
    assert_eq!(rows[2].error, "third");
    assert_eq!(rows[0].path, "a.epub");
    assert_eq!(rows[1].path, "");
    assert_eq!(rows[2].path, "");
}

#[test]
fn the_default_strategy_moves_files() {
    assert_eq!(Strategy::default(), Strategy::Move);
}

#[test]
fn a_copy_run_keeps_its_strategy() {
    let r = Run::new(5, Strategy::Copy);
    assert_eq!(r.strategy, Strategy::Copy);
}
