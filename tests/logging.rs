use problem::{Cause, LogLevel, OkOrLog, OkOrLogIter};

fn foo() -> Cause {
    Cause::new("Foo error")
}

fn baz_bar_foo() -> Cause {
    Cause::new("Baz error").with_source("Bar error").with_source("Foo error")
}

#[test]
fn test_problem_log_error() {
    let error: Result<(), Cause> = Err(baz_bar_foo());
    let record = error.ok_or_log_error().unwrap_err();
    assert_eq!(record.level, LogLevel::Error);
    assert_eq!(record.message, "Continuing with error: Baz error; caused by: Bar error; caused by: Foo error");
}

#[test]
fn test_problem_log_warn() {
    let error: Result<(), Cause> = Err(baz_bar_foo());
    let record = error.ok_or_log_warn().unwrap_err();
    assert_eq!(record.level, LogLevel::Warn);
    assert_eq!(record.message, "Continuing with error: Baz error; caused by: Bar error; caused by: Foo error");
}

#[test]
fn test_problem_log_iter_error() {
    let mut iter = vec![Ok(1), Err(foo()), Err(foo()), Ok(2), Err(foo()), Ok(3)].ok_or_log_error();
    let mut values = Vec::new();
    let mut records = Vec::new();
    while let Some(item) = iter.next() {
        match item {
            Ok(v) => values.push(v),
            Err(record) => records.push(record),
        }
    }
    assert_eq!(values, vec![1, 2, 3]);
    assert_eq!(records.len(), 3);
    assert!(records.iter().all(|r| r.level == LogLevel::Error && r.message == "Continuing with error: Foo error"));
}

#[test]
fn test_problem_log_iter_warn() {
    let mut iter = vec![Ok(1), Err(foo()), Err(foo()), Ok(2), Err(foo()), Ok(3)].ok_or_log_warn();
    let mut values = Vec::new();
    let mut records = Vec::new();
    while let Some(item) = iter.next() {
        match item {
            Ok(v) => values.push(v),
            Err(record) => records.push(record),
        }
    }
    assert_eq!(values, vec![1, 2, 3]);
    assert_eq!(records.len(), 3);
    assert!(records.iter().all(|r| r.level == LogLevel::Warn && r.message == "Continuing with error: Foo error"));
}

#[test]
fn logging_adaptor_skips_and_reports_each_error() {
    let results: Vec<Result<u32, &str>> = vec![Ok(1), Ok(2), Err("oops"), Ok(3), Err("oh"), Ok(4)];
    let mut iter = results.ok_or_log_warn();
    let mut values = Vec::new();
    let mut messages = Vec::new();
    while let Some(item) = iter.next() {
        match item {
            Ok(v) => values.push(v),
            Err(record) => {
                assert_eq!(record.level, LogLevel::Warn);
                messages.push(record.message);
            }
        }
    }
    assert_eq!(values, vec![1, 2, 3, 4]);
    assert_eq!(messages, vec!["Continuing with error: oops", "Continuing with error: oh"]);
    assert!(iter.next().is_none());
}

#[test]
fn ok_values_pass_through_logging() {
    assert_eq!(Ok::<u8, &str>(5).ok_or_log_warn().ok(), Some(5));
    assert_eq!(Ok::<u8, &str>(6).ok_or_log_error().ok(), Some(6));
    let empty: Vec<Result<u8, &str>> = Vec::new();
    assert!(empty.ok_or_log_error().next().is_none());
}
