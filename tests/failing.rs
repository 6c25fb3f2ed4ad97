use problem::{
    in_context_of, Cause, FailedTo, FailedToIter, MapProblemOr, OkOrProblem, Problem,
    ProblemWhile,
};
use std::io;

fn io_error(message: &str) -> Cause {
    Cause::new(&io::Error::new(io::ErrorKind::InvalidInput, message).to_string())
}

fn baz_bar_foo() -> Cause {
    Cause::new("Baz error").with_source("Bar error").with_source("Foo error")
}

fn abort<O>(outcome: Result<O, String>) -> O {
    match outcome {
        Ok(v) => v,
        Err(message) => panic!("{}", message),
    }
}

#[test]
fn test_convertion() {
    let _: Problem = io_error("boom!").into();
    let _: Problem = "boom!".into();
}

#[test]
#[should_panic(
    expected = "Failed to complete processing task due to: while processing object, while processing input data, while parsing input got error caused by: boom!"
)]
fn test_integration() {
    abort(
        Err::<(), Cause>(io_error("boom!"))
            .problem_while("parsing input")
            .problem_while("processing input data")
            .problem_while("processing object")
            .or_failed_to("complete processing task"),
    )
}

#[test]
#[should_panic(
    expected = "Failed to complete processing task due to: while processing object, while processing input data, while parsing input got error caused by: boom!"
)]
fn test_integration_message() {
    abort(
        Err::<(), &str>("boom!")
            .problem_while("parsing input")
            .problem_while("processing input data")
            .problem_while("processing object")
            .or_failed_to("complete processing task"),
    )
}

#[test]
#[should_panic(
    expected = "Failed to complete processing task due to: while processing object, while processing input data, while parsing input got error caused by: Baz error; caused by: Bar error; caused by: Foo error"
)]
fn test_integration_cause_chain() {
    abort(
        Err::<(), Cause>(baz_bar_foo())
            .problem_while("parsing input")
            .problem_while("processing input data")
            .problem_while("processing object")
            .or_failed_to("complete processing task"),
    )
}

#[test]
#[should_panic(
    expected = "Failed to complete processing task due to: while doing stuff got error caused by: boom!"
)]
fn test_in_context_of() {
    abort(
        in_context_of("doing stuff", || -> Result<(), Problem> {
            Err::<Result<(), Problem>, Cause>(io_error("boom!"))?
        })
            .or_failed_to("complete processing task"),
    )
}

#[test]
#[should_panic(expected = "Failed to foo due to: boom!")]
fn test_result() {
    abort(Err::<(), Cause>(io_error("boom!")).or_failed_to("foo"))
}

#[test]
#[should_panic(expected = "Failed to quix due to: Baz error; caused by: Bar error; caused by: Foo error")]
fn test_result_cause_chain() {
    abort(Err::<(), Cause>(baz_bar_foo()).or_failed_to("quix"))
}

#[test]
#[should_panic(expected = "Failed to quix due to: Baz error; caused by: Bar error; caused by: Foo error")]
fn test_result_cause_chain_message() {
    let error = baz_bar_foo();
    abort(Err::<(), Problem>(Problem::from_error_message(&error, false)).or_failed_to("quix"))
}

#[test]
#[should_panic(expected = "Failed to foo")]
fn test_option() {
    abort(None::<()>.or_failed_to("foo"))
}

#[test]
#[should_panic(expected = "Failed to foo due to: boom!")]
fn test_option_errors() {
    abort(
        Err::<(), Option<Cause>>(Some(io_error("boom!")))
            .map_problem_or("<unknown error>")
            .or_failed_to("foo"),
    )
}

#[test]
#[should_panic(expected = "Failed to foo due to: <unknown error>")]
fn test_result_option_errors_unknown() {
    let err: Result<(), Option<Cause>> = Err(None);
    abort(err.map_problem_or("<unknown error>").or_failed_to("foo"))
}

#[test]
#[should_panic(expected = "Failed to foo due to: nothing here")]
fn test_result_ok_or_problem() {
    abort(None::<()>.ok_or_problem("nothing here").or_failed_to("foo"))
}

#[test]
#[should_panic(expected = "Failed to foo due to: omg!")]
fn test_result_iter_or_failed_to() {
    let results: Vec<Result<u32, &str>> = vec![Ok(1u32), Ok(2u32), Err("omg!")];
    let mut iter = results.or_failed_to("foo");
    let mut ok = Vec::new();
    while let Some(item) = iter.next() {
        ok.push(abort(item));
    }
}

#[test]
fn conversions_render_their_source() {
    let from_cause: Problem = Cause::new("a").with_source("b").into();
    assert_eq!(from_cause.to_string(), "a; caused by: b");
    let from_string: Problem = "owned".to_string().into();
    assert_eq!(from_string.to_string(), "owned");
    let from_str: Problem = "borrowed".into();
    assert_eq!(from_str.to_string(), "borrowed");
    assert!(from_str.backtrace().is_none());
}

#[test]
fn or_failed_to_gives_value_on_success() {
    assert_eq!(Ok::<u32, &str>(7).or_failed_to("foo"), Ok(7));
    assert_eq!(Some(3u8).or_failed_to("foo"), Ok(3));
}

#[test]
fn absent_value_message_has_no_cause_clause() {
    assert_eq!(None::<u8>.or_failed_to("get something"), Err("Failed to get something".to_string()));
}

#[test]
fn absent_value_through_ok_or_problem_aborts_with_exact_text() {
    assert_eq!(
        None::<()>.ok_or_problem("nothing here").or_failed_to("foo"),
        Err("Failed to foo due to: nothing here".to_string())
    );
}

#[test]
fn typed_chain_aborts_with_exact_text() {
    assert_eq!(
        Err::<(), Cause>(baz_bar_foo()).or_failed_to("quix"),
        Err("Failed to quix due to: Baz error; caused by: Bar error; caused by: Foo error".to_string())
    );
    let error = baz_bar_foo();
    assert_eq!(
        Err::<(), Problem>(Problem::from_error_message(&error, false)).or_failed_to("quix"),
        Err("Failed to quix due to: Baz error; caused by: Bar error; caused by: Foo error".to_string())
    );
}

#[test]
fn failed_to_iter_hands_out_values_then_the_abort_message() {
    let results: Vec<Result<u32, &str>> = vec![Ok(1), Ok(2), Err("omg!"), Ok(4)];
    let mut iter = results.or_failed_to("foo");
    assert_eq!(iter.next(), Some(Ok(1)));
    assert_eq!(iter.next(), Some(Ok(2)));
    assert_eq!(iter.next(), Some(Err("Failed to foo due to: omg!".to_string())));
    assert_eq!(iter.next(), Some(Ok(4)));
    assert_eq!(iter.next(), None);
    assert_eq!(iter.next(), None);
}

#[test]
fn failed_to_iter_on_empty_sequence() {
    let results: Vec<Result<u32, &str>> = Vec::new();
    let mut iter = results.or_failed_to("foo");
    assert_eq!(iter.next(), None);
}

#[test]
fn failure_message_renders_problem() {
    let p = Problem::from_message("boom!", false).problem_while("a");
    assert_eq!(problem::failure_message("x", &p), "Failed to x due to: while a got error caused by: boom!");
}
