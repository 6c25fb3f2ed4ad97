use problem::{
    backtrace_switch, format_frames, format_panic, in_context_of, in_context_of_with, Cause, IntoProblem, MapProblem,
    MapProblemOr, OkOrProblem, Problem, ProblemWhile, SymbolInfo,
};

#[test]
fn plain_message_round_trips() {
    for m in ["x", "", "boom!", "while nothing", "a; caused by: b"] {
        assert_eq!(Problem::from_message(m, false).to_string(), m);
        assert_eq!(m.into_problem().to_string(), m);
        assert_eq!(m.to_string().into_problem().to_string(), m);
    }
}

#[test]
fn no_context_renders_cause_alone() {
    let p = Problem::from_error(Cause::new("oops"), false);
    assert_eq!(p.to_string(), "oops");
}

#[test]
fn context_renders_newest_first() {
    let p = Problem::from_message("C", false).problem_while("A").problem_while("B");
    assert_eq!(p.to_string(), "while B, while A got error caused by: C");
}

#[test]
fn k_annotations_give_k_whiles() {
    let annotations = ["first", "second", "third", "fourth"];
    for k in 0..=annotations.len() {
        let mut p = Problem::from_message("m", false);
        for a in &annotations[..k] {
            p = p.problem_while(a);
        }
        let text = p.to_string();
        assert_eq!(text.matches("while ").count(), k);
        if k == 0 {
            assert_eq!(text, "m");
        } else {
            assert!(text.ends_with("got error caused by: m"));
            assert!(text.starts_with(&format!("while {}", annotations[k - 1])));
        }
    }
}

#[test]
fn each_while_is_followed_by_annotations_newest_first() {
    let annotations = ["opening file", "reading header", "parsing config"];
    let mut p = Problem::from_message("bad byte", false);
    for a in annotations {
        p = p.problem_while(a);
    }
    let text = p.to_string();
    let positions: Vec<usize> = text.match_indices("while ").map(|(i, _)| i).collect();
    assert_eq!(positions.len(), annotations.len());
    for (i, pos) in positions.iter().enumerate() {
        let expected = annotations[annotations.len() - 1 - i];
        assert!(text[pos + 6..].starts_with(expected));
    }
    assert_eq!(positions, vec![0, 22, 44]);
}

#[test]
fn cause_chain_renders_each_source() {
    let c = Cause::new("Baz error").with_source("Bar error").with_source("Foo error");
    assert_eq!(c.to_string(), "Baz error; caused by: Bar error; caused by: Foo error");
    let p = Problem::from_error(c, false);
    assert_eq!(p.to_string(), "Baz error; caused by: Bar error; caused by: Foo error");
}

#[test]
fn from_error_message_keeps_one_message() {
    let c = Cause::new("outer").with_source("inner");
    let p = Problem::from_error_message(&c, false).problem_while("reading");
    assert_eq!(p.to_string(), "while reading got error caused by: outer; caused by: inner");
    assert_eq!(c.to_string(), "outer; caused by: inner");
}

#[test]
fn rendering_is_repeatable() {
    let p = Problem::from_error(Cause::new("a").with_source("b"), false).problem_while("x");
    let first = p.to_string();
    let second = p.to_string();
    assert_eq!(first, second);
    assert_eq!(first, "while x got error caused by: a; caused by: b");
}

#[test]
fn backtrace_follows_capture_switch() {
    let off = Problem::from_message("foo", false).problem_while("bar").problem_while("baz");
    assert!(off.backtrace().is_none());
    let on = Problem::from_message("foo", true).problem_while("bar").problem_while("baz");
    let trace = on.backtrace().expect("captured").to_string();
    assert_eq!(on.to_string(), format!("while baz, while bar got error caused by: foo\n--- Cause\n{}", trace));
}

#[test]
fn map_problem_converts_error() {
    let res: Result<(), &str> = Err("oops");
    assert_eq!(res.map_problem().unwrap_err().to_string(), "oops");
    let ok: Result<u8, &str> = Ok(5);
    assert_eq!(ok.map_problem().unwrap(), 5);
}

#[test]
fn map_problem_or_uses_fallback_only_for_missing_error() {
    let unknown: Result<(), Option<&str>> = Err(None);
    let known: Result<(), Option<&str>> = Err(Some("oops"));
    assert_eq!(unknown.map_problem_or("unknown error").unwrap_err().to_string(), "unknown error");
    assert_eq!(known.map_problem_or("unknown error").unwrap_err().to_string(), "oops");
}

#[test]
fn map_problem_or_else_is_lazy() {
    let unknown: Result<(), Option<&str>> = Err(None);
    let known: Result<(), Option<&str>> = Err(Some("oops"));
    let ok: Result<u8, Option<&str>> = Ok(1);
    assert_eq!(unknown.map_problem_or_else(|| "unknown error").unwrap_err().to_string(), "unknown error");
    assert_eq!(known.map_problem_or_else(|| -> &str { panic!("called") }).unwrap_err().to_string(), "oops");
    assert_eq!(ok.map_problem_or_else(|| -> &str { panic!("called") }).unwrap(), 1);
}

#[test]
fn ok_or_problem_converts_missing_value() {
    let opt: Option<()> = None;
    assert_eq!(opt.ok_or_problem("oops").unwrap_err().to_string(), "oops");
    assert_eq!(Some(2u8).ok_or_problem("oops").unwrap(), 2);
    assert_eq!(None::<u8>.ok_or_problem_with(|| "late".to_string()).unwrap_err().to_string(), "late");
    assert_eq!(Some(4u8).ok_or_problem_with(|| -> String { panic!("called") }).unwrap(), 4);
}

#[test]
fn problem_while_on_results() {
    let res: Result<(), Cause> = Err(Cause::new("bad bytes"));
    assert_eq!(
        res.problem_while("creating string").unwrap_err().to_string(),
        "while creating string got error caused by: bad bytes"
    );
    let res: Result<(), Cause> = Err(Cause::new("bad bytes"));
    assert_eq!(
        res.problem_while_with(|| "creating string".to_string()).unwrap_err().to_string(),
        "while creating string got error caused by: bad bytes"
    );
    let ok: Result<u8, Cause> = Ok(9);
    assert_eq!(ok.problem_while_with(|| -> String { panic!("called") }).unwrap(), 9);
    let p = Problem::from_message("c", false).problem_while_with(|| "a".to_string());
    assert_eq!(p.to_string(), "while a got error caused by: c");
}

#[test]
fn nested_in_context_of() {
    fn foo() -> Result<String, Problem> {
        Err(Cause::new("invalid utf-8").into_problem())
    }
    let res: Result<(), Problem> = in_context_of("doing stuff", || {
        foo().problem_while("running foo")?;
        Ok(())
    });
    assert_eq!(
        res.unwrap_err().to_string(),
        "while doing stuff, while running foo got error caused by: invalid utf-8"
    );
    let fine: Result<u8, Problem> = in_context_of("doing stuff", || Ok(3));
    assert_eq!(fine.unwrap(), 3);
}

#[test]
fn in_context_of_with_is_lazy() {
    let res: Result<(), Problem> =
        in_context_of_with(|| "processing string".to_string(), || Err(Cause::new("bad").into_problem()));
    assert_eq!(res.unwrap_err().to_string(), "while processing string got error caused by: bad");
    let fine: Result<u8, Problem> = in_context_of_with(|| -> String { panic!("called") }, || Ok(8));
    assert_eq!(fine.unwrap(), 8);
}

fn symbol(name: Option<&str>, location: Option<(&str, u32)>) -> SymbolInfo {
    SymbolInfo {
        name: name.map(|n| n.to_string()),
        file: location.map(|(f, _)| f.to_string()),
        line: location.map(|(_, l)| l),
    }
}

#[test]
fn frames_render_numbered_and_padded() {
    let frames = vec![
        vec![symbol(Some("main"), Some(("src/main.rs", 12)))],
        vec![symbol(None, None)],
        vec![symbol(Some("inlined"), None), symbol(Some("outer"), Some(("lib.rs", 7)))],
    ];
    assert_eq!(
        format_frames(&frames),
        "   0: main\n             at src/main.rs:12\n\n   2: inlined   2: outer\n             at lib.rs:7"
    );
}

#[test]
fn location_needs_both_file_and_line() {
    let frames = vec![vec![
        SymbolInfo { name: Some("f".to_string()), file: Some("a.rs".to_string()), line: None },
        SymbolInfo { name: None, file: None, line: Some(3) },
        SymbolInfo { name: None, file: Some("b.rs".to_string()), line: Some(3) },
    ]];
    assert_eq!(format_frames(&frames), "   0: f\n             at b.rs:3");
}

#[test]
fn backtrace_switch_needs_exactly_one() {
    assert!(backtrace_switch(Some("1")));
    for v in ["0", "", "full", "11", " 1"] {
        assert!(!backtrace_switch(Some(v)));
    }
    assert!(!backtrace_switch(None));
}

#[test]
fn frame_numbers_wider_than_padding() {
    let mut frames: Vec<Vec<SymbolInfo>> = Vec::new();
    for _ in 0..12 {
        frames.push(Vec::new());
    }
    frames.push(vec![symbol(Some("deep"), Some(("a.rs", 4294967295)))]);
    let text = format_frames(&frames);
    assert_eq!(text, format!("{}  12: deep\n             at a.rs:4294967295", "\n".repeat(12)));
    assert_eq!(format_frames(&Vec::new()), "");
}

#[test]
fn panic_report_formats() {
    assert_eq!(
        format_panic(Some("main"), Some("src/lib.rs:10:5"), "foo bar!", None),
        "thread 'main' panicked at src/lib.rs:10:5 with: foo bar!"
    );
    assert_eq!(
        format_panic(None, Some("x.rs:1:1"), "boom", Some("   0: f".to_string())),
        "thread '<unnamed>' panicked at x.rs:1:1 with: boom\n--- Panicked\n   0: f"
    );
    assert_eq!(format_panic(Some("t"), None, "m", None), "thread 't' panicked with: m");
}

#[test]
fn backtrace_capture_switch() {
    assert!(problem::format_backtrace(false).is_none());
    assert!(problem::format_backtrace(true).is_some());
}
