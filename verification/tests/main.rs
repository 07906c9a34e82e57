use impass::{Annotation, Directive, MetaArg, Outcome, ScopeResult, Step};
use impass::directive::{extract_reason, first_reason_arg, recognize};
use impass::emit::{emit_block, emit_fn_body, escape_text};
use impass::run::{format_diagnostic, run_transformed};

// A fallible operation to test with, as the wrapped statements would run it.
fn might_fail(should_fail: bool) -> Result<i32, String> {
    if should_fail {
        Err("This operation failed".to_string())
    } else {
        Ok(42)
    }
}

// What one `let x = call?;` statement does inside the isolated scope.
fn step_of(call: &Result<i32, String>) -> Step {
    match call {
        Ok(_) => Step::Proceed,
        Err(e) => Step::Fail(e.clone()),
    }
}

// Token streams print with normalized spacing; strip it before comparing.
fn squash(s: &str) -> String {
    s.chars().filter(|c| !c.is_whitespace()).collect()
}

// This test uses the transform in a way that should succeed.
#[test]
fn test_fatal_success() {
    // `let value: i32 = might_fail(false)?; Ok(value)` under the wrapped form.
    let call = might_fail(false);
    let steps = vec![step_of(&call)];
    let tail = match call {
        Ok(v) => ScopeResult::Success(v),
        Err(e) => ScopeResult::Failure(e),
    };
    let result: i32 = match run_transformed(&None, &steps, tail) {
        Outcome::Value(v) => v,
        Outcome::Terminated(msg) => panic!("{}", msg),
    };
    assert_eq!(result, 42);
}

// A failing statement must end in termination, never in a value.
#[test]
fn test_fatal_panic() {
    // `let _: i32 = might_fail(true)?; Ok(())` under the wrapped form.
    let call = might_fail(true);
    let steps = vec![step_of(&call)];
    match run_transformed(&None, &steps, ScopeResult::Success(())) {
        Outcome::Terminated(msg) => {
            assert!(msg.contains("This operation failed"));
            assert!(msg.contains("An unrecoverable error occurred"));
        }
        Outcome::Value(_) => panic!("the wrapped block should fail"),
    }
}

// A reason handed to the function form must stand in the diagnostic.
#[test]
fn test_fatal_reason() {
    let args = vec![MetaArg {
        name: "reason".to_string(),
        value: Some("Failed with a specific error".to_string()),
    }];
    let reason = first_reason_arg(&args);
    let call = might_fail(true);
    let steps = vec![step_of(&call)];
    match run_transformed(&reason, &steps, ScopeResult::Success(())) {
        Outcome::Terminated(msg) => {
            assert!(msg.contains("Failed with a specific error"));
            assert!(msg.contains("This operation failed"));
            assert!(!msg.contains("An unrecoverable error occurred"));
        }
        Outcome::Value(_) => panic!("the wrapped block should fail"),
    }
}

#[test]
fn first_failure_short_circuits_the_scope() {
    let steps = vec![
        Step::Proceed,
        Step::Fail("first".to_string()),
        Step::Fail("second".to_string()),
    ];
    match run_transformed(&None, &steps, ScopeResult::Success(7i32)) {
        Outcome::Terminated(msg) => {
            assert!(msg.contains("first"));
            assert!(!msg.contains("second"));
        }
        Outcome::Value(_) => panic!("the scope should fail"),
    }
}

#[test]
fn failing_trailing_expression_terminates() {
    let steps = vec![Step::Proceed];
    match run_transformed::<i32>(&None, &steps, ScopeResult::Failure("tail failed".to_string())) {
        Outcome::Terminated(msg) => assert!(msg.contains("tail failed")),
        Outcome::Value(_) => panic!("the scope should fail"),
    }
}

#[test]
fn diagnostic_formula_with_reason() {
    let d = format_diagnostic(&Some("R".to_string()), "boom");
    assert_eq!(d, "\nR\n\nCaused by:\n    boom");
}

#[test]
fn diagnostic_formula_generic() {
    let d = format_diagnostic(&None, "boom");
    assert_eq!(d, "\nAn unrecoverable error occurred\n\nCaused by:\n    boom");
}

#[test]
fn diagnostic_indents_multiline_cause() {
    let d = format_diagnostic(&None, "a\nb");
    assert_eq!(d, "\nAn unrecoverable error occurred\n\nCaused by:\n    a\n    b");
}

#[test]
fn last_reason_annotation_wins() {
    let anns = vec![
        Annotation { name: "reason".to_string(), arg: Some("A".to_string()) },
        Annotation { name: "reason".to_string(), arg: Some("B".to_string()) },
    ];
    assert_eq!(extract_reason(&anns), Some("B".to_string()));
}

#[test]
fn non_string_reason_argument_is_ignored() {
    // A later `reason` whose argument is not one string literal neither
    // yields a reason nor erases the earlier one.
    let anns = vec![
        Annotation { name: "reason".to_string(), arg: Some("A".to_string()) },
        Annotation { name: "reason".to_string(), arg: None },
    ];
    assert_eq!(extract_reason(&anns), Some("A".to_string()));
    let only_bad = vec![Annotation { name: "reason".to_string(), arg: None }];
    assert_eq!(extract_reason(&only_bad), None);
}

#[test]
fn other_annotations_yield_no_reason() {
    let anns = vec![Annotation { name: "cause".to_string(), arg: Some("A".to_string()) }];
    assert_eq!(extract_reason(&anns), None);
}

#[test]
fn first_string_reason_argument_wins() {
    let args = vec![
        MetaArg { name: "reason".to_string(), value: None },
        MetaArg { name: "reason".to_string(), value: Some("B".to_string()) },
        MetaArg { name: "reason".to_string(), value: Some("C".to_string()) },
    ];
    assert_eq!(first_reason_arg(&args), Some("B".to_string()));
}

#[test]
fn statements_are_preserved_verbatim_and_in_order() {
    let stmts = vec![
        "let a = f()?;".to_string(),
        "let b = g(a)?;".to_string(),
        "Ok(b)".to_string(),
    ];
    let d = recognize(Vec::new(), stmts.clone());
    assert_eq!(d.stmts, stmts);
    assert_eq!(d.reason, None);
}

#[test]
fn emitted_text_is_exact() {
    let d = Directive {
        stmts: vec!["let x = f()?;".to_string(), "Ok(x)".to_string()],
        reason: Some("boom".to_string()),
    };
    let code = emit_block(&d);
    assert_eq!(
        code,
        "(|| -> std::result::Result<_, anyhow::Error> { let x = f()?; Ok(x) })()\
         .unwrap_or_else(|e| { panic!(\"\\n{:?}\", e.context(\"boom\")); })"
    );
}

#[test]
fn emitted_fn_body_is_braced() {
    let d = Directive { stmts: vec!["Ok(())".to_string()], reason: None };
    let body = emit_fn_body(&d);
    let inner = emit_block(&d);
    assert_eq!(body, format!("{{ {} }}", inner));
}

#[test]
fn reason_is_escaped_in_emitted_literal() {
    assert_eq!(escape_text("say \"hi\" \\ now"), "say \\\"hi\\\" \\\\ now");
    let d = Directive {
        stmts: vec!["Ok(())".to_string()],
        reason: Some("say \"hi\" \\ now".to_string()),
    };
    let code = emit_block(&d);
    assert!(code.contains("e.context(\"say \\\"hi\\\" \\\\ now\")"));
    // The emitted text must still lex as tokens.
    let reparsed: Result<proc_macro2::TokenStream, _> = code.parse();
    assert!(reparsed.is_ok());
}

#[test]
fn function_form_equals_manual_wrapping() {
    let args = vec![MetaArg { name: "reason".to_string(), value: Some("R".to_string()) }];
    let from_args = first_reason_arg(&args);
    let anns = vec![Annotation { name: "reason".to_string(), arg: Some("R".to_string()) }];
    let from_anns = extract_reason(&anns);
    assert_eq!(from_args, from_anns);
    let d1 = Directive { stmts: vec!["Ok(())".to_string()], reason: from_args.clone() };
    let d2 = Directive { stmts: vec!["Ok(())".to_string()], reason: from_anns.clone() };
    assert_eq!(emit_block(&d1), emit_block(&d2));
    let steps = vec![Step::Fail("This operation failed".to_string())];
    let a = run_transformed(&from_args, &steps, ScopeResult::Success(0i32));
    let b = run_transformed(&from_anns, &steps, ScopeResult::Success(0i32));
    match (a, b) {
        (Outcome::Terminated(ma), Outcome::Terminated(mb)) => assert_eq!(ma, mb),
        _ => panic!("both forms should terminate"),
    }
}

#[test]
fn fatal_emits_wrapped_expression() {
    let ts: proc_macro2::TokenStream =
        "#![reason(\"boom\")] let value = compute()?; Ok(value)".parse().unwrap();
    let out = impass::fatal(ts).expect("valid input must transform");
    let text = squash(&out.to_string());
    assert!(text.contains(&squash("(|| -> std::result::Result<_, anyhow::Error>")));
    assert!(text.contains(&squash("let value = compute()?;")));
    assert!(text.contains(&squash("unwrap_or_else")));
    assert!(text.contains("\"boom\""));
    assert!(!text.contains(&squash("An unrecoverable error occurred")));
}

#[test]
fn fatal_without_reason_uses_generic_context() {
    let ts: proc_macro2::TokenStream = "let value = compute()?; Ok(value)".parse().unwrap();
    let out = impass::fatal(ts).expect("valid input must transform");
    assert!(out.to_string().contains("An unrecoverable error occurred"));
}

#[test]
fn fatal_last_reason_token_wins() {
    let ts: proc_macro2::TokenStream =
        "#![reason(\"A\")] #![reason(\"B\")] Ok(())".parse().unwrap();
    let out = impass::fatal(ts).expect("valid input must transform");
    let text = out.to_string();
    assert!(text.contains("\"B\""));
    assert!(!text.contains("\"A\""));
}

#[test]
fn non_string_reason_token_falls_back_to_generic() {
    let ts: proc_macro2::TokenStream = "#![reason(42)] Ok(())".parse().unwrap();
    let out = impass::fatal(ts).expect("valid input must transform");
    assert!(out.to_string().contains("An unrecoverable error occurred"));
}

#[test]
fn malformed_input_is_a_build_error() {
    let ts: proc_macro2::TokenStream = "let x =".parse().unwrap();
    let err = match impass::fatal(ts) {
        Err(e) => e,
        Ok(_) => panic!("an unterminated statement must be rejected"),
    };
    assert!(!err.message.is_empty());
}

#[test]
fn fatal_fn_rewrites_function_body() {
    let args: proc_macro2::TokenStream =
        "reason = \"Critical failure in function execution\"".parse().unwrap();
    let input: proc_macro2::TokenStream =
        "fn example_function() -> i32 { let value = might_fail(15)?; Ok(value) }"
            .parse()
            .unwrap();
    let out = impass::fatal_fn(args, input).expect("a valid function must transform");
    let text = out.to_string();
    assert!(text.contains("fn example_function"));
    assert!(squash(&text).contains(&squash("unwrap_or_else")));
    assert!(text.contains("Critical failure in function execution"));
    assert!(squash(&text).contains(&squash("let value = might_fail(15)?;")));
}

#[test]
fn fatal_fn_without_reason_uses_generic_context() {
    let args: proc_macro2::TokenStream = "".parse().unwrap();
    let input: proc_macro2::TokenStream = "fn f() -> i32 { Ok(1) }".parse().unwrap();
    let out = impass::fatal_fn(args, input).expect("a valid function must transform");
    assert!(out.to_string().contains("An unrecoverable error occurred"));
}

#[test]
fn fatal_fn_non_string_reason_falls_back_to_generic() {
    let args: proc_macro2::TokenStream = "reason = 42".parse().unwrap();
    let input: proc_macro2::TokenStream = "fn f() -> i32 { Ok(1) }".parse().unwrap();
    let out = impass::fatal_fn(args, input).expect("a valid function must transform");
    assert!(out.to_string().contains("An unrecoverable error occurred"));
}

#[test]
fn fatal_fn_non_function_input_is_a_build_error() {
    let args: proc_macro2::TokenStream = "".parse().unwrap();
    let input: proc_macro2::TokenStream = "struct S;".parse().unwrap();
    assert!(matches!(impass::fatal_fn(args, input), Err(_)));
}
