use std::cell::Cell;

use metri_engine::errors::{DomainError, ErrorCode};
use metri_engine::iop::pipeline::run;

type Step<C> = Box<dyn Fn(C) -> Result<C, DomainError>>;

#[test]
fn run_executes_all_steps_on_success() {
    let steps: Vec<Step<i32>> = vec![
        Box::new(|n| Ok(n + 1)),
        Box::new(|n| Ok(n * 2)),
        Box::new(|n| Ok(n + 10)),
    ];
    assert_eq!(run(&steps, 5), Ok(22));
}

#[test]
fn run_short_circuits_on_first_error() {
    let steps: Vec<Step<i32>> = vec![
        Box::new(|n| Ok(n + 1)),
        Box::new(|_| Err(DomainError::new(ErrorCode::Eav001, "paso 2 falló".to_string()))),
        Box::new(|n| Ok(n + 100)),
    ];
    assert!(run(&steps, 5).is_err());
}

#[test]
fn run_returns_the_first_error_and_runs_nothing_after_it() {
    let later = Cell::new(0);
    let steps: Vec<Box<dyn Fn(i32) -> Result<i32, DomainError> + '_>> = vec![
        Box::new(|_| Err(DomainError::new(ErrorCode::Eav001, "first".to_string()))),
        Box::new(|_| Err(DomainError::new(ErrorCode::Eav004, "second".to_string()))),
        Box::new(|n| {
            later.set(later.get() + 1);
            Ok(n)
        }),
    ];
    let err = run(&steps, 1).unwrap_err();
    assert_eq!(err.code, ErrorCode::Eav001);
    assert_eq!(err.detail, "first");
    assert_eq!(later.get(), 0);
}

#[test]
fn run_without_steps_returns_the_context() {
    let steps: Vec<Step<i32>> = vec![];
    assert_eq!(run(&steps, 7), Ok(7));
}

#[test]
fn domain_error_builders_keep_the_other_fields() {
    let e = DomainError::new(ErrorCode::Quota001, "x".to_string()).with_stage("quota");
    assert_eq!(e.stage, "quota");
    assert_eq!(e.code.canonical_code(), "QUOTA_001");
    assert!(!e.retryable);
    assert!(e.context.is_none());
}
