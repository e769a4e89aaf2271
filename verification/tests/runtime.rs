use lox::runtime::{arity_message, call_outcome, loop_step, CallOutcome, Flow, InterpreterError, LoopAction};

#[test]
fn while_loop_steps() {
    assert_eq!(loop_step(false, Some(false), Flow::Normal), LoopAction::Exit);
    assert_eq!(loop_step(false, Some(true), Flow::Normal), LoopAction::Next);
    assert_eq!(loop_step(false, Some(true), Flow::Continue), LoopAction::Next);
    assert_eq!(loop_step(false, Some(true), Flow::Break), LoopAction::Exit);
    assert_eq!(loop_step(false, Some(true), Flow::Return), LoopAction::Propagate);
    assert_eq!(loop_step(false, Some(true), Flow::Error), LoopAction::Propagate);
}

#[test]
fn for_loop_steps_run_the_increment() {
    assert_eq!(loop_step(true, None, Flow::Normal), LoopAction::Increment);
    assert_eq!(loop_step(true, Some(true), Flow::Continue), LoopAction::Increment);
    assert_eq!(loop_step(true, None, Flow::Break), LoopAction::Exit);
    assert_eq!(loop_step(true, Some(false), Flow::Error), LoopAction::Exit);
}

#[test]
fn call_outcomes() {
    assert_eq!(call_outcome(2, 3, Flow::Normal, false), CallOutcome::ArityMismatch);
    assert_eq!(call_outcome(1, 1, Flow::Normal, false), CallOutcome::ReturnNil);
    assert_eq!(call_outcome(1, 1, Flow::Return, false), CallOutcome::ReturnValue);
    assert_eq!(call_outcome(0, 0, Flow::Normal, true), CallOutcome::ReturnThis);
    assert_eq!(call_outcome(0, 0, Flow::Return, true), CallOutcome::ReturnValue);
    assert_eq!(call_outcome(0, 0, Flow::Error, false), CallOutcome::Propagate);
    assert_eq!(call_outcome(0, 0, Flow::Break, false), CallOutcome::Propagate);
}

#[test]
fn arity_and_error_messages() {
    assert_eq!(arity_message(2, 13), "Expected 2 arguments but got 13.");
    assert_eq!(
        InterpreterError::RuntimeError("Operands must be numbers.".to_string(), 3).to_display_string(),
        "Operands must be numbers.\n[Line 3]"
    );
    assert_eq!(
        InterpreterError::Internal("oops".to_string()).to_display_string(),
        "Internal error: oops"
    );
}
