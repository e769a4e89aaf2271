//! The evaluator's rules that need no values: how loops and calls go on after
//! their body ran, and the evaluator's errors and messages.
use crate::text::{decimal, push_decimal};
use vstd::prelude::*;

verus! {

/// An error met while evaluating.
pub enum InterpreterError {
    /// A fault of the evaluator itself, with its message.
    Internal(String),
    /// An error of the program, with its message and line.
    RuntimeError(String, usize),
}

/// The model of an [`InterpreterError`].
pub enum SpecInterpreterError {
    Internal(Seq<char>),
    RuntimeError(Seq<char>, usize),
}

impl View for InterpreterError {
    type V = SpecInterpreterError;

    open spec fn view(&self) -> SpecInterpreterError {
        match self {
            InterpreterError::Internal(m) => SpecInterpreterError::Internal(m@),
            InterpreterError::RuntimeError(m, line) => SpecInterpreterError::RuntimeError(m@, *line),
        }
    }
}

/// The message shown for an evaluation error.
pub open spec fn interpreter_error_text(e: SpecInterpreterError) -> Seq<char> {
    match e {
        SpecInterpreterError::Internal(m) => "Internal error: "@ + m,
        SpecInterpreterError::RuntimeError(m, line) => m + "\n[Line "@ + decimal(line as nat) + "]"@,
    }
}

impl InterpreterError {
    /// The message shown for this error, such as `Operands must be numbers.`
    /// followed by a line `[Line 3]`.
    pub fn to_display_string(&self) -> (s: String)
        ensures
            s@ == interpreter_error_text(self@),
    {
        match self {
            InterpreterError::Internal(m) => {
                let mut s = String::from_str("Internal error: ");
                s.append(m.as_str());
                s
            },
            InterpreterError::RuntimeError(m, line) => {
                let mut s = m.clone();
                s.append("\n[Line ");
                push_decimal(&mut s, *line);
                s.append("]");
                s
            },
        }
    }
}

/// How running a statement ended.
#[derive(Clone, Copy, Debug, PartialEq, Eq, Structural)]
pub enum Flow {
    /// It ran to its end.
    Normal,
    /// A `break` left it.
    Break,
    /// A `continue` left it.
    Continue,
    /// A `return` left it.
    Return,
    /// An error stopped it.
    Error,
}

/// What a loop does next.
#[derive(Clone, Copy, Debug, PartialEq, Eq, Structural)]
pub enum LoopAction {
    /// The loop ends normally.
    Exit,
    /// The loop tests its condition again.
    Next,
    /// A `for` loop runs its increment, then tests its condition again.
    Increment,
    /// The loop ends, handing on how its body ended.
    Propagate,
}

/// What a loop does next, given whether it is a `for` loop, what its
/// condition gave (`None` for a `for` loop without one) and how its body
/// ended. A false condition ends the loop before the body; `break` ends it;
/// `continue` and a normal end go round again, through the increment in a
/// `for` loop; `return` and errors leave the loop.
pub open spec fn loop_rule(is_for: bool, cond: Option<bool>, body: Flow) -> LoopAction {
    if cond == Some(false) {
        LoopAction::Exit
    } else {
        match body {
            Flow::Break => LoopAction::Exit,
            Flow::Return => LoopAction::Propagate,
            Flow::Error => LoopAction::Propagate,
            _ => if is_for {
                LoopAction::Increment
            } else {
                LoopAction::Next
            },
        }
    }
}

/// What a loop does next (see [`loop_rule`]).
pub fn loop_step(is_for: bool, cond: Option<bool>, body: Flow) -> (a: LoopAction)
    ensures
        a == loop_rule(is_for, cond, body),
        // A false condition ends the loop, whatever the body did.
        cond == Some(false) ==> a == LoopAction::Exit,
        // `break` ends the loop normally.
        body == Flow::Break ==> a == LoopAction::Exit,
        // A `return` or an error in the body leaves the loop, in `while` and
        // `for` alike, and is handed on.
        cond != Some(false) && (body == Flow::Return || body == Flow::Error) ==> a == LoopAction::Propagate,
        // After a normal end or a `continue`, the loop goes round again; only a
        // `for` loop has an increment to run first.
        cond != Some(false) && (body == Flow::Normal || body == Flow::Continue) ==> a == (if is_for {
            LoopAction::Increment
        } else {
            LoopAction::Next
        }),
        // The loop hands on exactly a `return` or an error from its body.
        (a == LoopAction::Propagate) <==> (cond != Some(false) && (body == Flow::Return || body == Flow::Error)),
{
    if matches!(cond, Some(false)) {
        return LoopAction::Exit;
    }
    match body {
        Flow::Break => LoopAction::Exit,
        Flow::Return => LoopAction::Propagate,
        Flow::Error => LoopAction::Propagate,
        _ => if is_for {
            LoopAction::Increment
        } else {
            LoopAction::Next
        },
    }
}

/// How a call of a function ends.
#[derive(Clone, Copy, Debug, PartialEq, Eq, Structural)]
pub enum CallOutcome {
    /// The number of arguments differs from the number of parameters; the body
    /// does not run.
    ArityMismatch,
    /// An initializer that ran to its end gives the instance, `this`.
    ReturnThis,
    /// The body ran to its end: the call gives `nil`.
    ReturnNil,
    /// A `return` ended the body: the call gives its value.
    ReturnValue,
    /// An error, or a `break` or `continue` that escaped, is handed on.
    Propagate,
}

/// How a call ends, given the numbers of parameters and arguments, how the
/// body ended, and whether the function is an initializer.
pub open spec fn call_rule(params: usize, args: usize, body: Flow, is_initializer: bool) -> CallOutcome {
    if params != args {
        CallOutcome::ArityMismatch
    } else if is_initializer && body == Flow::Normal {
        CallOutcome::ReturnThis
    } else {
        match body {
            Flow::Normal => CallOutcome::ReturnNil,
            Flow::Return => CallOutcome::ReturnValue,
            _ => CallOutcome::Propagate,
        }
    }
}

/// How a call ends (see [`call_rule`]).
pub fn call_outcome(params: usize, args: usize, body: Flow, is_initializer: bool) -> (o: CallOutcome)
    ensures
        o == call_rule(params, args, body, is_initializer),
        // The arity check fails exactly when the numbers differ, too few
        // arguments as well as too many.
        (o == CallOutcome::ArityMismatch) <==> params != args,
        // With matching arity: a `return` gives its value, an error or an
        // escaping `break` or `continue` is handed on, and a normal end gives
        // `this` from an initializer and `nil` from any other function.
        params == args && body == Flow::Return ==> o == CallOutcome::ReturnValue,
        params == args && (body == Flow::Error || body == Flow::Break || body == Flow::Continue) ==> o
            == CallOutcome::Propagate,
        params == args && body == Flow::Normal ==> o == (if is_initializer {
            CallOutcome::ReturnThis
        } else {
            CallOutcome::ReturnNil
        }),
{
    if params != args {
        return CallOutcome::ArityMismatch;
    }
    match body {
        Flow::Normal => if is_initializer {
            CallOutcome::ReturnThis
        } else {
            CallOutcome::ReturnNil
        },
        Flow::Return => CallOutcome::ReturnValue,
        _ => CallOutcome::Propagate,
    }
}

/// The message for a call with the wrong number of arguments.
pub open spec fn arity_text(expected: usize, got: usize) -> Seq<char> {
    "Expected "@ + decimal(expected as nat) + " arguments but got "@ + decimal(got as nat) + "."@
}

/// The message for a call with the wrong number of arguments, such as
/// `Expected 2 arguments but got 3.`.
pub fn arity_message(expected: usize, got: usize) -> (s: String)
    ensures
        s@ == arity_text(expected, got),
{
    let mut s = String::from_str("Expected ");
    push_decimal(&mut s, expected);
    s.append(" arguments but got ");
    push_decimal(&mut s, got);
    s.append(".");
    s
}

} // verus!
