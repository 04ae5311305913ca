//! The three error tiers of the core, kept apart as the design requires:
//! static (compile-time) errors, dynamic (instruction-time) errors, and
//! session (pattern/binding) errors.

use vstd::prelude::*;

verus! {

/// A compile-time error: compilation of the current top-level form aborts
/// and no instruction of it is executed.
#[derive(Debug, PartialEq, Eq)]
pub enum StaticError {
    /// A name is bound more than once across a lambda's parameter patterns
    /// and its body's top-level `let` names.
    DuplicateVariableDefinitions(String),
    /// A variable literal names nothing in the session's name table.
    VariableNotDefined(String),
    /// An explicitly unimplemented literal or expression kind.
    Todo,
}

/// The mathematical value of a static error.
#[verifier::ext_equal]
pub enum StaticErrorV {
    DuplicateVariableDefinitions(Seq<char>),
    VariableNotDefined(Seq<char>),
    Todo,
}

impl View for StaticError {
    type V = StaticErrorV;

    open spec fn view(&self) -> StaticErrorV {
        match self {
            StaticError::DuplicateVariableDefinitions(s) => {
                StaticErrorV::DuplicateVariableDefinitions(s@)
            },
            StaticError::VariableNotDefined(s) => StaticErrorV::VariableNotDefined(s@),
            StaticError::Todo => StaticErrorV::Todo,
        }
    }
}

/// The display text of a static error.
pub open spec fn static_error_text(e: StaticErrorV) -> Seq<char> {
    match e {
        StaticErrorV::DuplicateVariableDefinitions(s) => {
            "encountered duplicate variable definitions: "@ + s
        },
        StaticErrorV::VariableNotDefined(s) => "encountered undefined variable: "@ + s,
        StaticErrorV::Todo => "TODO"@,
    }
}

impl StaticError {
    /// Renders the error for display.
    pub fn message(&self) -> (r: String)
        ensures
            r@ == static_error_text(self@),
    {
        match self {
            StaticError::DuplicateVariableDefinitions(s) => {
                let mut r: String = "encountered duplicate variable definitions: ".to_owned();
                r.push_str(s.as_str());
                r
            },
            StaticError::VariableNotDefined(s) => {
                let mut r: String = "encountered undefined variable: ".to_owned();
                r.push_str(s.as_str());
                r
            },
            StaticError::Todo => "TODO".to_owned(),
        }
    }
}

/// An error raised while instructions run: the in-flight execution aborts
/// and the error surfaces as a failed evaluation.
#[derive(Debug, PartialEq, Eq)]
pub enum DynamicError {
    /// An aborted call, such as a lambda parameter whose pattern did not
    /// match its argument.
    Panic(String),
    /// An instruction received a value shape it did not expect.
    TypeMismatch { expected: String, observed: String },
    /// A dangling or invalid heap address was dereferenced.
    CannotFindHeapAddress,
    /// A register was read before it was ever written.
    CannotFindLocal,
}

/// The mathematical value of a dynamic error.
#[verifier::ext_equal]
pub enum DynamicErrorV {
    Panic(Seq<char>),
    TypeMismatch { expected: Seq<char>, observed: Seq<char> },
    CannotFindHeapAddress,
    CannotFindLocal,
}

impl View for DynamicError {
    type V = DynamicErrorV;

    open spec fn view(&self) -> DynamicErrorV {
        match self {
            DynamicError::Panic(s) => DynamicErrorV::Panic(s@),
            DynamicError::TypeMismatch { expected, observed } => {
                DynamicErrorV::TypeMismatch { expected: expected@, observed: observed@ }
            },
            DynamicError::CannotFindHeapAddress => DynamicErrorV::CannotFindHeapAddress,
            DynamicError::CannotFindLocal => DynamicErrorV::CannotFindLocal,
        }
    }
}

/// The display text of a dynamic error.
pub open spec fn dynamic_error_text(e: DynamicErrorV) -> Seq<char> {
    match e {
        DynamicErrorV::Panic(s) => "panic: "@ + s,
        DynamicErrorV::TypeMismatch { expected, observed } => {
            "type mismatch expected "@ + expected + ", but found "@ + observed
        },
        DynamicErrorV::CannotFindHeapAddress => "cannot find heap address"@,
        DynamicErrorV::CannotFindLocal => "cannot find local"@,
    }
}

impl DynamicError {
    /// Renders the error for display.
    pub fn message(&self) -> (r: String)
        ensures
            r@ == dynamic_error_text(self@),
    {
        match self {
            DynamicError::Panic(s) => {
                let mut r: String = "panic: ".to_owned();
                r.push_str(s.as_str());
                r
            },
            DynamicError::TypeMismatch { expected, observed } => {
                let mut r: String = "type mismatch expected ".to_owned();
                r.push_str(expected.as_str());
                r.push_str(", but found ");
                r.push_str(observed.as_str());
                r
            },
            DynamicError::CannotFindHeapAddress => "cannot find heap address".to_owned(),
            DynamicError::CannotFindLocal => "cannot find local".to_owned(),
        }
    }
}

/// Any error one evaluation can surface: the three tiers are kept apart,
/// never collapsed into one.
#[derive(Debug, PartialEq, Eq)]
pub enum EvalError {
    Static(StaticError),
    Dynamic(DynamicError),
    Runtime(RuntimeError),
}

/// The mathematical value of an evaluation error.
#[verifier::ext_equal]
pub enum EvalErrorV {
    Static(StaticErrorV),
    Dynamic(DynamicErrorV),
    Runtime(RuntimeErrorV),
}

impl View for EvalError {
    type V = EvalErrorV;

    open spec fn view(&self) -> EvalErrorV {
        match self {
            EvalError::Static(e) => EvalErrorV::Static(e@),
            EvalError::Dynamic(e) => EvalErrorV::Dynamic(e@),
            EvalError::Runtime(e) => EvalErrorV::Runtime(e@),
        }
    }
}

impl EvalError {
    /// Renders the error for display.
    pub fn message(&self) -> (r: String)
        ensures
            r@ == eval_error_text(self@),
    {
        match self {
            EvalError::Static(e) => e.message(),
            EvalError::Dynamic(e) => e.message(),
            EvalError::Runtime(e) => e.message(),
        }
    }
}

/// The display text of an evaluation error: the text of the error inside.
pub open spec fn eval_error_text(e: EvalErrorV) -> Seq<char> {
    match e {
        EvalErrorV::Static(i) => static_error_text(i),
        EvalErrorV::Dynamic(i) => dynamic_error_text(i),
        EvalErrorV::Runtime(i) => runtime_error_text(i),
    }
}

/// A session-level pattern or binding error.
#[derive(Debug, PartialEq, Eq)]
pub enum RuntimeError {
    /// A name resolves to nothing.
    VariableNotFound(String),
    /// A `let` tried to rebind an already-present name; names are never
    /// silently shadowed.
    CannotSetBoundVariable(String),
    /// A function value was used where pattern matching would need to
    /// inspect its structure.
    CannotPatternMatchAgainstLambda,
    /// A top-level `let` pattern did not match the value of its expression.
    PatternMatchFailed,
}

/// The mathematical value of a session error.
#[verifier::ext_equal]
pub enum RuntimeErrorV {
    VariableNotFound(Seq<char>),
    CannotSetBoundVariable(Seq<char>),
    CannotPatternMatchAgainstLambda,
    PatternMatchFailed,
}

impl View for RuntimeError {
    type V = RuntimeErrorV;

    open spec fn view(&self) -> RuntimeErrorV {
        match self {
            RuntimeError::VariableNotFound(s) => RuntimeErrorV::VariableNotFound(s@),
            RuntimeError::CannotSetBoundVariable(s) => RuntimeErrorV::CannotSetBoundVariable(s@),
            RuntimeError::CannotPatternMatchAgainstLambda => {
                RuntimeErrorV::CannotPatternMatchAgainstLambda
            },
            RuntimeError::PatternMatchFailed => RuntimeErrorV::PatternMatchFailed,
        }
    }
}

/// The display text of a session error.
pub open spec fn runtime_error_text(e: RuntimeErrorV) -> Seq<char> {
    match e {
        RuntimeErrorV::VariableNotFound(s) => "could not find variable:  "@ + s,
        RuntimeErrorV::CannotSetBoundVariable(s) => "cannot set already bound variable:  "@ + s,
        RuntimeErrorV::CannotPatternMatchAgainstLambda => "cannot pattern match against a lambda"@,
        RuntimeErrorV::PatternMatchFailed => "pattern match failed"@,
    }
}

impl RuntimeError {
    /// Renders the error for display.
    pub fn message(&self) -> (r: String)
        ensures
            r@ == runtime_error_text(self@),
    {
        match self {
            RuntimeError::VariableNotFound(s) => {
                let mut r: String = "could not find variable:  ".to_owned();
                r.push_str(s.as_str());
                r
            },
            RuntimeError::CannotSetBoundVariable(s) => {
                let mut r: String = "cannot set already bound variable:  ".to_owned();
                r.push_str(s.as_str());
                r
            },
            RuntimeError::CannotPatternMatchAgainstLambda => {
                "cannot pattern match against a lambda".to_owned()
            },
            RuntimeError::PatternMatchFailed => "pattern match failed".to_owned(),
        }
    }
}

} // verus!
