use vstd::prelude::*;

verus! {

/// Every failure the engine can report, one variant per cause.
///
/// Validation failures reject a job definition before any resolution;
/// resolution failures abort a cycle while deriving a variable's value;
/// evaluation failures abort a cycle while computing a condition or
/// function; template failures concern placeholder substitution.
#[derive(Clone, Copy, Debug, PartialEq, Eq, Structural)]
pub enum ResolverError {
    /// A declared variable is structurally invalid (empty or malformed name).
    InvalidVariables,
    /// Two declared variables share one name.
    VariablesContainDuplicates,
    /// A template references a name absent from the declared variable list.
    VariablesMissingFromTemplates,
    /// A declared variable is referenced by no template.
    ExcessVariablesInTemplates,
    /// An instruction template is not well-formed instruction text.
    InvalidInstructions,
    /// A value's text does not parse into the variable's declared kind.
    TypeConversionFailed,
    /// No query response is available for a query variable.
    QueryFailed,
    /// A selector path segment is missing from the query response.
    SelectorNotFound,
    /// A function expression's operation does not apply to its operands.
    UnsupportedFunction,
    /// A condition references a variable name that is not declared.
    UnknownVariable,
    /// Two values of different kinds were compared.
    TypeMismatch,
    /// A placeholder's variable has no resolved value at substitution time.
    UnresolvedVariable,
    /// A placeholder token survived substitution.
    TemplateError,
    /// No caller-supplied input matches an external variable's key.
    ExternalInputMissing,
    /// Integer or decimal arithmetic left the representable range.
    Overflow,
    /// Division by zero in a function expression.
    DivisionByZero,
    /// An update expression was applied under a job status that selects none.
    NoUpdateForStatus,
}

} // verus!
