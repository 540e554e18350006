//! The evaluation adapter: a persistent evaluator session around the external
//! expression backend, the binding special-case that re-evaluates a freshly
//! bound name so its value is displayed, and the library's own error type.

use vstd::prelude::*;
use crate::token::{second_token, second_token_of, spec_starts_with_let, starts_with_let};

verus! {

/// A failure of the adapter or of the backend it wraps.
#[derive(Debug, PartialEq, Eq)]
pub enum EvalError {
    /// A binding statement held no second token to re-evaluate as the bound name.
    MissingBindingName,
    /// The evaluation succeeded but produced no displayable value.
    NoDisplayableValue,
    /// The bootstrap statement loading the standard prelude failed.
    Prelude,
    /// The backend rejected the batch; the diagnostic message is attached.
    Interpreter(String),
}

impl EvalError {
    /// The diagnostic text of this error.
    pub open spec fn spec_message(&self) -> Seq<char> {
        match self {
            EvalError::MissingBindingName => "Failed to extract variable"@,
            EvalError::NoDisplayableValue => "Failed to get value"@,
            EvalError::Prelude => "Interpreter error in Prelude code"@,
            EvalError::Interpreter(d) => d@,
        }
    }

    /// The diagnostic text of this error.
    pub fn message(&self) -> (r: String)
        ensures
            r@ == self.spec_message(),
    {
        match self {
            EvalError::MissingBindingName => String::from_str("Failed to extract variable"),
            EvalError::NoDisplayableValue => String::from_str("Failed to get value"),
            EvalError::Prelude => String::from_str("Interpreter error in Prelude code"),
            EvalError::Interpreter(d) => d.clone(),
        }
    }
}

/// Configuration of a fresh evaluator session.
#[derive(Debug, Clone, Copy)]
pub struct NumbatConfig {
    /// Load the standard prelude with predefined physical dimensions and units.
    pub load_prelude: bool,
    /// Load the user init file.
    pub load_user_init: bool,
}

impl Default for NumbatConfig {
    fn default() -> (r: Self)
        ensures
            r.load_prelude,
            r.load_user_init,
    {
        NumbatConfig { load_prelude: true, load_user_init: true }
    }
}

/// Distinguishes internally generated bootstrap code from user-supplied text.
#[derive(Debug, Clone, Copy)]
pub enum SourceKind {
    /// Bootstrap code submitted by the system itself, such as prelude loading.
    Internal,
    /// Text supplied by the user.
    Text,
}

#[verifier::external_type_specification]
#[verifier::external_body]
pub struct ExContext(numbat::Context);

#[verifier::external_type_specification]
#[verifier::external_body]
pub struct ExInterpreterResult(numbat::InterpreterResult);

#[verifier::external_type_specification]
#[verifier::external_body]
pub struct ExNumbatError(numbat::NumbatError);

/// Relies on numbat::Context::new, applied to a ChainedImporter of a default
/// FileSystemImporter and the BuiltinModuleImporter: a fresh evaluator session
/// whose module imports resolve against the assets built into the backend.
#[verifier::external_body]
fn fresh_context() -> numbat::Context {
    let importer = numbat::module_importer::ChainedImporter::new(
        Box::new(numbat::module_importer::FileSystemImporter::default()),
        Box::new(numbat::module_importer::BuiltinModuleImporter::default()),
    );
    numbat::Context::new(importer)
}

/// Relies on numbat::Context::interpret: parses and evaluates `code` in the
/// session, mutating the session's bindings, and reports either the
/// interpreter's result or the backend's error.
#[verifier::external_body]
fn interpret(
    ctx: &mut numbat::Context,
    code: &str,
    kind: SourceKind,
) -> Result<numbat::InterpreterResult, Box<numbat::NumbatError>> {
    let source = match kind {
        SourceKind::Internal => numbat::resolver::CodeSource::Internal,
        SourceKind::Text => numbat::resolver::CodeSource::Text,
    };
    match ctx.interpret(code, source) {
        Ok((_, res)) => Ok(res),
        Err(e) => Err(e),
    }
}

/// Relies on numbat::InterpreterResult::value_as_string: the textual rendering
/// of the computed value, or `None` when the evaluation produced no value.
#[verifier::external_body]
fn result_value_text(r: &numbat::InterpreterResult) -> Option<String> {
    match r.value_as_string() {
        Some(s) => Some(String::from(s)),
        None => None,
    }
}

/// Relies on the Display implementation of numbat::NumbatError for the
/// backend's diagnostic message.
#[verifier::external_body]
fn numbat_error_message(e: Box<numbat::NumbatError>) -> String {
    format!("{e}")
}

/// The binding special-case: a statement that begins with the binding keyword
/// is extended with a further line that re-evaluates the bound name (its
/// second whitespace-delimited token), so that the displayed result is the
/// value of the new binding rather than the backend's result for a
/// declaration. Any other statement is passed on unchanged.
pub fn prepare_code(code: &String) -> (r: Result<String, EvalError>)
    ensures
        !spec_starts_with_let(code@) ==> (r matches Ok(c) && c@ == code@),
        spec_starts_with_let(code@) ==> match second_token_of(code@) {
            Some(name) => r matches Ok(c) && c@ == code@ + seq!['\n'] + name,
            None => r == Err::<String, EvalError>(EvalError::MissingBindingName),
        },
{
    if starts_with_let(code.as_str()) {
        match second_token(code.as_str()) {
            Some(name) => {
                proof {
                    reveal_strlit("\n");
                }
                let mut out = code.clone();
                out.append("\n");
                out.append(name.as_str());
                Ok(out)
            },
            None => Err(EvalError::MissingBindingName),
        }
    } else {
        Ok(code.clone())
    }
}

/// Converts the backend's optional display text into the adapter's result:
/// the text of a computed value succeeds, a valueless evaluation is the
/// result-extraction failure.
pub fn value_to_result(v: Option<String>) -> (r: Result<String, EvalError>)
    ensures
        match v {
            Some(s) => r == Ok::<String, EvalError>(s),
            None => r == Err::<String, EvalError>(EvalError::NoDisplayableValue),
        },
{
    match v {
        Some(s) => Ok(s),
        None => Err(EvalError::NoDisplayableValue),
    }
}

/// The persistent evaluator session: later batches see bindings made by
/// earlier ones; the session is never reset during a run.
pub struct NumbatWrapper {
    pub context: numbat::Context,
    pub config: NumbatConfig,
}

impl NumbatWrapper {
    /// Creates a fresh session, loading the standard prelude when the
    /// configuration asks for it. A prelude failure is fatal.
    pub fn new(config: NumbatConfig) -> (r: Result<NumbatWrapper, EvalError>)
        ensures
            !config.load_prelude ==> r is Ok,
            r matches Ok(w) ==> w.config == config,
            r matches Err(e) ==> config.load_prelude && e == EvalError::Prelude,
    {
        let mut context = fresh_context();
        if config.load_prelude {
            let bootstrap = interpret(&mut context, "use prelude", SourceKind::Internal);
            if let Err(_) = bootstrap {
                return Err(EvalError::Prelude);
            }
        }
        Ok(NumbatWrapper { context, config })
    }

    /// Evaluates one flushed batch against the session, exactly once: the
    /// batch is first put through the binding special-case, then handed to
    /// the backend, and the computed value's text is extracted.
    pub fn eval_block(&mut self, block: String) -> (r: Result<String, EvalError>)
        ensures
            final(self).config == old(self).config,
            (spec_starts_with_let(block@) && second_token_of(block@) is None)
                <==> r == Err::<String, EvalError>(EvalError::MissingBindingName),
            r matches Err(e) ==> !(e is Prelude),
    {
        let code = match prepare_code(&block) {
            Ok(c) => c,
            Err(e) => {
                return Err(e);
            },
        };
        match interpret(&mut self.context, code.as_str(), SourceKind::Text) {
            Ok(res) => value_to_result(result_value_text(&res)),
            Err(e) => Err(EvalError::Interpreter(numbat_error_message(e))),
        }
    }
}

} // verus!
