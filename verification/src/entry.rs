//! The entry point an application gets: which start-up code wraps its
//! `main` for the target, and the checks made on the `main` it writes.

use vstd::prelude::*;

verus! {

/// The start-up code that runs an application's `main` on an executor.
#[derive(Clone, Copy, Debug, PartialEq, Eq, Structural)]
pub enum EntryKind {
    /// Cortex-M reset entry.
    CortexM,
    /// RISC-V reset entry.
    Riscv,
    /// WebAssembly start function.
    Wasm,
    /// Hosted `fn main`.
    Std,
}

/// What the build knows of the target when it picks the entry.
#[derive(Clone, Copy, Debug)]
pub struct EntryTarget {
    /// The `cortex_m` configuration flag is on.
    pub cortex_m: bool,
    /// The target architecture is 32-bit RISC-V.
    pub riscv32: bool,
    /// The `wasm` feature is on.
    pub wasm: bool,
    /// The `std` feature is on.
    pub std: bool,
}

/// The entry for a target: the first that applies of Cortex-M, RISC-V,
/// WebAssembly and hosted, in that order; none where none applies.
pub open spec fn entry_for(t: EntryTarget) -> Option<EntryKind> {
    if t.cortex_m {
        Some(EntryKind::CortexM)
    } else if t.riscv32 {
        Some(EntryKind::Riscv)
    } else if t.wasm {
        Some(EntryKind::Wasm)
    } else if t.std {
        Some(EntryKind::Std)
    } else {
        None
    }
}

/// Picks the entry for a target.
pub fn select_entry(t: &EntryTarget) -> (r: Option<EntryKind>)
    ensures
        r == entry_for(*t),
{
    if t.cortex_m {
        Some(EntryKind::CortexM)
    } else if t.riscv32 {
        Some(EntryKind::Riscv)
    } else if t.wasm {
        Some(EntryKind::Wasm)
    } else if t.std {
        Some(EntryKind::Std)
    } else {
        None
    }
}

/// The return type written on an application's `main`.
#[derive(Clone, Copy, Debug, PartialEq, Eq, Structural)]
pub enum DeclaredReturn {
    /// No return type.
    Omitted,
    /// A tuple type with this many elements (`()` has none).
    Tuple(usize),
    /// `!`.
    Never,
    /// Any other type.
    Other,
}

/// `main` may return nothing, `()` or `!`.
pub open spec fn return_allowed(r: DeclaredReturn) -> bool {
    match r {
        DeclaredReturn::Omitted => true,
        DeclaredReturn::Tuple(n) => n == 0,
        DeclaredReturn::Never => true,
        DeclaredReturn::Other => false,
    }
}

/// Whether `main` may have the return type `r`: none, `()` or `!`.
pub fn return_type_allowed(r: &DeclaredReturn) -> (ok: bool)
    ensures
        ok == return_allowed(*r),
{
    match r {
        DeclaredReturn::Omitted => true,
        DeclaredReturn::Tuple(n) => *n == 0,
        DeclaredReturn::Never => true,
        DeclaredReturn::Other => false,
    }
}

/// What the checks read of an application's `main` signature.
#[derive(Clone, Copy, Debug)]
pub struct MainSignature {
    /// It is an `async fn`.
    pub is_async: bool,
    /// It carries an ABI qualifier (`extern "C"`).
    pub has_abi: bool,
    /// It is variadic.
    pub is_variadic: bool,
    /// Its return type.
    pub output: DeclaredReturn,
    /// The number of its parameters.
    pub arg_count: usize,
}

/// A rule that an application's `main` breaks.
#[derive(Clone, Copy, Debug, PartialEq, Eq, Structural)]
pub enum SignatureError {
    NotAsync,
    AbiQualifier,
    Variadic,
    ReturnType,
    ArgumentCount,
}

/// The rules that `sig` breaks, in the order in which they are checked.
pub open spec fn signature_errors(sig: MainSignature) -> Seq<SignatureError> {
    (if !sig.is_async {
        seq![SignatureError::NotAsync]
    } else {
        Seq::empty()
    }) + (if sig.has_abi {
        seq![SignatureError::AbiQualifier]
    } else {
        Seq::empty()
    }) + (if sig.is_variadic {
        seq![SignatureError::Variadic]
    } else {
        Seq::empty()
    }) + (if !return_allowed(sig.output) {
        seq![SignatureError::ReturnType]
    } else {
        Seq::empty()
    }) + (if sig.arg_count != 2 {
        seq![SignatureError::ArgumentCount]
    } else {
        Seq::empty()
    })
}

/// Every rule that `sig` breaks, in order: it must be `async`, have no ABI
/// qualifier, not be variadic, return nothing, `()` or `!`, and take two
/// parameters, the device and the spawner.
pub fn check_main_signature(sig: &MainSignature) -> (errors: Vec<SignatureError>)
    ensures
        errors@ == signature_errors(*sig),
{
    let mut errors: Vec<SignatureError> = Vec::new();
    if !sig.is_async {
        errors.push(SignatureError::NotAsync);
    }
    if sig.has_abi {
        errors.push(SignatureError::AbiQualifier);
    }
    if sig.is_variadic {
        errors.push(SignatureError::Variadic);
    }
    if !return_type_allowed(&sig.output) {
        errors.push(SignatureError::ReturnType);
    }
    if sig.arg_count != 2 {
        errors.push(SignatureError::ArgumentCount);
    }
    assert(errors@ =~= signature_errors(*sig));
    errors
}

/// Accepts `sig`, or refuses it with every rule that it breaks.
pub fn validate_main(sig: &MainSignature) -> (r: Result<(), Vec<SignatureError>>)
    ensures
        r is Ok <==> signature_errors(*sig).len() == 0,
        r is Ok <==> (sig.is_async && !sig.has_abi && !sig.is_variadic && return_allowed(
            sig.output,
        ) && sig.arg_count == 2),
        r matches Err(errors) ==> errors@ == signature_errors(*sig),
{
    let errors: Vec<SignatureError> = check_main_signature(sig);
    if errors.len() == 0 {
        Ok(())
    } else {
        Err(errors)
    }
}

impl SignatureError {
    /// The message the attribute reports for the rule.
    pub fn message(&self) -> (m: &'static str)
        ensures
            m@ == match self {
                SignatureError::NotAsync => "main function must be async"@,
                SignatureError::AbiQualifier => "main function must not have an ABI qualifier"@,
                SignatureError::Variadic => "main function must not be variadic"@,
                SignatureError::ReturnType =>
                    "main function must either not return a value, return `()` or return `!`"@,
                SignatureError::ArgumentCount =>
                    "main function must have 2 arguments: the device and the spawner."@,
            },
    {
        match self {
            SignatureError::NotAsync => "main function must be async",
            SignatureError::AbiQualifier => "main function must not have an ABI qualifier",
            SignatureError::Variadic => "main function must not be variadic",
            SignatureError::ReturnType =>
                "main function must either not return a value, return `()` or return `!`",
            SignatureError::ArgumentCount =>
                "main function must have 2 arguments: the device and the spawner.",
        }
    }
}

} // verus!
