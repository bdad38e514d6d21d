//! What the engine asks of the debugging symbols of the program.

use vstd::prelude::*;

verus! {

/// A line of the program's source.
#[derive(Clone, Debug, PartialEq, Eq)]
pub struct SourceLocation {
    /// Path of the source file.
    pub file: String,
    /// Line number in that file.
    pub number: usize,
    /// The instruction address that was looked up.
    pub address: usize,
}

/// One frame of the call stack.
#[derive(Clone, Debug, PartialEq, Eq)]
pub struct Frame {
    /// Name of the function the frame belongs to.
    pub function: String,
    /// The source line at which the frame is executing.
    pub location: SourceLocation,
}

/// The queries that the engine puts to the program's debugging symbols.
///
/// Nothing is assumed of the answers: whatever the engine proves holds for
/// every answer to every query.
pub trait SymbolResolver {
    /// The source line that the instruction at `addr` belongs to.
    fn resolve_line(&self, addr: usize) -> Option<SourceLocation>;

    /// The name of the function that the instruction at `addr` belongs to.
    fn resolve_function(&self, addr: usize) -> Option<String>;

    /// The address of the first instruction of source line `line`.
    fn address_for_line(&self, line: usize) -> Option<usize>;

    /// The address of the first instruction of the function `name`.
    fn address_for_function(&self, name: &str) -> Option<usize>;
}

/// Whether the query for the source line of `addr` can be answered with `r`.
pub open spec fn resolves_line<S: SymbolResolver>(
    symbols: S,
    addr: usize,
    r: Option<SourceLocation>,
) -> bool {
    call_ensures(S::resolve_line, (&symbols, addr), r)
}

/// Whether the query for the function of `addr` can be answered with `r`.
pub open spec fn resolves_function<S: SymbolResolver>(
    symbols: S,
    addr: usize,
    r: Option<String>,
) -> bool {
    call_ensures(S::resolve_function, (&symbols, addr), r)
}

/// Whether the query for the address of source line `line` can be answered
/// with `r`.
pub open spec fn finds_line<S: SymbolResolver>(symbols: S, line: usize, r: Option<usize>) -> bool {
    call_ensures(S::address_for_line, (&symbols, line), r)
}

/// Whether the query for the address of the function `name` can be answered
/// with `r`.
pub open spec fn finds_function<S: SymbolResolver>(
    symbols: S,
    name: &str,
    r: Option<usize>,
) -> bool {
    call_ensures(S::address_for_function, (&symbols, name), r)
}

} // verus!
