//! What a code generator offers: it takes RXIR modules and writes what it
//! makes of them.

use std::path::PathBuf;
use vstd::prelude::*;

use crate::rxir::Module;

verus! {

/// `std::path::PathBuf`, carried through as it is: nothing is said of what
/// a path holds.
#[verifier::external_type_specification]
#[verifier::external_body]
pub struct ExPathBuf(PathBuf);

/// A code generator. There is one for each module that is compiled.
pub trait CodegenBackend {
    /// Takes the module in.
    fn gen_module(&mut self, module: &Module) -> Result<(), String>;

    /// Writes what was generated in the generator's own intermediate form.
    fn write_intermediate(&mut self, path: PathBuf) -> Result<(), String>;

    /// Writes what was generated as an object file.
    fn write_object(&mut self, path: PathBuf) -> Result<(), String>;
}

} // verus!
