//! The file-access capability the pipeline consumes. The library only ever
//! calls `path_exists` and `read_to_string`; `write` completes the capability
//! surface but is never exercised here. Implementations live outside the
//! verified library (a real filesystem in the binary, an in-memory map in
//! tests), so the methods carry no contracts: the pipeline's own contracts
//! state what holds of every answer these methods may give.

use vstd::prelude::*;

verus! {

pub trait FileSystem {
    fn path_exists(&self, path: &str) -> bool;

    fn read_to_string(&self, path: &str) -> Result<String, String>;

    fn write(&self, path: &str, contents: &str) -> Result<(), String>;
}

} // verus!
