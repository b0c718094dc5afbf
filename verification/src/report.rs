use vstd::prelude::*;
use vstd::string::*;
use crate::catalog::{hex_digits, lower_digits, lower_hex};
use crate::error::ResolveError;
use crate::resolver::{field_address, resolve_field_path};
use crate::store::Store;

verus! {

/// The line that reports a path: the path, then its address in small hex
/// digits, or a mark where the path gave no address.
pub open spec fn report_text(path: Seq<char>, outcome: Result<u64, ResolveError>) -> Seq<char> {
    match outcome {
        Ok(address) => path + " @ 0x"@ + hex_digits(address as nat, lower_digits()),
        Err(_) => path + " @ <unresolved>"@,
    }
}

/// Writes the line that reports what a path resolved to.
pub fn report_line(path: &str, outcome: Result<u64, ResolveError>) -> (r: String)
    ensures
        r@ == report_text(path@, outcome),
{
    let line: String = path.to_owned();
    match outcome {
        Ok(address) => {
            let hex: String = lower_hex(address);
            let line: String = line.concat(" @ 0x");
            line.concat(hex.as_str())
        },
        Err(_) => line.concat(" @ <unresolved>"),
    }
}

/// Resolves a field path against a store and reports it. A path that
/// does not resolve gets its line all the same.
pub fn report_field(store: &Store, base: u64, path: &str) -> (r: String)
    ensures
        r@ == report_text(path@, field_address(store@.types, base, path.spec_bytes())),
{
    report_line(path, resolve_field_path(store, base, path.as_bytes()))
}

} // verus!
