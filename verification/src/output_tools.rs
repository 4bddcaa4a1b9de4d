use std::io::Write;
use vstd::prelude::*;

verus! {

/// Somewhere text can be printed.
pub trait WriteToOutput {
    fn print(&mut self, content: String);
}

/// The standard output.
pub struct StdOut;

/// Writes `content` and a line break to the standard output with `writeln!`;
/// a failed write is ignored, as `println!` would panic instead.
#[verifier::external_body]
fn print_line(content: &str) {
    let _ = writeln!(std::io::stdout(), "{}", content);
}

impl WriteToOutput for StdOut {
    fn print(&mut self, content: String) {
        print_line(content.as_str());
    }
}

} // verus!
