//! What rendered templates rely on at run time.

use vstd::prelude::*;

pub mod decimal;
pub mod integer;

verus! {

/// Why rendering a template failed.
#[derive(Clone, Debug)]
pub enum RenderError {
    /// A message from the code that rendered a value.
    Msg(String),
    /// Formatting a value failed.
    Fmt,
}

/// The rendered text, or the reason why there is none.
pub type RenderResult = Result<String, RenderError>;

/// Turns the outcome of rendering into `buf` into a render result: the
/// buffer where rendering succeeded, its error where it failed.
pub fn finish_render(buf: String, status: Result<(), RenderError>) -> (r: RenderResult)
    ensures
        r == (match status {
            Ok(_) => Ok::<String, RenderError>(buf),
            Err(e) => Err::<String, RenderError>(e),
        }),
{
    match status {
        Ok(_) => Ok(buf),
        Err(e) => Err(e),
    }
}

} // verus!
