//! Runtime support for rendering templates: the traits that a renderable
//! template implements, and the fast path that writes fixed-width integers
//! as decimal text straight into an output buffer.

use vstd::prelude::*;

pub mod runtime;

pub use runtime::{RenderError, RenderResult};

use runtime::finish_render;

verus! {

/// Template that can be rendered with consuming itself.
pub trait TemplateOnce: Sized {
    /// What rendering this template can do to a buffer: whether, from a
    /// buffer that holds `before`, it can leave `after` in the buffer and
    /// end with `error`, or without one. Each template says this of itself;
    /// one that says nothing admits every outcome.
    open spec fn renders(
        self,
        before: Seq<char>,
        after: Seq<char>,
        error: Option<RenderError>,
    ) -> bool {
        true
    }

    /// Renders the template into a fresh string: the text that rendering
    /// leaves in an empty buffer, or the error that rendering ended with.
    fn render_once(self) -> (r: RenderResult)
        ensures
            match r {
                Ok(text) => self.renders(Seq::empty(), text@, None),
                Err(e) => exists|after: Seq<char>| self.renders(Seq::empty(), after, Some(e)),
            },
    {
        let mut buf = String::new();
        let status = self.render_once_to_string(&mut buf);
        finish_render(buf, status)
    }

    /// Renders the template and appends the result to `buf`.
    fn render_once_to_string(self, buf: &mut String) -> (status: Result<(), RenderError>)
        ensures
            self.renders(
                old(buf)@,
                final(buf)@,
                match status {
                    Ok(_) => None,
                    Err(e) => Some(e),
                },
            ),
    ;
}

/// Template that can be rendered any number of times.
pub trait Template {
    /// Renders the template into a fresh string.
    fn render(&self) -> RenderResult;
}

} // verus!
