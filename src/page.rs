//! What comes back from the page renderer, and the errors of a session.

use vstd::prelude::*;

use crate::chars::push_str_chars;
use crate::sanitize::{sanitized, strip_control_chars};

verus! {

/// What can go wrong in a session.
#[derive(Clone, Debug, PartialEq, Eq)]
pub enum PageError {
    /// The renderer failed for this program's page.
    Render(String),
    /// The renderer or the pager could not be started; what the system said.
    Launch(String),
    /// The terminal could not be set up, drawn on or restored; what it said.
    Terminal(String),
}

/// The message of a renderer failure.
pub open spec fn render_message(program: Seq<char>) -> Seq<char> {
    "Failed to get man page for '"@ + program + "'"@
}

impl PageError {
    /// The text shown to the user.
    pub fn message(&self) -> (r: String)
        ensures
            self matches PageError::Render(p) ==> r@ == render_message(p@),
            self matches PageError::Launch(d) ==> r@ == d@,
            self matches PageError::Terminal(d) ==> r@ == d@,
    {
        match self {
            PageError::Render(p) => {
                let mut r = String::new();
                push_str_chars(&mut r, "Failed to get man page for '");
                push_str_chars(&mut r, p.as_str());
                push_str_chars(&mut r, "'");
                proof {
                    assert(r@ =~= render_message(p@));
                }
                r
            },
            PageError::Launch(d) => d.clone(),
            PageError::Terminal(d) => d.clone(),
        }
    }
}

/// The clean text of a page, from whether the renderer succeeded and what it
/// printed: a failure is a render error for `program`, and a success gives
/// the printed text with formatting removed.
pub fn page_text(success: bool, raw: &str, program: &str) -> (r: Result<String, PageError>)
    ensures
        r is Ok <==> success,
        r matches Ok(t) ==> t@ == sanitized(raw@),
        r matches Err(e) ==> e matches PageError::Render(p) && p@ == program@,
{
    if !success {
        return Err(PageError::Render(program.to_owned()));
    }
    Ok(strip_control_chars(raw))
}

} // verus!
