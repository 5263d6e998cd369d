//! Access to the system clipboard, behind a single trusted wrapper.

use vstd::prelude::*;

verus! {

/// Relies on arboard's `Clipboard::new` and `Clipboard::get_text`: returns
/// whatever text the system clipboard holds at the moment of the call, as
/// characters, or `None` when the clipboard cannot be opened or holds no
/// text. The result depends on the environment, so nothing is promised of
/// it; callers state what holds whatever comes back.
#[verifier::external_body]
pub fn get_text() -> (r: Option<Vec<char>>) {
    match arboard::Clipboard::new() {
        Ok(mut clipboard) => match clipboard.get_text() {
            Ok(text) => Some(text.chars().collect()),
            Err(_) => None,
        },
        Err(_) => None,
    }
}

} // verus!
