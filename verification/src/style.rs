//! Colours on a terminal.

use vstd::prelude::*;
use vstd::string::*;

verus! {

/// `s` between the codes that start and end bright blue.
pub open spec fn blue(s: Seq<char>) -> Seq<char> {
    "\x1b[94m"@ + s + "\x1b[0m"@
}

/// `s` between the codes that start and end bright green.
pub open spec fn green(s: Seq<char>) -> Seq<char> {
    "\x1b[92m"@ + s + "\x1b[0m"@
}

/// A path, as it stands out in a message.
pub fn highlight_path(path: &str) -> (r: String)
    ensures
        r@ == blue(path@),
{
    "\x1b[94m".to_owned().concat(path).concat("\x1b[0m")
}

/// A link, as it stands out in a message.
pub fn highlight_link(value: &str) -> (r: String)
    ensures
        r@ == green(value@),
{
    "\x1b[92m".to_owned().concat(value).concat("\x1b[0m")
}

/// An identifier, as it stands out in a message.
pub fn highlight_id(value: &str) -> (r: String)
    ensures
        r@ == green(value@),
{
    "\x1b[92m".to_owned().concat(value).concat("\x1b[0m")
}

/// What stands out is all that was given, between the code that starts a
/// colour, blue for paths and green for links and identifiers, and the code
/// that ends it.
pub proof fn law_highlights(s: &str, path: String, link: String, id: String)
    requires
        call_ensures(highlight_path, (s,), path),
        call_ensures(highlight_link, (s,), link),
        call_ensures(highlight_id, (s,), id),
    ensures
        path@ == "\x1b[94m"@ + s@ + "\x1b[0m"@,
        link@ == "\x1b[92m"@ + s@ + "\x1b[0m"@,
        id@ == link@,
{
}

} // verus!
