//! Which server is asked.

use vstd::prelude::*;
use crate::text;
use crate::text::CharClass;

verus! {

/// The server that is asked where no other is named.
pub const DEFAULT_SERVER: &'static str = "https://send.withcapsule.dev";

/// The file that holds the saved address.
pub const FILE: &'static str = "server.txt";

/// The server for a command: the one named with it; without one, the saved
/// address, if it is not blank; without that, the usual server.
pub open spec fn server(named: Option<Seq<char>>, saved: Option<Seq<char>>) -> Seq<char> {
    match (named, saved) {
        (Some(named), _) => named,
        (None, Some(saved)) => {
            let address = text::trim(saved, CharClass::White);
            if address.len() > 0 {
                address
            } else {
                DEFAULT_SERVER@
            }
        },
        (None, None) => DEFAULT_SERVER@,
    }
}

/// The server that a command asks.
pub fn choose_server(named: Option<String>, saved: Option<String>) -> (r: String)
    ensures
        r@ == server(text::chars_if_any(named), text::chars_if_any(saved)),
{
    if let Some(named) = named {
        return named;
    }
    if let Some(saved) = saved {
        let chars = text::chars_of(saved.as_str());
        assert(chars@.skip(0) =~= chars@);
        let address = text::trimmed(&chars, 0, CharClass::White);
        if !address.as_str().is_empty() {
            return address;
        }
    }
    DEFAULT_SERVER.to_owned()
}

/// What the addresses on a server start with: its address without slashes at
/// the end.
pub open spec fn base(server: Seq<char>) -> Seq<char> {
    text::trim_end(server, CharClass::Only('/'))
}

/// What the addresses on a server start with.
pub fn base_of(server: &str) -> (r: String)
    ensures
        r@ == base(server@),
{
    text::trimmed_end(server, CharClass::Only('/'))
}

/// A base does not end in a slash, and it is the server's address but for
/// slashes at the end.
pub proof fn law_base_ends_in_no_slash(server: Seq<char>)
    ensures
        base(server).len() > 0 ==> base(server).last() != '/',
        base(server).len() <= server.len(),
        base(server) == server.take(base(server).len() as int),
        forall|i: int| base(server).len() <= i < server.len() ==> #[trigger] server[i] == '/',
{
    text::lemma_trail_is(server, CharClass::Only('/'));
    assert forall|i: int| base(server).len() <= i < server.len() implies #[trigger] server[i]
        == '/' by {
        assert(CharClass::Only('/').holds(server[i]));
    }
}

/// A server that is named with the command is asked, whatever was saved.
pub proof fn law_named_server_is_asked(named: String, saved: Option<String>, r: String)
    requires
        call_ensures(choose_server, (Some(named), saved), r),
    ensures
        r@ == named@,
{
}

/// Where none is named, the saved address is asked, without the white space
/// round it; where that is blank, or none is saved, the usual server is.
pub proof fn law_saved_server_is_asked(
    saved: Option<String>,
    r: String,
    white: Seq<char>,
    address: Seq<char>,
    more_white: Seq<char>,
)
    requires
        call_ensures(choose_server, (None, saved), r),
        saved matches Some(s) ==> s@ == white + address + more_white,
        text::all_white(white),
        text::all_white(more_white),
        address.len() > 0 ==> !text::white_space(address[0]) && !text::white_space(address.last()),
    ensures
        saved is Some && address.len() > 0 ==> r@ == address,
        saved is None || address.len() == 0 ==> r@ == "https://send.withcapsule.dev"@,
{
    text::law_trimming(white, address, more_white, CharClass::White);
}

/// The base of a server is its address, whole, without the slashes at its
/// end.
pub proof fn law_base_is_the_address(server: &str, r: String, base: Seq<char>, slashes: Seq<char>)
    requires
        call_ensures(base_of, (server,), r),
        server@ == base + slashes,
        text::all_are(slashes, '/'),
        base.len() > 0 ==> base.last() != '/',
    ensures
        r@ == base,
{
    let class = CharClass::Only('/');
    assert forall|i: int| server@.len() - slashes.len() <= i < server@.len() implies class.holds(
        #[trigger] server@[i],
    ) by {
        assert(server@[i] == slashes[i - base.len()]);
    }
    text::lemma_trail(server@, class, slashes.len());
    assert(server@.take(base.len() as int) =~= base);
}

} // verus!
