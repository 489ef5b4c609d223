//! The last component of a path.

use vstd::prelude::*;
use crate::text;

verus! {

/// The last of the components of a path that names something: empty ones and
/// `.` are passed over, and behind `..` there is no name.
pub open spec fn last_name(components: Seq<Seq<char>>) -> Option<Seq<char>>
    decreases components.len(),
{
    if components.len() == 0 {
        None
    } else if components.last() == ""@ || components.last() == "."@ {
        last_name(components.drop_last())
    } else if components.last() == ".."@ {
        None
    } else {
        Some(components.last())
    }
}

/// The path means the same on every platform: it holds no backslash, which
/// can be a separator, and names no drive and no host in front, as `C:` and
/// `//host` can.
pub open spec fn portable(path: Seq<char>) -> bool {
    &&& !path.contains('\\')
    &&& !names_drive(path)
    &&& !text::occurs_at(path, "//"@, 0)
}

/// The path with slashes for its backslashes.
pub open spec fn slashed(path: Seq<char>) -> Seq<char> {
    path.map_values(
        |c: char|
            if c == '\\' {
                '/'
            } else {
                c
            },
    )
}

/// The path can start with a drive, as `C:` is one.
pub open spec fn names_drive(path: Seq<char>) -> bool {
    path.len() > 1 && path[1] == ':'
}

/// The path can start with a host or a device: it starts with two slashes or
/// backslashes.
pub open spec fn names_host(path: Seq<char>) -> bool {
    text::occurs_at(slashed(path), "//"@, 0)
}

/// The name is the last one of the path by the rule of some platform: slashes
/// separate, or backslashes do as well and a drive in front does not count.
/// Behind a host or a device there can be no name, or one that only
/// backslashes separate.
pub open spec fn is_platform_name(path: Seq<char>, name: Option<Seq<char>>) -> bool {
    ||| name == last_name(text::split(path, '/'))
    ||| name == last_name(text::split(slashed(path), '/'))
    ||| names_drive(path) && name == last_name(text::split(slashed(path.skip(2)), '/'))
    ||| names_host(path) && (name is None || name == last_name(text::split(path, '\\')))
}

/// What holds of the name at the end of a path. Of a portable path it is the
/// last name between slashes, and of another the last by the rule of some
/// platform. Of every path it is a stretch of it, neither empty nor `.` nor
/// `..`, and it holds no slash but in a path that starts with `\\?\`, which
/// on some platforms turns separators off.
pub open spec fn is_base_name(path: Seq<char>, name: Option<Seq<char>>) -> bool {
    &&& portable(path) ==> name == last_name(text::split(path, '/'))
    &&& is_platform_name(path, name)
    &&& name matches Some(n) ==> {
        &&& n.len() > 0 && n != "."@ && n != ".."@
        &&& exists|i: int| text::occurs_at(path, n, i)
        &&& !text::occurs_at(path, "\\\\?\\"@, 0) ==> !n.contains('/')
    }
}

/// `std::path::Path::file_name` gives the last component of a path, if it is
/// a name: a slash at the end, repeated slashes and `.` do not count, and
/// there is none where the path ends in `..` or is a root. Slashes
/// separate components on Unix, and slashes and backslashes on Windows, where
/// a drive, a host or a device in front is no name. Which of the two rules
/// holds depends on the platform and is not stated.
#[verifier::external_body]
pub(crate) fn base_name(path: &str) -> (r: Option<String>)
    ensures
        is_base_name(path@, text::chars_if_any(r)),
{
    std::path::Path::new(path).file_name().map(|name| name.to_string_lossy().into_owned())
}

/// A name among components is one of them, and neither empty nor `.` nor
/// `..`.
proof fn lemma_last_name(components: Seq<Seq<char>>)
    ensures
        last_name(components) matches Some(n) ==> components.contains(n) && n != ""@ && n != "."@
            && n != ".."@,
    decreases components.len(),
{
    if components.len() > 0 && (components.last() == ""@ || components.last() == "."@) {
        lemma_last_name(components.drop_last());
        if let Some(n) = last_name(components) {
            let k = choose|k: int|
                0 <= k < components.len() - 1 && components.drop_last()[k] == n;
            assert(components[k] == n);
        }
    } else if components.len() > 0 {
        assert(components[components.len() - 1] == components.last());
    }
}

/// The last name between the slashes of a portable path, or none where there
/// is no such name, is its base name.
pub proof fn law_portable_base_name(path: Seq<char>)
    requires
        portable(path),
    ensures
        is_base_name(path, last_name(text::split(path, '/'))),
{
    let components = text::split(path, '/');
    lemma_last_name(components);
    if let Some(n) = last_name(components) {
        let k = choose|k: int| 0 <= k < components.len() && components[k] == n;
        text::lemma_split_part(path, '/', k);
        reveal_strlit("");
        assert(n.len() > 0) by {
            if n.len() == 0 {
                assert(n =~= ""@);
            }
        }
    }
}

/// The last name does not change with empty components behind it.
proof fn lemma_empty_components(components: Seq<Seq<char>>, n: nat)
    ensures
        last_name(components + Seq::new(n, |i: int| Seq::<char>::empty())) == last_name(components),
    decreases n,
{
    reveal_strlit("");
    let empty = Seq::new(n, |i: int| Seq::<char>::empty());
    let all = components + empty;
    if n == 0 {
        assert(all =~= components);
    } else {
        assert(all.last() =~= ""@);
        let fewer = Seq::new((n - 1) as nat, |i: int| Seq::<char>::empty());
        assert(all.drop_last() =~= components + fewer);
        lemma_empty_components(components, (n - 1) as nat);
    }
}

/// Slashes alone have only empty components.
proof fn lemma_split_slashes(slashes: Seq<char>)
    requires
        text::all_are(slashes, '/'),
    ensures
        text::split(slashes, '/') == Seq::new(
            slashes.len() + 1,
            |i: int| Seq::<char>::empty(),
        ),
    decreases slashes.len(),
{
    let class = text::CharClass::AllBut('/');
    let none = Seq::<char>::empty();
    if slashes.len() == 0 {
        assert(slashes =~= none);
        text::law_splitting_one_part(slashes, '/');
        assert(seq![slashes] =~= Seq::new(1, |i: int| Seq::<char>::empty()));
    } else {
        let rest = slashes.skip(1);
        lemma_split_slashes(rest);
        assert(slashes =~= none + seq!['/'] + rest);
        text::law_splitting_a_join(none, '/', rest);
        text::law_splitting_one_part(none, '/');
        assert(seq![none] + text::split(rest, '/') =~= Seq::new(
            slashes.len() + 1,
            |i: int| Seq::<char>::empty(),
        ));
    }
}

/// The name at the end of a portable path is all that stands behind the last
/// slash, where slashes at the end do not count; there is none where that is
/// `..`.
pub proof fn law_name_behind_the_last_slash(
    path: Seq<char>,
    r: Option<Seq<char>>,
    directory: Seq<char>,
    name: Seq<char>,
    slashes: Seq<char>,
)
    requires
        portable(path),
        is_base_name(path, r),
        path == directory + name + slashes,
        directory.len() > 0 ==> directory.last() == '/',
        name.len() > 0,
        !name.contains('/'),
        name != "."@,
        text::all_are(slashes, '/'),
    ensures
        name == ".."@ ==> r is None,
        name != ".."@ ==> r == Some(name),
{
    reveal_strlit("");
    assert(name != ""@);
    text::law_splitting_one_part(name, '/');
    let tail = name + slashes;
    let tail_parts = text::split(tail, '/');
    if slashes.len() > 0 {
        let rest = slashes.skip(1);
        lemma_split_slashes(rest);
        assert(tail =~= name + seq!['/'] + rest);
        text::law_splitting_a_join(name, '/', rest);
        assert(tail_parts =~= seq![name] + Seq::new(
            slashes.len(),
            |i: int| Seq::<char>::empty(),
        ));
    } else {
        assert(tail =~= name);
        assert(tail_parts =~= seq![name] + Seq::new(0, |i: int| Seq::<char>::empty()));
    }
    let front = if directory.len() > 0 {
        let inner = directory.drop_last();
        assert(path =~= inner + seq!['/'] + tail);
        text::law_splitting_a_join(inner, '/', tail);
        text::split(inner, '/')
    } else {
        assert(path =~= tail);
        Seq::<Seq<char>>::empty()
    };
    let named = front.push(name);
    let empty = Seq::new(slashes.len(), |i: int| Seq::<char>::empty());
    assert(text::split(path, '/') =~= named + empty);
    lemma_empty_components(named, slashes.len());
    assert(named.last() == name);
}

} // verus!
