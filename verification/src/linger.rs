//! The user's advisory linger state: whether a marker says their manager outlives a logout.
use vstd::prelude::*;

use crate::codes::Linger;
use crate::text::{chars_of, copy_text, same};

verus! {

/// What looking for a user's marker came back with.
#[derive(Debug, Clone, Copy, PartialEq, Eq, Structural)]
pub enum Marker {
    /// It is there.
    Present,
    /// It is not, or not even its directory is, which is created lazily.
    Missing,
    /// It could not be looked for.
    Unreadable,
}

/// Classifies one user's marker.
pub fn state_of(marker: Marker) -> (r: Linger)
    ensures
        r == match marker {
            Marker::Present => Linger::Enabled,
            Marker::Missing => Linger::Disabled,
            Marker::Unreadable => Linger::Unknown,
        },
{
    match marker {
        Marker::Present => Linger::Enabled,
        Marker::Missing => Linger::Disabled,
        Marker::Unreadable => Linger::Unknown,
    }
}

/// A name that is a single component of a path, and so asks about nothing but the marker of
/// that name.
pub open spec fn is_component(name: Seq<char>) -> bool {
    &&& name.len() > 0
    &&& !name.contains('/')
    &&& !name.contains('\0')
    &&& name != "."@
    &&& name != ".."@
}

/// Whether a name is a single component of a path.
fn component(name: &str) -> (r: bool)
    ensures
        r == is_component(name@),
{
    let chars: Vec<char> = chars_of(name);
    if chars.len() == 0 || same(name, ".") || same(name, "..") {
        return false;
    }
    let mut i: usize = 0;
    while i < chars.len()
        invariant
            chars@ == name@,
            i <= chars@.len(),
            forall|k: int| 0 <= k < i ==> chars@[k] != '/' && chars@[k] != '\0',
        decreases chars@.len() - i,
    {
        if chars[i] == '/' {
            assert(name@[i as int] == '/');
            return false;
        }
        if chars[i] == '\0' {
            assert(name@[i as int] == '\0');
            return false;
        }
        i += 1;
    }
    true
}

/// The text in an option of one.
pub open spec fn in_option(text: Option<&str>) -> Option<Seq<char>> {
    match text {
        Some(text) => Some(text@),
        None => None,
    }
}

/// The login name of `USER` or else of `LOGNAME`: the first that is a single component.
/// Asked of each in turn rather than of the answer, so one that is none falls through.
pub open spec fn login_name(user: Option<Seq<char>>, logname: Option<Seq<char>>) -> Option<
    Seq<char>,
> {
    if user is Some && is_component(user->0) {
        user
    } else if logname is Some && is_component(logname->0) {
        logname
    } else {
        None
    }
}

/// The login name, used as the name of a marker.
pub fn username(user: Option<&str>, logname: Option<&str>) -> (r: Option<String>)
    ensures
        match login_name(in_option(user), in_option(logname)) {
            Some(name) => r matches Some(found) && found@ == name,
            None => r is None,
        },
{
    if let Some(name) = user {
        if component(name) {
            return Some(copy_text(name));
        }
    }
    if let Some(name) = logname {
        if component(name) {
            return Some(copy_text(name));
        }
    }
    None
}

/// What is reported of a user's linger state.
pub open spec fn detected(systemd: bool, marker: Option<Marker>) -> Linger {
    match (systemd, marker) {
        (true, Some(Marker::Present)) => Linger::Enabled,
        (true, Some(Marker::Missing)) => Linger::Disabled,
        _ => Linger::Unknown,
    }
}

/// Reports whether the marker is present, `systemd` being whether that is the running init
/// and `marker` what looking for the user's came back with, where there is a user to look
/// for. Where either is missing, nothing can be said.
pub fn detect(systemd: bool, marker: Option<Marker>) -> (r: Linger)
    ensures
        r == detected(systemd, marker),
        r == if systemd && marker == Some(Marker::Present) {
            Linger::Enabled
        } else if systemd && marker == Some(Marker::Missing) {
            Linger::Disabled
        } else {
            Linger::Unknown
        },
{
    if !systemd {
        return Linger::Unknown;
    }
    match marker {
        Some(marker) => state_of(marker),
        None => Linger::Unknown,
    }
}

// ---------------------------------------------------------------------------
// Laws
// ---------------------------------------------------------------------------

/// Lingering is on where the marker is there and off where it is not, and neither is said
/// where nobody could look, there was nobody to look for, or another init runs.
pub proof fn lingering_is_said_only_where_it_is_known(marker: Marker, systemd: bool)
    ensures
        detected(true, Some(Marker::Present)) == Linger::Enabled,
        detected(true, Some(Marker::Missing)) == Linger::Disabled,
        detected(true, Some(Marker::Unreadable)) == Linger::Unknown,
        detected(false, Some(marker)) == Linger::Unknown,
        detected(systemd, None) == Linger::Unknown,
{
}

/// The marker that is looked for is named after the user, by the first of the two names that
/// is one component of a path; a name that would lead anywhere else is never used.
pub proof fn a_marker_is_named_after_the_user(user: Seq<char>, logname: Seq<char>)
    ensures
        ({
            let plain = |name: Seq<char>|
                name.len() > 0 && (forall|i: int|
                    0 <= i < name.len() ==> (#[trigger] name[i]) != '/' && name[i] != '\0') && name
                    != "."@ && name != ".."@;
            &&& plain(user) ==> login_name(Some(user), Some(logname)) == Some(user)
            &&& plain(user) ==> login_name(Some(user), None) == Some(user)
            &&& !plain(user) && plain(logname) ==> login_name(Some(user), Some(logname)) == Some(
                logname,
            )
            &&& plain(logname) ==> login_name(None, Some(logname)) == Some(logname)
            &&& !plain(user) && !plain(logname) ==> login_name(Some(user), Some(logname)) is None
            &&& login_name(None, None) is None
        }),
{
    lemma_component(user);
    lemma_component(logname);
}

/// A component holds no separator and no NUL.
proof fn lemma_component(name: Seq<char>)
    ensures
        is_component(name) <==> (name.len() > 0 && (forall|i: int|
            0 <= i < name.len() ==> (#[trigger] name[i]) != '/' && name[i] != '\0') && name != "."@
            && name != ".."@),
{
    if name.contains('/') {
        let i = choose|i: int| 0 <= i < name.len() && name[i] == '/';
        assert(name[i] == '/');
    }
    if name.contains('\0') {
        let i = choose|i: int| 0 <= i < name.len() && name[i] == '\0';
        assert(name[i] == '\0');
    }
    if !name.contains('/') && !name.contains('\0') {
        assert forall|i: int| 0 <= i < name.len() implies (#[trigger] name[i]) != '/' && name[i]
            != '\0' by {
            assert(name.contains(name[i]));
        }
    }
}

} // verus!
