//! Run-directory layout: what the files of a session are called, which names belong to
//! which session, and when a directory may be trusted to hold them.
//!
//! The layout is frozen: listing and removing sessions go by it alone, never by the session
//! protocol, so any build can manage a daemon of any version. Paths are bytes.
use vstd::prelude::*;
use vstd::utf8::{decode_utf8, encode_utf8, valid_utf8};

use crate::fields::{
    copy_bytes, find, first_at, lemma_first_at, lemma_first_behind, lemma_rows_push, rows,
};
use crate::sanitize::{label_of, sanitize_label};
use crate::text::{
    chars_of, copy_text, decimal, decoded_chars, digits, integer, is_digit,
    lemma_digits_spell, lemma_encode_concat, lemma_precedes_irreflexive, lemma_precedes_total,
    lemma_precedes_transitive, lemma_trim_behind, lossy, lossy_text, numbers_read_back,
    parse_i32, precedes, put, quoted, quoted_text, same, same_bytes, signed_digits,
    signed_numbers_read_back, stands_before, text_of, trim, trimmed, wide_decimal,
};
use crate::trouble::{Kind, Trouble, TroubleModel};

verus! {

/// Permissions for the run directory: owner-only.
pub const DIR_MODE: u32 = 0o700;

/// Permissions for every socket inside it.
pub const SOCKET_MODE: u32 = 0o600;

/// Permissions for the pidfile, the label and the spawn lock.
pub const FILE_MODE: u32 = 0o600;

/// Longest pidfile body anything reads.
pub const MAX_PID_LEN: usize = 32;

/// Longest session id, in bytes.
pub const MAX_SESSION_ID_LEN: usize = 64;

/// Longest path a unix socket can be bound at.
pub const SUN_PATH_MAX: usize = 107;

/// How many times an acquirer takes the lock before giving up: the first attempt and one
/// more, for finding that the file it locked is no longer the file at the path.
pub const LOCK_ATTEMPTS: usize = 2;

// ---------------------------------------------------------------------------
// Modes
// ---------------------------------------------------------------------------

/// A mode that is a regular file's: the type is in four bits of its own.
pub open spec fn is_regular(mode: u32) -> bool {
    mode & 0o170000 == 0o100000
}

/// Whether a mode is a regular file's.
///
/// Rests on [`rustix::fs::FileType::from_raw_mode`]: it reads the type from the four type
/// bits of a mode and from nothing else, and a regular file's is the one stated here.
#[verifier::external_body]
pub(crate) fn regular(mode: u32) -> (r: bool)
    ensures
        r == is_regular(mode),
{
    rustix::fs::FileType::from_raw_mode(mode) == rustix::fs::FileType::RegularFile
}

/// The permission bits of a mode.
///
/// Rests on [`rustix::fs::Mode::from_raw_mode`]: it keeps every bit of a mode but the four
/// type bits.
#[verifier::external_body]
pub(crate) fn permissions(mode: u32) -> (r: u32)
    ensures
        r == mode & !0o170000u32,
{
    rustix::fs::Mode::from_raw_mode(mode).bits()
}

/// Whether a run file may be read: only a regular file has an end a read can reach.
pub fn readable_body(mode: u32) -> (r: Result<(), Trouble>)
    ensures
        if is_regular(mode) {
            r is Ok
        } else {
            r matches Err(e) && e@ == (TroubleModel {
                kind: Kind::InvalidData,
                message: "it is not a regular file, so a read of it is a prefix rather than a body"@,
            })
        },
{
    if regular(mode) {
        Ok(())
    } else {
        Err(
            Trouble {
                kind: Kind::InvalidData,
                message: copy_text(
                    "it is not a regular file, so a read of it is a prefix rather than a body",
                ),
            },
        )
    }
}

// ---------------------------------------------------------------------------
// Session ids
// ---------------------------------------------------------------------------

/// A character a session id may hold.
pub open spec fn is_id_char(c: char) -> bool {
    ||| 'a' <= c && c <= 'z'
    ||| 'A' <= c && c <= 'Z'
    ||| '0' <= c && c <= '9'
    ||| c == '-'
    ||| c == '_'
}

/// A usable session id: one to [`MAX_SESSION_ID_LEN`] characters of `[A-Za-z0-9_-]`, each
/// of them one byte, not beginning with `-`.
pub open spec fn is_id(id: Seq<char>) -> bool {
    &&& 1 <= id.len() <= MAX_SESSION_ID_LEN
    &&& id[0] != '-'
    &&& forall|i: int| 0 <= i < id.len() ==> is_id_char(#[trigger] id[i])
}

/// Returns whether `id` is usable as a session id. Never sanitised into something valid:
/// rewriting an id would silently attach the user to the wrong session.
pub fn is_valid_session_id(id: &str) -> (r: bool)
    ensures
        r == is_id(id@),
{
    let chars: Vec<char> = chars_of(id);
    if chars.len() == 0 || chars.len() > MAX_SESSION_ID_LEN || chars[0] == '-' {
        return false;
    }
    let mut i: usize = 0;
    while i < chars.len()
        invariant
            chars@ == id@,
            i <= chars@.len(),
            forall|k: int| 0 <= k < i ==> is_id_char(#[trigger] chars@[k]),
        decreases chars@.len() - i,
    {
        let c: char = chars[i];
        if !(('a' <= c && c <= 'z') || ('A' <= c && c <= 'Z') || ('0' <= c && c <= '9') || c == '-'
            || c == '_') {
            assert(!is_id_char(id@[i as int]));
            return false;
        }
        i += 1;
    }
    true
}

// ---------------------------------------------------------------------------
// Names in the run directory
// ---------------------------------------------------------------------------

/// A name split into session id and extension: the id is what precedes the *first* `.`,
/// and a name with no `.`, or whose id is no text, is nobody's.
pub open spec fn run_name(name: Seq<u8>) -> Option<(Seq<char>, Seq<u8>)> {
    let dot = first_at(name, 0x2e) as int;
    if dot >= name.len() || !valid_utf8(name.take(dot)) {
        None
    } else {
        Some((decode_utf8(name.take(dot)), name.skip(dot + 1)))
    }
}

/// The session a name belongs to, if it belongs to one.
pub open spec fn session_of(name: Seq<u8>) -> Option<Seq<char>> {
    match run_name(name) {
        Some((id, _)) => if is_id(id) {
            Some(id)
        } else {
            None
        },
        None => None,
    }
}

/// A run-directory name split into session id and extension. The one rule by which anything
/// here reads a file name.
pub fn split_run_name(name: &[u8]) -> (r: Option<(String, &[u8])>)
    ensures
        match run_name(name@) {
            Some((id, extension)) => r matches Some((found, rest)) && found@ == id && rest@
                == extension,
            None => r is None,
        },
{
    let dot: usize = find(name, 0x2e);
    if dot == name.len() {
        return None;
    }
    let head: &[u8] = vstd::slice::slice_subrange(name, 0, dot);
    let extension: &[u8] = vstd::slice::slice_subrange(name, dot + 1, name.len());
    assert(head@ =~= name@.take(dot as int));
    assert(extension@ =~= name@.skip(dot + 1));
    match decoded_chars(head) {
        Some(chars) => Some((text_of(chars.as_slice()), extension)),
        None => None,
    }
}

/// The session a name in the run directory belongs to, if it belongs to one. Validated
/// before it is handed back: these bytes came out of a directory, and every caller derives
/// a path, a probe or a signal from them.
pub fn session_id_of(name: &[u8]) -> (r: Option<String>)
    ensures
        match session_of(name@) {
            Some(id) => r matches Some(found) && found@ == id,
            None => r is None,
        },
{
    match split_run_name(name) {
        Some((id, _)) => if is_valid_session_id(id.as_str()) {
            Some(id)
        } else {
            None
        },
        None => None,
    }
}

/// Where the last component of a path begins.
pub open spec fn name_start(path: Seq<u8>) -> nat
    decreases path.len(),
{
    if path.len() == 0 || path.last() == 0x2f {
        path.len()
    } else {
        name_start(path.drop_last())
    }
}

/// The last component of the path of a directory entry.
pub fn file_name(path: &[u8]) -> (r: &[u8])
    ensures
        name_start(path@) <= path@.len(),
        r@ == path@.skip(name_start(path@) as int),
{
    let mut i: usize = path.len();
    assert(path@.take(i as int) =~= path@);
    while i > 0 && path[i - 1] != 0x2f
        invariant
            i <= path@.len(),
            name_start(path@) == name_start(path@.take(i as int)),
        decreases i,
    {
        assert(path@.take(i as int).last() == path@[i - 1]);
        assert(path@.take(i as int).drop_last() =~= path@.take(i - 1));
        i -= 1;
    }
    proof {
        if i > 0 {
            assert(path@.take(i as int).last() == path@[i - 1]);
        }
    }
    let r: &[u8] = vstd::slice::slice_subrange(path, i, path.len());
    assert(r@ =~= path@.skip(i as int));
    r
}

/// The texts of several names.
pub open spec fn texts(ids: Seq<String>) -> Seq<Seq<char>> {
    Seq::new(ids.len(), |i: int| ids[i]@)
}

/// In order, and none twice.
pub open spec fn ascending(ids: Seq<Seq<char>>) -> bool {
    forall|i: int, j: int| 0 <= i < j < ids.len() ==> precedes(#[trigger] ids[i], #[trigger] ids[j])
}

/// Some name of the first `n` belongs to session `id`.
pub open spec fn named_within(names: Seq<Vec<u8>>, n: int, id: Seq<char>) -> bool {
    exists|i: int| 0 <= i < n && session_of(#[trigger] names[i]@) == Some(id)
}

/// `ids` in order, and exactly those some name of the first `n` belongs to.
pub open spec fn lists(ids: Seq<Seq<char>>, names: Seq<Vec<u8>>, n: int) -> bool {
    &&& ascending(ids)
    &&& forall|id: Seq<char>| #[trigger] ids.contains(id) <==> named_within(names, n, id)
}

/// One more name, of no session.
proof fn lemma_lists_none(ids: Seq<Seq<char>>, names: Seq<Vec<u8>>, n: int)
    requires
        0 <= n < names.len(),
        lists(ids, names, n),
        session_of(names[n]@) is None,
    ensures
        lists(ids, names, n + 1),
{
    assert forall|id: Seq<char>| #[trigger] ids.contains(id) <==> named_within(
        names,
        n + 1,
        id,
    ) by {
        if named_within(names, n + 1, id) {
            let i = choose|i: int| 0 <= i < n + 1 && session_of(#[trigger] names[i]@) == Some(id);
            assert(i < n);
            assert(named_within(names, n, id));
        }
        if named_within(names, n, id) {
            let i = choose|i: int| 0 <= i < n && session_of(#[trigger] names[i]@) == Some(id);
            assert(0 <= i < n + 1 && session_of(names[i]@) == Some(id));
        }
    }
}

/// One more name, of a session already listed.
proof fn lemma_lists_known(ids: Seq<Seq<char>>, names: Seq<Vec<u8>>, n: int, at: int)
    requires
        0 <= n < names.len(),
        lists(ids, names, n),
        0 <= at < ids.len(),
        session_of(names[n]@) == Some(ids[at]),
    ensures
        lists(ids, names, n + 1),
{
    assert forall|id: Seq<char>| #[trigger] ids.contains(id) <==> named_within(
        names,
        n + 1,
        id,
    ) by {
        if named_within(names, n + 1, id) {
            let i = choose|i: int| 0 <= i < n + 1 && session_of(#[trigger] names[i]@) == Some(id);
            if i < n {
                assert(named_within(names, n, id));
            } else {
                assert(ids[at] == id);
            }
        }
        if named_within(names, n, id) {
            let i = choose|i: int| 0 <= i < n && session_of(#[trigger] names[i]@) == Some(id);
            assert(0 <= i < n + 1 && session_of(names[i]@) == Some(id));
        }
    }
}

/// One more name, of a session not listed yet, put in its place.
proof fn lemma_lists_new(
    ids: Seq<Seq<char>>,
    names: Seq<Vec<u8>>,
    n: int,
    at: int,
    new: Seq<char>,
)
    requires
        0 <= n < names.len(),
        lists(ids, names, n),
        0 <= at <= ids.len(),
        session_of(names[n]@) == Some(new),
        forall|k: int| 0 <= k < at ==> precedes(#[trigger] ids[k], new),
        at < ids.len() ==> precedes(new, ids[at]),
    ensures
        lists(ids.insert(at, new), names, n + 1),
{
    let longer = ids.insert(at, new);
    assert forall|i: int, j: int| 0 <= i < j < longer.len() implies precedes(
        #[trigger] longer[i],
        #[trigger] longer[j],
    ) by {
        if i == at {
            if j - 1 > at {
                lemma_precedes_transitive(new, ids[at], ids[j - 1]);
            }
        } else if j == at {
        } else {
            let a = if i < at {
                i
            } else {
                i - 1
            };
            let b = if j < at {
                j
            } else {
                j - 1
            };
            assert(longer[i] == ids[a] && longer[j] == ids[b]);
        }
    }
    assert forall|id: Seq<char>| #[trigger] longer.contains(id) <==> named_within(
        names,
        n + 1,
        id,
    ) by {
        if longer.contains(id) {
            let k = choose|k: int| 0 <= k < longer.len() && longer[k] == id;
            if k == at {
                assert(session_of(names[n]@) == Some(id));
            } else {
                let a = if k < at {
                    k
                } else {
                    k - 1
                };
                assert(ids[a] == id);
                assert(ids.contains(id));
                let i = choose|i: int| 0 <= i < n && session_of(#[trigger] names[i]@) == Some(id);
                assert(0 <= i < n + 1 && session_of(names[i]@) == Some(id));
            }
        }
        if named_within(names, n + 1, id) {
            let i = choose|i: int| 0 <= i < n + 1 && session_of(#[trigger] names[i]@) == Some(id);
            if i < n {
                assert(named_within(names, n, id));
                assert(ids.contains(id));
                let a = choose|a: int| 0 <= a < ids.len() && ids[a] == id;
                let k = if a < at {
                    a
                } else {
                    a + 1
                };
                assert(longer[k] == id);
            } else {
                assert(longer[at] == id);
            }
        }
    }
}

/// Every distinct session id the names of a run directory hold — one entry per session, not
/// per file — in order.
pub fn session_ids(names: &[Vec<u8>]) -> (r: Vec<String>)
    ensures
        lists(texts(r@), names@, names@.len() as int),
{
    let mut ids: Vec<String> = Vec::new();
    let mut n: usize = 0;
    assert(texts(ids@) =~= Seq::empty());
    while n < names.len()
        invariant
            n <= names@.len(),
            lists(texts(ids@), names@, n as int),
        decreases names@.len() - n,
    {
        match session_id_of(names[n].as_slice()) {
            None => {
                proof {
                    lemma_lists_none(texts(ids@), names@, n as int);
                }
            },
            Some(id) => {
                let mut at: usize = 0;
                while at < ids.len() && stands_before(ids[at].as_str(), id.as_str())
                    invariant
                        at <= ids@.len(),
                        forall|k: int| 0 <= k < at ==> precedes(#[trigger] texts(ids@)[k], id@),
                    decreases ids@.len() - at,
                {
                    at += 1;
                }
                if at < ids.len() && same(ids[at].as_str(), id.as_str()) {
                    proof {
                        lemma_lists_known(texts(ids@), names@, n as int, at as int);
                    }
                } else {
                    proof {
                        if at < ids@.len() {
                            lemma_precedes_total(id@, texts(ids@)[at as int]);
                        }
                        lemma_lists_new(texts(ids@), names@, n as int, at as int, id@);
                        assert(texts(ids@.insert(at as int, id)) =~= texts(ids@).insert(
                            at as int,
                            id@,
                        ));
                    }
                    ids.insert(at, id);
                }
            },
        }
        n += 1;
    }
    ids
}

// ---------------------------------------------------------------------------
// Paths
// ---------------------------------------------------------------------------

/// `name` below `dir`.
pub open spec fn below(dir: Seq<u8>, name: Seq<u8>) -> Seq<u8> {
    if dir.len() == 0 || dir.last() == 0x2f {
        dir + name
    } else {
        dir.push(0x2f) + name
    }
}

/// `name` below `dir`.
pub fn join(dir: &[u8], name: &[u8]) -> (r: Vec<u8>)
    ensures
        r@ == below(dir@, name@),
{
    let mut path: Vec<u8> = Vec::new();
    path.extend_from_slice(dir);
    assert(path@ =~= dir@);
    if dir.len() > 0 && dir[dir.len() - 1] != 0x2f {
        path.push(0x2f);
    }
    path.extend_from_slice(name);
    assert(path@ =~= below(dir@, name@));
    path
}

/// A directory taken from the environment, but only where it is absolute.
pub open spec fn absolute(value: Option<Seq<u8>>) -> bool {
    value matches Some(path) && path.len() > 0 && path[0] == 0x2f
}

/// The bytes in an option of them.
pub open spec fn bytes_in(value: Option<&[u8]>) -> Option<Seq<u8>> {
    match value {
        Some(bytes) => Some(bytes@),
        None => None,
    }
}

/// Whether an environment value names an absolute path.
fn is_absolute(value: Option<&[u8]>) -> (r: bool)
    ensures
        r == absolute(bytes_in(value)),
{
    match value {
        Some(path) => path.len() > 0 && path[0] == 0x2f,
        None => false,
    }
}

/// What is said where no run directory can be resolved.
pub open spec fn nowhere() -> TroubleModel {
    TroubleModel {
        kind: Kind::Other,
        message: "none of XDG_STATE_HOME, HOME or XDG_RUNTIME_DIR names an absolute path"@,
    }
}

/// The run directory the environment asks for: persistent per-user state where there is
/// any, and the runtime directory only as a last resort, which a logout empties.
pub open spec fn run_dir_of(
    state_home: Option<Seq<u8>>,
    home: Option<Seq<u8>>,
    runtime_dir: Option<Seq<u8>>,
) -> Option<Seq<u8>> {
    if absolute(state_home) {
        Some(below(state_home->0, encode_utf8("nomux/run"@)))
    } else if absolute(home) {
        Some(below(below(home->0, encode_utf8(".local/state"@)), encode_utf8("nomux/run"@)))
    } else if absolute(runtime_dir) {
        Some(below(runtime_dir->0, encode_utf8("nomux"@)))
    } else {
        None
    }
}

/// Resolves the run directory from `XDG_STATE_HOME`, `HOME` and `XDG_RUNTIME_DIR`, in that
/// order. A value that is not an absolute path counts as none.
pub fn run_dir(
    state_home: Option<&[u8]>,
    home: Option<&[u8]>,
    runtime_dir: Option<&[u8]>,
) -> (r: Result<Vec<u8>, Trouble>)
    ensures
        match run_dir_of(bytes_in(state_home), bytes_in(home), bytes_in(runtime_dir)) {
            Some(dir) => r matches Ok(found) && found@ == dir,
            None => r matches Err(e) && e@ == nowhere(),
        },
{
    if is_absolute(state_home) {
        if let Some(state) = state_home {
            return Ok(join(state, "nomux/run".as_bytes()));
        }
    }
    if is_absolute(home) {
        if let Some(home) = home {
            let state: Vec<u8> = join(home, ".local/state".as_bytes());
            return Ok(join(state.as_slice(), "nomux/run".as_bytes()));
        }
    }
    if is_absolute(runtime_dir) {
        if let Some(runtime) = runtime_dir {
            return Ok(join(runtime, "nomux".as_bytes()));
        }
    }
    Err(
        Trouble {
            kind: Kind::Other,
            message: copy_text(
                "none of XDG_STATE_HOME, HOME or XDG_RUNTIME_DIR names an absolute path",
            ),
        },
    )
}

/// The five names the layout freezes for one session, and the id that finds whatever else
/// it has.
#[derive(Debug)]
pub struct SessionPaths {
    dir: Vec<u8>,
    id: String,
}

/// What a [`SessionPaths`] holds.
#[verifier::ext_equal]
pub struct PathsModel {
    pub dir: Seq<u8>,
    pub id: Seq<char>,
}

impl View for SessionPaths {
    type V = PathsModel;

    closed spec fn view(&self) -> PathsModel {
        PathsModel { dir: self.dir@, id: self.id@ }
    }
}

/// How long the longest socket path of a session is.
pub open spec fn longest(dir: Seq<u8>, id: Seq<char>) -> nat {
    dir.len() + 1 + id.len() + 6
}

/// What is said of an id that is none.
pub open spec fn invalid_id(id: Seq<char>) -> TroubleModel {
    TroubleModel {
        kind: Kind::InvalidInput,
        message: "invalid session id "@ + quoted(id)
            + ": expected 1..=64 bytes of [A-Za-z0-9_-], not starting with -"@,
    }
}

/// What is said of an id whose sockets could not be bound.
pub open spec fn too_long(dir: Seq<u8>, id: Seq<char>) -> TroubleModel {
    TroubleModel {
        kind: Kind::InvalidInput,
        message: "session id "@ + quoted(id) + " is too long for "@ + lossy(dir)
            + ": the run files need "@ + digits(longest(dir, id), 10)
            + " bytes of the 107 a unix socket path allows"@,
    }
}

impl PathsModel {
    /// The id is one, and every socket of the session can be bound.
    pub open spec fn wf(self) -> bool {
        is_id(self.id) && longest(self.dir, self.id) <= SUN_PATH_MAX
    }

    /// The run file with this extension.
    pub open spec fn file(self, extension: Seq<char>) -> Seq<u8> {
        below(self.dir, encode_utf8(self.id + "."@ + extension))
    }
}

impl SessionPaths {
    /// Resolves the paths for `id` in the run directory the environment asks for.
    pub fn new(
        state_home: Option<&[u8]>,
        home: Option<&[u8]>,
        runtime_dir: Option<&[u8]>,
        id: &str,
    ) -> (r: Result<SessionPaths, Trouble>)
        ensures
            match run_dir_of(bytes_in(state_home), bytes_in(home), bytes_in(runtime_dir)) {
                None => r matches Err(e) && e@ == nowhere(),
                Some(dir) => if !is_id(id@) {
                    r matches Err(e) && e@ == invalid_id(id@)
                } else if longest(dir, id@) > SUN_PATH_MAX {
                    r matches Err(e) && e@ == too_long(dir, id@)
                } else {
                    r matches Ok(paths) && paths@ == (PathsModel { dir, id: id@ }) && paths@.wf()
                },
            },
    {
        match run_dir(state_home, home, runtime_dir) {
            Ok(dir) => SessionPaths::in_dir(dir.as_slice(), id),
            Err(e) => Err(e),
        }
    }

    /// Resolves the paths for `id` in `dir`.
    ///
    /// Validated here rather than at each use, so no caller can build a path from an
    /// unchecked id, and no paths that exist can fail to build either socket address.
    pub fn in_dir(dir: &[u8], id: &str) -> (r: Result<SessionPaths, Trouble>)
        ensures
            if !is_id(id@) {
                r matches Err(e) && e@ == invalid_id(id@)
            } else if longest(dir@, id@) > SUN_PATH_MAX {
                r matches Err(e) && e@ == too_long(dir@, id@)
            } else {
                r matches Ok(paths) && paths@ == (PathsModel { dir: dir@, id: id@ }) && paths@.wf()
            },
    {
        if !is_valid_session_id(id) {
            let mut message: String = copy_text("invalid session id ");
            put(&mut message, quoted_text(id).as_str());
            put(&mut message, ": expected 1..=64 bytes of [A-Za-z0-9_-], not starting with -");
            return Err(Trouble { kind: Kind::InvalidInput, message });
        }
        let chars: Vec<char> = chars_of(id);
        let needed: u128 = dir.len() as u128 + 1 + chars.len() as u128 + 6;
        if needed > SUN_PATH_MAX as u128 {
            let mut message: String = copy_text("session id ");
            put(&mut message, quoted_text(id).as_str());
            put(&mut message, " is too long for ");
            put(&mut message, lossy_text(dir).as_str());
            put(&mut message, ": the run files need ");
            put(&mut message, wide_decimal(needed).as_str());
            put(&mut message, " bytes of the 107 a unix socket path allows");
            return Err(Trouble { kind: Kind::InvalidInput, message });
        }
        Ok(SessionPaths { dir: copy_bytes(dir), id: copy_text(id) })
    }

    /// The session id.
    pub fn id(&self) -> (r: &str)
        ensures
            r@ == self@.id,
    {
        self.id.as_str()
    }

    /// The run directory the names are in.
    pub fn dir(&self) -> (r: &[u8])
        ensures
            r@ == self@.dir,
    {
        self.dir.as_slice()
    }

    /// The run file with this extension.
    fn with_extension(&self, extension: &str) -> (r: Vec<u8>)
        ensures
            r@ == self@.file(extension@),
    {
        let mut name: String = copy_text(self.id.as_str());
        put(&mut name, ".");
        put(&mut name, extension);
        join(self.dir.as_slice(), name.as_str().as_bytes())
    }

    /// Unix socket the daemon listens on.
    pub fn socket(&self) -> (r: Vec<u8>)
        ensures
            r@ == self@.file("sock"@),
    {
        self.with_extension("sock")
    }

    /// Daemon pid, ASCII, newline-terminated.
    pub fn pid(&self) -> (r: Vec<u8>)
        ensures
            r@ == self@.file("pid"@),
    {
        self.with_extension("pid")
    }

    /// The lock serialising daemon spawn.
    pub fn lock(&self) -> (r: Vec<u8>)
        ensures
            r@ == self@.file("lock"@),
    {
        self.with_extension("lock")
    }

    /// Advisory UTF-8 display label.
    pub fn label(&self) -> (r: Vec<u8>)
        ensures
            r@ == self@.file("label"@),
    {
        self.with_extension("label")
    }

    /// `ssh-agent` socket, served for a session created with forwarding.
    pub fn agent(&self) -> (r: Vec<u8>)
        ensures
            r@ == self@.file("agent"@),
    {
        self.with_extension("agent")
    }
}

// ---------------------------------------------------------------------------
// What the files hold
// ---------------------------------------------------------------------------

/// What the label file is given, or nothing where `label` has nothing left after
/// sanitising and the file is to be removed.
pub fn label_body(label: &str) -> (r: Option<String>)
    ensures
        if label_of(label@).len() == 0 {
            r is None
        } else {
            r matches Some(body) && body@ == label_of(label@)
        },
{
    let label: String = sanitize_label(label);
    let chars: Vec<char> = chars_of(label.as_str());
    if chars.len() == 0 {
        None
    } else {
        Some(label)
    }
}

/// The label a label file holds. Bad UTF-8 is replaced rather than dropped, since a read
/// cut at the bound can split a character.
pub fn read_label(body: &[u8]) -> (r: String)
    ensures
        r@ == label_of(lossy(body@)),
{
    sanitize_label(lossy_text(body).as_str())
}

/// What the pidfile holds for `pid`.
pub open spec fn pid_body_of(pid: u32) -> Seq<char> {
    digits(pid as nat, 10).push('\n')
}

/// What the pidfile is given: the pid and a newline.
pub fn pid_body(pid: u32) -> (r: String)
    ensures
        r@ == pid_body_of(pid),
{
    let mut body: String = decimal(pid as u64);
    body.push('\n');
    body
}

/// The pid a pidfile holds, where the read saw all of it: a body short of [`MAX_PID_LEN`]
/// that ends in a newline and is a number above zero, white space around it aside.
pub open spec fn pid_in(body: Seq<u8>) -> Option<i32> {
    if body.len() >= MAX_PID_LEN || body.len() == 0 || body.last() != 0x0a || !valid_utf8(body) {
        None
    } else {
        match integer(trim(decode_utf8(body))) {
            Some(n) => if 0 < n <= i32::MAX {
                Some(n as i32)
            } else {
                None
            },
            None => None,
        }
    }
}

/// Reads a pidfile back.
///
/// Zero and negatives are refused: `kill(2)` reads those as a process group and as every
/// process the caller may signal. The newline is required, and so is a body short of
/// [`MAX_PID_LEN`]: a pidfile cut off mid-number must never parse.
pub fn parse_pid(body: &[u8]) -> (r: Option<i32>)
    ensures
        r == pid_in(body@),
{
    let len: usize = body.len();
    if len >= MAX_PID_LEN || len == 0 || body[len - 1] != 0x0a {
        return None;
    }
    match decoded_chars(body) {
        None => None,
        Some(chars) => match parse_i32(trimmed(chars.as_slice())) {
            Some(pid) => if pid > 0 {
                Some(pid)
            } else {
                None
            },
            None => None,
        },
    }
}

/// After one read into what was left of a buffer: how much is filled, and whether to go on.
pub open spec fn fills(filled: usize, len: usize, read: usize) -> (int, bool) {
    (
        if filled + read > len {
            len as int
        } else {
            filled + read
        },
        read > 0 && filled + read < len,
    )
}

/// After one read into what was left of a buffer of `len` bytes: how much of it is filled,
/// and whether to read on. A count past what was asked for counts as what was asked for.
pub fn prefix_filled(filled: usize, len: usize, read: usize) -> (r: (usize, bool))
    requires
        filled <= len,
    ensures
        (r.0 as int, r.1) == fills(filled, len, read),
        r.0 == if filled + read > len {
            len as int
        } else {
            filled + read
        },
        r.1 == (read > 0 && filled + read < len),
{
    if read == 0 {
        return (filled, false);
    }
    if read >= len - filled {
        (len, false)
    } else {
        (filled + read, true)
    }
}

// ---------------------------------------------------------------------------
// Removal
// ---------------------------------------------------------------------------

/// The extensions the five names already cover.
pub open spec fn is_named(extension: Seq<u8>) -> bool {
    ||| extension == encode_utf8("sock"@)
    ||| extension == encode_utf8("pid"@)
    ||| extension == encode_utf8("label"@)
    ||| extension == encode_utf8("agent"@)
    ||| extension == encode_utf8("lock"@)
}

/// Whether an entry of the run directory is this session's and none of its five names.
pub open spec fn is_stray(id: Seq<char>, name: Seq<u8>) -> bool {
    run_name(name) matches Some((found, extension)) && found == id && !is_named(extension)
}

/// The strays among the first `n` entries, in the order they were found.
pub open spec fn strays(paths: PathsModel, names: Seq<Vec<u8>>, n: nat) -> Seq<Seq<u8>>
    decreases n,
{
    if n == 0 {
        Seq::empty()
    } else if is_stray(paths.id, names[n - 1]@) {
        strays(paths, names, (n - 1) as nat).push(below(paths.dir, names[n - 1]@))
    } else {
        strays(paths, names, (n - 1) as nat)
    }
}

/// Everything a session has, in the order it is removed: the named files first, whatever
/// the directory says, then every other name sharing the id, and the lock last.
pub open spec fn removal_order_of(paths: PathsModel, names: Seq<Vec<u8>>) -> Seq<Seq<u8>> {
    (seq![
        paths.file("sock"@),
        paths.file("pid"@),
        paths.file("label"@),
        paths.file("agent"@),
    ] + strays(paths, names, names.len())).push(paths.file("lock"@))
}

/// Whether an extension is one of the five.
fn already(extension: &[u8]) -> (r: bool)
    ensures
        r == is_named(extension@),
{
    same_bytes(extension, "sock".as_bytes()) || same_bytes(extension, "pid".as_bytes())
        || same_bytes(extension, "label".as_bytes()) || same_bytes(extension, "agent".as_bytes())
        || same_bytes(extension, "lock".as_bytes())
}

impl SessionPaths {
    /// Everything this session has among the entries of its run directory, in the order it
    /// is to be removed.
    ///
    /// The lock last, load-bearing: removals behind it would land on a session somebody
    /// else has legitimately brought up.
    pub fn removal_order(&self, names: &[Vec<u8>]) -> (r: Vec<Vec<u8>>)
        ensures
            rows(r@) == removal_order_of(self@, names@),
    {
        let sock: Vec<u8> = self.socket();
        let pid: Vec<u8> = self.pid();
        let label: Vec<u8> = self.label();
        let agent: Vec<u8> = self.agent();
        let mut order: Vec<Vec<u8>> = Vec::new();
        let ghost named = seq![sock@, pid@, label@, agent@];
        order.push(sock);
        order.push(pid);
        order.push(label);
        order.push(agent);
        let mut n: usize = 0;
        assert(rows(order@) =~= named + strays(self@, names@, 0));
        while n < names.len()
            invariant
                n <= names@.len(),
                rows(order@) == named + strays(self@, names@, n as nat),
            decreases names@.len() - n,
        {
            let name: &[u8] = names[n].as_slice();
            let stray: bool = match split_run_name(name) {
                Some((id, extension)) => same(id.as_str(), self.id.as_str()) && !already(extension),
                None => false,
            };
            if stray {
                let path: Vec<u8> = join(self.dir.as_slice(), name);
                proof {
                    lemma_rows_push(order@, path);
                    assert((named + strays(self@, names@, n as nat)).push(path@) =~= named + strays(
                        self@,
                        names@,
                        (n + 1) as nat,
                    ));
                }
                order.push(path);
            }
            n += 1;
        }
        let lock: Vec<u8> = self.lock();
        proof {
            lemma_rows_push(order@, lock);
        }
        order.push(lock);
        order
    }
}

// ---------------------------------------------------------------------------
// Laws
// ---------------------------------------------------------------------------

/// A pidfile reads back as the pid that was written to it.
pub proof fn a_pidfile_reads_back(pid: u32)
    requires
        0 < pid <= i32::MAX,
    ensures
        pid_in(encode_utf8(pid_body_of(pid))) == Some(pid as i32),
{
    let d = digits(pid as nat, 10);
    let body = pid_body_of(pid);
    let bytes = encode_utf8(body);
    lemma_digits_spell(pid as nat);
    numbers_read_back(pid as nat);
    assert(is_digit(d[0]));
    assert(is_digit(d.last()));
    lemma_trim_behind(d, '\n');
    vstd::utf8::encode_utf8_valid_utf8(body);
    vstd::utf8::encode_utf8_decode_utf8(body);
    assert(vstd::utf8::is_ascii_chars(body)) by {
        assert forall|i: int| 0 <= i < body.len() implies '\0' <= #[trigger] body[i] <= '\u{7f}' by {
            if i < d.len() {
                assert(is_digit(d[i]));
            }
        }
    }
    vstd::utf8::is_ascii_chars_encode_utf8(body);
    lemma_few_digits(pid as nat);
}

/// A number of at most 32 bits has at most ten digits.
proof fn lemma_few_digits(n: nat)
    requires
        n <= u32::MAX,
    ensures
        digits(n, 10).len() <= 10,
{
    reveal_with_fuel(digits, 11);
}

/// An id is as many bytes as it has characters, and none of them is a `.`.
proof fn lemma_id_bytes(id: Seq<char>)
    requires
        is_id(id),
    ensures
        encode_utf8(id).len() == id.len(),
        forall|i: int| 0 <= i < id.len() ==> #[trigger] encode_utf8(id)[i] != 0x2e,
        valid_utf8(encode_utf8(id)),
        decode_utf8(encode_utf8(id)) == id,
{
    assert(vstd::utf8::is_ascii_chars(id)) by {
        assert forall|i: int| 0 <= i < id.len() implies '\0' <= #[trigger] id[i] <= '\u{7f}' by {
            assert(is_id_char(id[i]));
        }
    }
    vstd::utf8::is_ascii_chars_encode_utf8(id);
    assert forall|i: int| 0 <= i < id.len() implies #[trigger] encode_utf8(id)[i] != 0x2e by {
        assert(is_id_char(id[i]));
    }
    vstd::utf8::encode_utf8_valid_utf8(id);
    vstd::utf8::encode_utf8_decode_utf8(id);
}

/// A listing names each session once.
pub proof fn a_listing_names_each_session_once(
    ids: Seq<Seq<char>>,
    names: Seq<Vec<u8>>,
    n: int,
    i: int,
    j: int,
)
    requires
        lists(ids, names, n),
        0 <= i < ids.len(),
        0 <= j < ids.len(),
        ids[i] == ids[j],
    ensures
        i == j,
{
    lemma_precedes_irreflexive(ids[i]);
}

/// A run file names the session it belongs to: what a session calls its files is read back
/// as that session, and as the extension it was given.
pub proof fn a_run_file_names_its_session(id: Seq<char>, extension: Seq<char>)
    requires
        is_id(id),
    ensures
        run_name(encode_utf8(id + "."@ + extension)) == Some((id, encode_utf8(extension))),
        session_of(encode_utf8(id + "."@ + extension)) == Some(id),
{
    let name = encode_utf8(id + "."@ + extension);
    lemma_encode_concat(id + "."@, extension);
    lemma_encode_concat(id, "."@);
    lemma_id_bytes(id);
    reveal_strlit(".");
    assert(encode_utf8("."@) =~= seq![0x2eu8]) by {
        assert(vstd::utf8::is_ascii_chars("."@));
        vstd::utf8::is_ascii_chars_encode_utf8("."@);
    }
    let head = encode_utf8(id);
    let rest = encode_utf8(extension);
    assert(name == head + seq![0x2eu8] + rest);
    assert(!head.contains(0x2eu8));
    lemma_first_behind(head, 0x2e, rest);
    assert(name.take(head.len() as int) =~= head);
    assert(name.skip(head.len() as int + 1) =~= rest);
}

/// The lock is the last thing of a session to go.
pub proof fn the_lock_goes_last(paths: PathsModel, names: Seq<Vec<u8>>)
    ensures
        removal_order_of(paths, names).len() >= 5,
        removal_order_of(paths, names).last() == paths.file("lock"@),
        removal_order_of(paths, names)[0] == paths.file("sock"@),
        removal_order_of(paths, names)[1] == paths.file("pid"@),
        removal_order_of(paths, names)[2] == paths.file("label"@),
        removal_order_of(paths, names)[3] == paths.file("agent"@),
{
}

/// `path` is that of a stray among the first `n` entries.
pub open spec fn leads_to_stray(
    paths: PathsModel,
    names: Seq<Vec<u8>>,
    n: nat,
    path: Seq<u8>,
) -> bool {
    exists|i: int|
        0 <= i < n && is_stray(paths.id, #[trigger] names[i]@) && path == below(
            paths.dir,
            names[i]@,
        )
}

/// Removal takes every name of this session and no neighbour's: what it adds to the five is
/// an entry whose id is this one and whose extension is none of theirs, and every such
/// entry is added.
pub proof fn removal_takes_no_neighbours(paths: PathsModel, names: Seq<Vec<u8>>, n: nat)
    requires
        n <= names.len(),
    ensures
        forall|path: Seq<u8>| #[trigger]
            strays(paths, names, n).contains(path) <==> leads_to_stray(paths, names, n, path),
    decreases n,
{
    if n > 0 {
        let m = (n - 1) as nat;
        removal_takes_no_neighbours(paths, names, m);
        let before = strays(paths, names, m);
        let after = strays(paths, names, n);
        assert forall|path: Seq<u8>| #[trigger] after.contains(path) <==> leads_to_stray(
            paths,
            names,
            n,
            path,
        ) by {
            if after.contains(path) {
                let k = choose|k: int| 0 <= k < after.len() && after[k] == path;
                if k < before.len() {
                    assert(before[k] == path);
                    assert(before.contains(path));
                    let i = choose|i: int|
                        0 <= i < m && is_stray(paths.id, #[trigger] names[i]@) && path == below(
                            paths.dir,
                            names[i]@,
                        );
                    assert(0 <= i < n && is_stray(paths.id, names[i]@));
                } else {
                    assert(is_stray(paths.id, names[n - 1]@));
                }
            }
            if leads_to_stray(paths, names, n, path) {
                let i = choose|i: int|
                    0 <= i < n && is_stray(paths.id, #[trigger] names[i]@) && path == below(
                        paths.dir,
                        names[i]@,
                    );
                if i < m {
                    assert(leads_to_stray(paths, names, m, path));
                    assert(before.contains(path));
                    let k = choose|k: int| 0 <= k < before.len() && before[k] == path;
                    assert(after[k] == path);
                } else {
                    assert(after[before.len() as int] == path);
                }
            }
        }
    }
}

/// Both sockets of a session can be bound: their paths fit a unix socket address.
pub proof fn every_socket_path_fits(paths: PathsModel)
    requires
        paths.wf(),
    ensures
        paths.file("sock"@).len() <= SUN_PATH_MAX,
        paths.file("agent"@).len() <= SUN_PATH_MAX,
{
    reveal_strlit(".");
    reveal_strlit("sock");
    reveal_strlit("agent");
    lemma_id_bytes(paths.id);
    lemma_encode_concat(paths.id + "."@, "sock"@);
    lemma_encode_concat(paths.id + "."@, "agent"@);
    lemma_encode_concat(paths.id, "."@);
    assert(vstd::utf8::is_ascii_chars("."@));
    assert(vstd::utf8::is_ascii_chars("sock"@));
    assert(vstd::utf8::is_ascii_chars("agent"@));
    vstd::utf8::is_ascii_chars_encode_utf8("."@);
    vstd::utf8::is_ascii_chars_encode_utf8("sock"@);
    vstd::utf8::is_ascii_chars_encode_utf8("agent"@);
}

/// An id is one to sixty-four letters, digits, dashes and underscores of ASCII, no dash
/// first; whatever is that is one, and nothing else is.
pub proof fn an_id_is_letters_digits_dashes_and_underscores(id: Seq<char>)
    ensures
        is_id(id) <==> {
            &&& 1 <= id.len() <= 64
            &&& id[0] as u32 != 0x2d
            &&& forall|i: int| 0 <= i < id.len() ==> {
                let u = (#[trigger] id[i]) as u32;
                ||| 0x30 <= u <= 0x39
                ||| 0x41 <= u <= 0x5a
                ||| 0x61 <= u <= 0x7a
                ||| u == 0x2d
                ||| u == 0x5f
            }
        },
{
    assert(MAX_SESSION_ID_LEN == 64);
    assert forall|i: int| 0 <= i < id.len() implies (is_id_char(#[trigger] id[i]) <==> {
        let u = id[i] as u32;
        ||| 0x30 <= u <= 0x39
        ||| 0x41 <= u <= 0x5a
        ||| 0x61 <= u <= 0x7a
        ||| u == 0x2d
        ||| u == 0x5f
    }) by {
        lemma_id_char(id[i]);
    }
    if id.len() > 0 {
        lemma_id_char(id[0]);
    }
}

/// The characters of an id, by their numbers.
proof fn lemma_id_char(c: char)
    ensures
        is_id_char(c) <==> {
            let u = c as u32;
            ||| 0x30 <= u <= 0x39
            ||| 0x41 <= u <= 0x5a
            ||| 0x61 <= u <= 0x7a
            ||| u == 0x2d
            ||| u == 0x5f
        },
        (c == '-') == (c as u32 == 0x2d),
{
}

/// A run file is the id, a dot and the extension, below the run directory.
pub proof fn a_run_file_is_below_the_run_directory(paths: PathsModel, extension: Seq<char>)
    ensures
        paths.dir.len() > 0 && paths.dir.last() != 0x2f ==> paths.file(extension) == paths.dir + seq![
            0x2fu8,
        ] + encode_utf8(paths.id) + seq![0x2eu8] + encode_utf8(extension),
        paths.dir.len() > 0 && paths.dir.last() == 0x2f ==> paths.file(extension) == paths.dir
            + encode_utf8(paths.id) + seq![0x2eu8] + encode_utf8(extension),
{
    lemma_encode_concat(paths.id + "."@, extension);
    lemma_encode_concat(paths.id, "."@);
    reveal_strlit(".");
    assert(vstd::utf8::is_ascii_chars("."@));
    vstd::utf8::is_ascii_chars_encode_utf8("."@);
    assert(encode_utf8("."@) =~= seq![0x2eu8]);
    let name = encode_utf8(paths.id) + seq![0x2eu8] + encode_utf8(extension);
    assert(paths.dir.push(0x2f) + name =~= paths.dir + seq![0x2fu8] + encode_utf8(paths.id) + seq![
        0x2eu8,
    ] + encode_utf8(extension));
    assert(paths.dir + name =~= paths.dir + encode_utf8(paths.id) + seq![0x2eu8] + encode_utf8(
        extension,
    ));
}

/// Two files of one run directory are one only where they are the same file of the same
/// session: no session's files are ever another's.
pub proof fn no_two_sessions_share_a_file(
    dir: Seq<u8>,
    id: Seq<char>,
    other: Seq<char>,
    extension: Seq<char>,
    another: Seq<char>,
)
    requires
        is_id(id),
        is_id(other),
        (PathsModel { dir, id }).file(extension) == (PathsModel { dir, id: other }).file(another),
    ensures
        id == other,
        encode_utf8(extension) == encode_utf8(another),
{
    let here = encode_utf8(id + "."@ + extension);
    let there = encode_utf8(other + "."@ + another);
    a_run_file_names_its_session(id, extension);
    a_run_file_names_its_session(other, another);
    let k = if dir.len() == 0 || dir.last() == 0x2f {
        dir.len() as int
    } else {
        dir.len() as int + 1
    };
    assert(below(dir, here).skip(k) =~= here);
    assert(below(dir, there).skip(k) =~= there);
}

/// The run directory is below the state directory where that is an absolute path, else below
/// the user's own, else below the runtime directory; and nowhere where none of them is one.
pub proof fn the_run_directory_is_below_the_first_that_is_absolute(
    state: Seq<u8>,
    home: Seq<u8>,
    runtime: Seq<u8>,
)
    requires
        state.len() > 1 && state.last() != 0x2f,
        home.len() > 1 && home.last() != 0x2f,
        runtime.len() > 1 && runtime.last() != 0x2f,
    ensures
        ({
            let under_state = encode_utf8("/nomux/run"@);
            let under_home = encode_utf8("/.local/state/nomux/run"@);
            let under_runtime = encode_utf8("/nomux"@);
            &&& state[0] == 0x2f ==> run_dir_of(Some(state), Some(home), Some(runtime)) == Some(
                state + under_state,
            )
            &&& state[0] == 0x2f ==> run_dir_of(Some(state), None, None) == Some(
                state + under_state,
            )
            &&& state[0] != 0x2f && home[0] == 0x2f ==> run_dir_of(
                Some(state),
                Some(home),
                Some(runtime),
            ) == Some(home + under_home)
            &&& home[0] == 0x2f ==> run_dir_of(None, Some(home), Some(runtime)) == Some(
                home + under_home,
            )
            &&& state[0] != 0x2f && home[0] != 0x2f && runtime[0] == 0x2f ==> run_dir_of(
                Some(state),
                Some(home),
                Some(runtime),
            ) == Some(runtime + under_runtime)
            &&& runtime[0] == 0x2f ==> run_dir_of(None, None, Some(runtime)) == Some(
                runtime + under_runtime,
            )
            &&& state[0] != 0x2f && home[0] != 0x2f && runtime[0] != 0x2f ==> run_dir_of(
                Some(state),
                Some(home),
                Some(runtime),
            ) is None
            &&& run_dir_of(None, None, None) is None
        }),
{
    reveal_strlit("/nomux/run");
    reveal_strlit("/.local/state/nomux/run");
    reveal_strlit("/nomux");
    reveal_strlit("nomux/run");
    reveal_strlit(".local/state");
    reveal_strlit("nomux");
    assert(vstd::utf8::is_ascii_chars("/nomux/run"@));
    assert(vstd::utf8::is_ascii_chars("/.local/state/nomux/run"@));
    assert(vstd::utf8::is_ascii_chars("/nomux"@));
    assert(vstd::utf8::is_ascii_chars("nomux/run"@));
    assert(vstd::utf8::is_ascii_chars(".local/state"@));
    assert(vstd::utf8::is_ascii_chars("nomux"@));
    vstd::utf8::is_ascii_chars_encode_utf8("/nomux/run"@);
    vstd::utf8::is_ascii_chars_encode_utf8("/.local/state/nomux/run"@);
    vstd::utf8::is_ascii_chars_encode_utf8("/nomux"@);
    vstd::utf8::is_ascii_chars_encode_utf8("nomux/run"@);
    vstd::utf8::is_ascii_chars_encode_utf8(".local/state"@);
    vstd::utf8::is_ascii_chars_encode_utf8("nomux"@);
    assert(below(state, encode_utf8("nomux/run"@)) =~= state + encode_utf8("/nomux/run"@));
    assert(below(runtime, encode_utf8("nomux"@)) =~= runtime + encode_utf8("/nomux"@));
    let mid = below(home, encode_utf8(".local/state"@));
    assert(below(mid, encode_utf8("nomux/run"@)) =~= home + encode_utf8(
        "/.local/state/nomux/run"@,
    ));
}

/// A pidfile names a process where it holds a whole number above zero and its newline, and
/// none where the number is anything else, its newline is missing, or it is too long to have
/// been read whole.
pub proof fn a_pidfile_names_one_process_or_none(n: int, body: Seq<u8>)
    requires
        -1_000_000_000_000 <= n <= 1_000_000_000_000,
    ensures
        pid_in(encode_utf8(signed_digits(n).push('\n'))) == if 0 < n <= 0x7fff_ffff {
            Some(n as i32)
        } else {
            None
        },
        body.len() >= 32 ==> pid_in(body) is None,
        body.len() == 0 ==> pid_in(body) is None,
        body.len() > 0 && body.last() != 0x0a ==> pid_in(body) is None,
{
    assert(MAX_PID_LEN == 32);
    let d = signed_digits(n);
    let text = d.push('\n');
    let m = (if n < 0 {
        -n
    } else {
        n
    }) as nat;
    reveal_strlit("-");
    lemma_digits_spell(m);
    lemma_some_digits(m);
    signed_numbers_read_back(n);
    assert(is_digit(digits(m, 10)[0]));
    assert(is_digit(digits(m, 10).last()));
    assert(d.last() == digits(m, 10).last());
    assert(d[0] == if n < 0 {
        '-'
    } else {
        digits(m, 10)[0]
    });
    lemma_trim_behind(d, '\n');
    vstd::utf8::encode_utf8_valid_utf8(text);
    vstd::utf8::encode_utf8_decode_utf8(text);
    assert(vstd::utf8::is_ascii_chars(text)) by {
        assert forall|i: int| 0 <= i < text.len() implies '\0' <= #[trigger] text[i] <= '\u{7f}' by {
            if i < d.len() {
                if n < 0 && i > 0 {
                    assert(d[i] == digits(m, 10)[i - 1]);
                    assert(is_digit(digits(m, 10)[i - 1]));
                } else if n >= 0 {
                    assert(is_digit(digits(m, 10)[i]));
                }
            }
        }
    }
    vstd::utf8::is_ascii_chars_encode_utf8(text);
}

/// A number up to a million million has at most thirteen digits.
proof fn lemma_some_digits(n: nat)
    requires
        n <= 1_000_000_000_000,
    ensures
        digits(n, 10).len() <= 13,
{
    reveal_with_fuel(digits, 14);
}

/// Everything of a session goes: every entry of the run directory that is named after it,
/// whatever its extension, is among what is removed; and nothing is that is not named after
/// it.
pub proof fn everything_of_a_session_goes_and_nothing_else(
    paths: PathsModel,
    names: Seq<Vec<u8>>,
    i: int,
    path: Seq<u8>,
)
    requires
        is_id(paths.id),
    ensures
        0 <= i < names.len() && (run_name(names[i]@) matches Some((id, _)) && id == paths.id)
            ==> removal_order_of(paths, names).contains(below(paths.dir, names[i]@)),
        removal_order_of(paths, names).contains(path) ==> exists|name: Seq<u8>|
            path == #[trigger] below(paths.dir, name) && session_of(name) == Some(paths.id),
{
    let order = removal_order_of(paths, names);
    let others = strays(paths, names, names.len());
    removal_takes_no_neighbours(paths, names, names.len());
    if 0 <= i < names.len() && (run_name(names[i]@) matches Some((id, _)) && id == paths.id) {
        let name = names[i]@;
        let (_, extension) = run_name(name)->0;
        let dot = first_at(name, 0x2e) as int;
        lemma_first_at(name, 0x2e);
        vstd::utf8::decode_utf8_encode_utf8(name.take(dot));
        if is_named(extension) {
            assert(name =~= encode_utf8(paths.id) + seq![0x2eu8] + extension);
            let which = if extension == encode_utf8("sock"@) {
                "sock"@
            } else if extension == encode_utf8("pid"@) {
                "pid"@
            } else if extension == encode_utf8("label"@) {
                "label"@
            } else if extension == encode_utf8("agent"@) {
                "agent"@
            } else {
                "lock"@
            };
            lemma_file_name(paths, which);
            assert(below(paths.dir, name) == paths.file(which));
            assert(order[0] == paths.file("sock"@));
            assert(order[1] == paths.file("pid"@));
            assert(order[2] == paths.file("label"@));
            assert(order[3] == paths.file("agent"@));
            assert(order[order.len() - 1] == paths.file("lock"@));
        } else {
            assert(is_stray(paths.id, name));
            assert(leads_to_stray(paths, names, names.len(), below(paths.dir, name)));
            assert(others.contains(below(paths.dir, name)));
            let k = choose|k: int| 0 <= k < others.len() && others[k] == below(paths.dir, name);
            assert(order[k + 4] == others[k]);
        }
    }
    if order.contains(path) {
        let k = choose|k: int| 0 <= k < order.len() && order[k] == path;
        if 4 <= k < order.len() - 1 {
            assert(others[k - 4] == path);
            assert(others.contains(path));
            let j = choose|j: int|
                0 <= j < names.len() && is_stray(paths.id, #[trigger] names[j]@) && path == below(
                    paths.dir,
                    names[j]@,
                );
            assert(session_of(names[j]@) == Some(paths.id));
        } else {
            let which = if k == 0 {
                "sock"@
            } else if k == 1 {
                "pid"@
            } else if k == 2 {
                "label"@
            } else if k == 3 {
                "agent"@
            } else {
                "lock"@
            };
            a_run_file_names_its_session(paths.id, which);
            assert(path == below(paths.dir, encode_utf8(paths.id + "."@ + which)));
        }
    }
}

/// The name of a run file, in bytes.
proof fn lemma_file_name(paths: PathsModel, extension: Seq<char>)
    ensures
        encode_utf8(paths.id + "."@ + extension) == encode_utf8(paths.id) + seq![0x2eu8]
            + encode_utf8(extension),
{
    lemma_encode_concat(paths.id + "."@, extension);
    lemma_encode_concat(paths.id, "."@);
    reveal_strlit(".");
    assert(vstd::utf8::is_ascii_chars("."@));
    vstd::utf8::is_ascii_chars_encode_utf8("."@);
    assert(encode_utf8("."@) =~= seq![0x2eu8]);
}

/// A value that is empty or no absolute path counts as none.
pub proof fn a_value_that_is_no_absolute_path_counts_as_none(
    value: Seq<u8>,
    home: Option<Seq<u8>>,
    runtime: Option<Seq<u8>>,
)
    requires
        value.len() == 0 || value[0] != 0x2f,
    ensures
        run_dir_of(Some(value), home, runtime) == run_dir_of(None, home, runtime),
        run_dir_of(None, Some(value), runtime) == run_dir_of(None, None, runtime),
        run_dir_of(None, None, Some(value)) is None,
{
}

/// A name without a dot is nobody's, and neither is one whose id is none.
pub proof fn a_name_that_is_no_sessions_is_nobodys(name: Seq<u8>, id: Seq<char>, rest: Seq<u8>)
    requires
        !encode_utf8(id).contains(0x2eu8),
    ensures
        !name.contains(0x2eu8) ==> session_of(name) is None && run_name(name) is None,
        session_of(encode_utf8(id) + seq![0x2eu8] + rest) == if is_id(id) {
            Some(id)
        } else {
            None
        },
{
    if !name.contains(0x2eu8) {
        lemma_first_behind(name, 0x2e, Seq::empty());
    }
    let head = encode_utf8(id);
    let whole = head + seq![0x2eu8] + rest;
    lemma_first_behind(head, 0x2e, rest);
    assert(whole.take(head.len() as int) =~= head);
    vstd::utf8::encode_utf8_valid_utf8(id);
    vstd::utf8::encode_utf8_decode_utf8(id);
}

/// A file is read until it ends or the buffer is full, and what was read is counted.
pub proof fn a_file_is_read_until_it_ends_or_the_buffer_is_full(
    filled: usize,
    len: usize,
    read: usize,
)
    requires
        filled <= len,
        read <= len - filled,
    ensures
        fills(filled, len, read).0 == filled + read,
        fills(filled, len, read).1 <==> read > 0 && filled + read < len,
{
}

} // verus!
