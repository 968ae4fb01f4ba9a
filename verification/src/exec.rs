//! A program to run: its path, its arguments, where it starts, and the environment it
//! inherits.
//!
//! Everything here is built before a fork and read after it, where nothing may be built any
//! more. Strings are bytes without a NUL, which is what ends one of them.
use vstd::prelude::*;

use crate::fields::{copy_bytes, find, first_at, lemma_rows_push, rows};
use crate::text::same_bytes;
use crate::trouble::Kind;
use crate::wire::has_nul;

verus! {

/// The variable an environment entry names, where it names one.
pub open spec fn key_in(entry: Seq<u8>) -> Option<Seq<u8>> {
    let at = first_at(entry, 0x3d) as int;
    if at >= entry.len() {
        None
    } else {
        Some(entry.take(at))
    }
}

/// The variable an environment entry names, where it names one.
pub fn key_of(entry: &[u8]) -> (r: Option<&[u8]>)
    ensures
        match key_in(entry@) {
            Some(key) => r matches Some(found) && found@ == key,
            None => r is None,
        },
{
    let at: usize = find(entry, 0x3d);
    if at >= entry.len() {
        return None;
    }
    let key: &[u8] = vstd::slice::slice_subrange(entry, 0, at);
    assert(key@ =~= entry@.take(at as int));
    Some(key)
}

/// Some entry of the first `n` names `key`.
pub open spec fn names(entries: Seq<Seq<u8>>, n: int, key: Seq<u8>) -> bool {
    exists|i: int| 0 <= i < n && key_in(#[trigger] entries[i]) == Some(key)
}

/// An entry of the inherited environment that names what an override names.
pub open spec fn is_shadowed(entry: Seq<u8>, overrides: Seq<Seq<u8>>) -> bool {
    key_in(entry) matches Some(key) && names(overrides, overrides.len() as int, key)
}

/// Whether an entry of the inherited environment names a variable one of `overrides` also
/// names: over the whole key rather than a prefix of it, and for every such entry rather
/// than the first, because the first of two is what a child reads.
pub fn shadowed(entry: &[u8], overrides: &[Vec<u8>]) -> (r: bool)
    ensures
        r == is_shadowed(entry@, rows(overrides@)),
{
    let key: &[u8] = match key_of(entry) {
        Some(key) => key,
        None => {
            return false;
        },
    };
    let ghost all = rows(overrides@);
    let mut i: usize = 0;
    while i < overrides.len()
        invariant
            i <= overrides@.len(),
            all == rows(overrides@),
            key_in(entry@) == Some(key@),
            !names(all, i as int, key@),
        decreases overrides@.len() - i,
    {
        assert(all[i as int] == overrides@[i as int]@);
        if let Some(held) = key_of(overrides[i].as_slice()) {
            if same_bytes(held, key) {
                assert(names(all, all.len() as int, key@));
                return true;
            }
        }
        i += 1;
    }
    false
}

/// The entries of the first `n` that name something else than `key`.
pub open spec fn without(entries: Seq<Seq<u8>>, n: nat, key: Seq<u8>) -> Seq<Seq<u8>>
    decreases n,
{
    if n == 0 {
        Seq::empty()
    } else if key_in(entries[n - 1]) == Some(key) {
        without(entries, (n - 1) as nat, key)
    } else {
        without(entries, (n - 1) as nat, key).push(entries[n - 1])
    }
}

/// The entries of the first `n` that no override names.
pub open spec fn unshadowed(entries: Seq<Seq<u8>>, n: nat, overrides: Seq<Seq<u8>>) -> Seq<Seq<u8>>
    decreases n,
{
    if n == 0 {
        Seq::empty()
    } else if is_shadowed(entries[n - 1], overrides) {
        unshadowed(entries, (n - 1) as nat, overrides)
    } else {
        unshadowed(entries, (n - 1) as nat, overrides).push(entries[n - 1])
    }
}

/// A child's environment: what was inherited, without what is overridden, and the overrides
/// behind it.
pub open spec fn environment_of(inherited: Seq<Seq<u8>>, overrides: Seq<Seq<u8>>) -> Seq<Seq<u8>> {
    unshadowed(inherited, inherited.len(), overrides) + overrides
}

/// A child's environment: what this process inherited, with `overrides` replacing what they
/// name and appended where they name something new.
pub fn environment(inherited: &[Vec<u8>], overrides: &[Vec<u8>]) -> (r: Vec<Vec<u8>>)
    ensures
        rows(r@) == environment_of(rows(inherited@), rows(overrides@)),
{
    let ghost given = rows(inherited@);
    let ghost over = rows(overrides@);
    let mut out: Vec<Vec<u8>> = Vec::new();
    let mut i: usize = 0;
    assert(rows(out@) =~= unshadowed(given, 0, over));
    while i < inherited.len()
        invariant
            i <= inherited@.len(),
            given == rows(inherited@),
            over == rows(overrides@),
            rows(out@) == unshadowed(given, i as nat, over),
        decreases inherited@.len() - i,
    {
        assert(given[i as int] == inherited@[i as int]@);
        if !shadowed(inherited[i].as_slice(), overrides) {
            let entry: Vec<u8> = copy_bytes(inherited[i].as_slice());
            proof {
                lemma_rows_push(out@, entry);
            }
            out.push(entry);
        }
        i += 1;
    }
    let ghost kept = unshadowed(given, given.len(), over);
    let mut k: usize = 0;
    assert(rows(out@) =~= kept + over.take(0));
    while k < overrides.len()
        invariant
            k <= overrides@.len(),
            over == rows(overrides@),
            rows(out@) == kept + over.take(k as int),
        decreases overrides@.len() - k,
    {
        let entry: Vec<u8> = copy_bytes(overrides[k].as_slice());
        proof {
            lemma_rows_push(out@, entry);
            assert(over[k as int] == entry@);
            assert((kept + over.take(k as int)).push(entry@) =~= kept + over.take(k + 1));
        }
        out.push(entry);
        k += 1;
    }
    assert(over.take(over.len() as int) =~= over);
    out
}

/// A program, its argument vector and the changes to the environment it inherits.
#[derive(Debug)]
pub struct Program {
    /// Absolute path of what is run. Not searched for and not resolved.
    pub path: Vec<u8>,
    /// The arguments, the name it is run under first.
    pub args: Vec<Vec<u8>>,
    /// `KEY=VALUE` entries that replace whatever is inherited under that key.
    pub overrides: Vec<Vec<u8>>,
    /// Where it starts, when that is not where its parent is.
    pub dir: Option<Vec<u8>>,
}

/// What a [`Program`] holds.
#[verifier::ext_equal]
pub struct ProgramModel {
    pub path: Seq<u8>,
    pub args: Seq<Seq<u8>>,
    pub overrides: Seq<Seq<u8>>,
    pub dir: Option<Seq<u8>>,
}

impl View for Program {
    type V = ProgramModel;

    open spec fn view(&self) -> ProgramModel {
        ProgramModel {
            path: self.path@,
            args: rows(self.args@),
            overrides: rows(self.overrides@),
            dir: match self.dir {
                Some(dir) => Some(dir@),
                None => None,
            },
        }
    }
}

/// No row holds a NUL.
pub open spec fn no_nul(all: Seq<Seq<u8>>) -> bool {
    forall|i: int| 0 <= i < all.len() ==> !(#[trigger] all[i]).contains(0u8)
}

/// Every entry names a variable, and no two name the same.
pub open spec fn distinct_keys(entries: Seq<Seq<u8>>) -> bool {
    &&& forall|i: int| 0 <= i < entries.len() ==> key_in(#[trigger] entries[i]) is Some
    &&& forall|i: int, j: int|
        0 <= i < j < entries.len() ==> key_in(#[trigger] entries[i]) != key_in(
            #[trigger] entries[j],
        )
}

impl ProgramModel {
    /// Nothing holds a NUL, and no variable is set twice.
    pub open spec fn wf(self) -> bool {
        &&& !self.path.contains(0u8)
        &&& no_nul(self.args)
        &&& no_nul(self.overrides)
        &&& self.dir matches Some(dir) ==> !dir.contains(0u8)
        &&& distinct_keys(self.overrides)
    }
}

/// What is left after one key was taken out.
proof fn lemma_without(entries: Seq<Seq<u8>>, n: nat, key: Seq<u8>)
    requires
        n <= entries.len(),
        no_nul(entries),
        distinct_keys(entries),
    ensures
        no_nul(without(entries, n, key)),
        distinct_keys(without(entries, n, key)),
        !names(without(entries, n, key), without(entries, n, key).len() as int, key),
        forall|i: int|
            0 <= i < without(entries, n, key).len() ==> exists|j: int|
                0 <= j < n && entries[j] == #[trigger] without(entries, n, key)[i],
    decreases n,
{
    if n > 0 {
        let m = (n - 1) as nat;
        lemma_without(entries, m, key);
        let before = without(entries, m, key);
        let after = without(entries, n, key);
        let last = entries[n - 1];
        if key_in(last) != Some(key) {
            assert forall|i: int| 0 <= i < after.len() implies exists|j: int|
                0 <= j < n && entries[j] == #[trigger] after[i] by {
                if i < before.len() {
                    assert(after[i] == before[i]);
                    let j = choose|j: int| 0 <= j < m && entries[j] == before[i];
                    assert(entries[j] == after[i]);
                } else {
                    assert(entries[n - 1] == after[i]);
                }
            }
            assert forall|i: int, j: int| 0 <= i < j < after.len() implies key_in(
                #[trigger] after[i],
            ) != key_in(#[trigger] after[j]) by {
                assert(after[i] == before[i]);
                if j < before.len() {
                    assert(after[j] == before[j]);
                } else {
                    let k = choose|k: int| 0 <= k < m && entries[k] == before[i];
                    assert(key_in(entries[k]) != key_in(entries[n - 1]));
                }
            }
            assert forall|i: int| 0 <= i < after.len() implies key_in(#[trigger] after[i])
                is Some by {
                if i < before.len() {
                    assert(after[i] == before[i]);
                }
            }
            assert forall|i: int| 0 <= i < after.len() implies !(#[trigger] after[i]).contains(
                0u8,
            ) by {
                if i < before.len() {
                    assert(after[i] == before[i]);
                } else {
                    assert(after[i] == entries[n - 1]);
                }
            }
            assert(!names(after, after.len() as int, key)) by {
                if names(after, after.len() as int, key) {
                    let i = choose|i: int|
                        0 <= i < after.len() && key_in(#[trigger] after[i]) == Some(key);
                    if i < before.len() {
                        assert(after[i] == before[i]);
                        assert(names(before, before.len() as int, key));
                    }
                }
            }
        } else {
            assert forall|i: int| 0 <= i < after.len() implies exists|j: int|
                0 <= j < n && entries[j] == #[trigger] after[i] by {
                let j = choose|j: int| 0 <= j < m && entries[j] == before[i];
                assert(entries[j] == after[i]);
            }
        }
    }
}

/// An entry names the key it was made of.
pub(crate) proof fn lemma_entry_key(key: Seq<u8>, value: Seq<u8>)
    requires
        !key.contains(0x3du8),
    ensures
        key_in(key.push(0x3d) + value) == Some(key),
    decreases key.len(),
{
    let entry = key.push(0x3d) + value;
    lemma_equals_behind(key, value);
    assert(entry.take(key.len() as int) =~= key);
}

/// The first `=` is where the key ends.
proof fn lemma_equals_behind(key: Seq<u8>, value: Seq<u8>)
    requires
        !key.contains(0x3du8),
    ensures
        first_at(key.push(0x3d) + value, 0x3d) == key.len(),
    decreases key.len(),
{
    let entry = key.push(0x3d) + value;
    if key.len() > 0 {
        let rest = key.drop_first();
        assert(!rest.contains(0x3du8)) by {
            if rest.contains(0x3du8) {
                let i = choose|i: int| 0 <= i < rest.len() && rest[i] == 0x3du8;
                assert(key[i + 1] == 0x3du8);
            }
        }
        lemma_equals_behind(rest, value);
        assert(entry.drop_first() =~= rest.push(0x3d) + value);
        assert(key[0] != 0x3du8);
        assert(entry[0] == key[0]);
    } else {
        assert(entry[0] == 0x3d);
    }
}

/// Whether `key` holds an `=`.
fn has_equals(key: &[u8]) -> (r: bool)
    ensures
        r == key@.contains(0x3du8),
{
    let at: usize = find(key, 0x3d);
    proof {
        crate::fields::lemma_first_at(key@, 0x3d);
        if at < key@.len() {
            assert(key@[at as int] == 0x3du8);
        } else if key@.contains(0x3du8) {
            let i = choose|i: int| 0 <= i < key@.len() && key@[i] == 0x3du8;
            assert(i < first_at(key@, 0x3d));
        }
    }
    at < key.len()
}

impl Program {
    /// A program at `path`, to be run under the name `argv0`. Refused where either holds a
    /// NUL.
    pub fn new(path: &[u8], argv0: &[u8]) -> (r: Result<Program, Kind>)
        ensures
            if path@.contains(0u8) || argv0@.contains(0u8) {
                r == Err::<Program, Kind>(Kind::InvalidInput)
            } else {
                r matches Ok(program) && program@ == (ProgramModel {
                    path: path@,
                    args: seq![argv0@],
                    overrides: Seq::empty(),
                    dir: None,
                }) && program@.wf()
            },
    {
        if has_nul(path) || has_nul(argv0) {
            return Err(Kind::InvalidInput);
        }
        let mut args: Vec<Vec<u8>> = Vec::new();
        let name: Vec<u8> = copy_bytes(argv0);
        args.push(name);
        assert(rows(args@) =~= seq![argv0@]);
        let program = Program { path: copy_bytes(path), args, overrides: Vec::new(), dir: None };
        assert(program@.overrides =~= Seq::empty());
        Ok(program)
    }

    /// Appends one argument. Refused where it holds a NUL.
    pub fn arg(&mut self, arg: &[u8]) -> (r: Result<(), Kind>)
        requires
            old(self)@.wf(),
        ensures
            final(self)@.wf(),
            if arg@.contains(0u8) {
                r == Err::<(), Kind>(Kind::InvalidInput) && final(self)@ == old(self)@
            } else {
                r is Ok && final(self)@ == (ProgramModel {
                    args: old(self)@.args.push(arg@),
                    ..old(self)@
                })
            },
    {
        if has_nul(arg) {
            return Err(Kind::InvalidInput);
        }
        let own: Vec<u8> = copy_bytes(arg);
        proof {
            lemma_rows_push(self.args@, own);
        }
        self.args.push(own);
        Ok(())
    }

    /// Sets `key` in the environment, over whatever is inherited or an earlier call said.
    /// Refused where it could not be read back: `value` holds a NUL, or `key` is empty or
    /// holds a NUL or an `=`.
    pub fn env(&mut self, key: &[u8], value: &[u8]) -> (r: Result<(), Kind>)
        requires
            old(self)@.wf(),
        ensures
            final(self)@.wf(),
            if key@.len() == 0 || key@.contains(0x3du8) || key@.contains(0u8) || value@.contains(
                0u8,
            ) {
                r == Err::<(), Kind>(Kind::InvalidInput) && final(self)@ == old(self)@
            } else {
                r is Ok && final(self)@ == (ProgramModel {
                    overrides: without(
                        old(self)@.overrides,
                        old(self)@.overrides.len(),
                        key@,
                    ).push(key@.push(0x3d) + value@),
                    ..old(self)@
                })
            },
    {
        if key.len() == 0 || has_equals(key) || has_nul(key) || has_nul(value) {
            return Err(Kind::InvalidInput);
        }
        let mut entry: Vec<u8> = copy_bytes(key);
        entry.push(0x3d);
        entry.extend_from_slice(value);
        assert(entry@ =~= key@.push(0x3d) + value@);
        let ghost held = rows(self.overrides@);
        let mut kept: Vec<Vec<u8>> = Vec::new();
        let mut i: usize = 0;
        assert(rows(kept@) =~= without(held, 0, key@));
        while i < self.overrides.len()
            invariant
                i <= self.overrides@.len(),
                held == rows(self.overrides@),
                rows(kept@) == without(held, i as nat, key@),
            decreases self.overrides@.len() - i,
        {
            assert(held[i as int] == self.overrides@[i as int]@);
            let same: bool = match key_of(self.overrides[i].as_slice()) {
                Some(named) => same_bytes(named, key),
                None => false,
            };
            if !same {
                let own: Vec<u8> = copy_bytes(self.overrides[i].as_slice());
                proof {
                    lemma_rows_push(kept@, own);
                }
                kept.push(own);
            }
            i += 1;
        }
        proof {
            let left = without(held, held.len(), key@);
            lemma_without(held, held.len(), key@);
            lemma_entry_key(key@, value@);
            lemma_rows_push(kept@, entry);
            let all = left.push(entry@);
            assert(!entry@.contains(0u8)) by {
                if entry@.contains(0u8) {
                    let i = choose|i: int| 0 <= i < entry@.len() && entry@[i] == 0u8;
                    if i < key@.len() {
                        assert(key@[i] == 0u8);
                    } else if i > key@.len() {
                        assert(value@[i - key@.len() - 1] == 0u8);
                    }
                }
            }
            assert forall|i: int, j: int| 0 <= i < j < all.len() implies key_in(#[trigger] all[i])
                != key_in(#[trigger] all[j]) by {
                assert(all[i] == left[i]);
                if j == left.len() {
                    if key_in(all[i]) == key_in(all[j]) {
                        assert(key_in(left[i]) == Some(key@));
                        assert(names(left, left.len() as int, key@));
                    }
                } else {
                    assert(all[j] == left[j]);
                }
            }
            assert forall|i: int| 0 <= i < all.len() implies key_in(#[trigger] all[i]) is Some by {
                if i < left.len() {
                    assert(all[i] == left[i]);
                }
            }
            assert forall|i: int| 0 <= i < all.len() implies !(#[trigger] all[i]).contains(
                0u8,
            ) by {
                if i < left.len() {
                    assert(all[i] == left[i]);
                }
            }
        }
        kept.push(entry);
        self.overrides = kept;
        Ok(())
    }

    /// Starts the program in `dir` rather than wherever its parent happens to be. Refused
    /// where it holds a NUL.
    pub fn current_dir(&mut self, dir: &[u8]) -> (r: Result<(), Kind>)
        requires
            old(self)@.wf(),
        ensures
            final(self)@.wf(),
            if dir@.contains(0u8) {
                r == Err::<(), Kind>(Kind::InvalidInput) && final(self)@ == old(self)@
            } else {
                r is Ok && final(self)@ == (ProgramModel { dir: Some(dir@), ..old(self)@ })
            },
    {
        if has_nul(dir) {
            return Err(Kind::InvalidInput);
        }
        self.dir = Some(copy_bytes(dir));
        Ok(())
    }
}

// ---------------------------------------------------------------------------
// Laws
// ---------------------------------------------------------------------------

/// What a child reads under `key`: the first entry of its environment that names it, from
/// the `at`th on.
pub open spec fn read_from(env: Seq<Seq<u8>>, at: nat, key: Seq<u8>) -> Option<Seq<u8>>
    decreases env.len() - at,
{
    if at >= env.len() {
        None
    } else if key_in(env[at as int]) == Some(key) {
        Some(env[at as int])
    } else {
        read_from(env, at + 1, key)
    }
}

/// Reading on past a part that does not name the key.
proof fn lemma_read_past(a: Seq<Seq<u8>>, b: Seq<Seq<u8>>, at: nat, key: Seq<u8>)
    requires
        at <= a.len(),
    ensures
        read_from(a + b, at, key) == match read_from(a, at, key) {
            Some(entry) => Some(entry),
            None => read_from(b, 0, key),
        },
    decreases a.len() - at,
{
    if at < a.len() {
        assert((a + b)[at as int] == a[at as int]);
        lemma_read_past(a, b, at + 1, key);
    } else {
        lemma_read_shift(a, b, 0, key);
    }
}

/// Reading the second part of two.
proof fn lemma_read_shift(a: Seq<Seq<u8>>, b: Seq<Seq<u8>>, at: nat, key: Seq<u8>)
    requires
        at <= b.len(),
    ensures
        read_from(a + b, a.len() + at, key) == read_from(b, at, key),
    decreases b.len() - at,
{
    if at < b.len() {
        assert((a + b)[a.len() + at as int] == b[at as int]);
        lemma_read_shift(a, b, at + 1, key);
    }
}

/// An entry read names the key.
proof fn lemma_read_names(env: Seq<Seq<u8>>, at: nat, key: Seq<u8>)
    ensures
        names(env, env.len() as int, key) && at == 0 ==> read_from(env, at, key) is Some,
        forall|i: int| at <= i < env.len() && key_in(#[trigger] env[i]) == Some(key) ==> read_from(
            env,
            at,
            key,
        ) is Some,
        (forall|i: int| at <= i < env.len() ==> key_in(#[trigger] env[i]) != Some(key))
            ==> read_from(env, at, key) is None,
    decreases env.len() - at,
{
    if at < env.len() {
        lemma_read_names(env, at + 1, key);
    }
}

/// What is kept of the inherited environment reads as it did, for what is not overridden.
proof fn lemma_unshadowed_reads(
    inherited: Seq<Seq<u8>>,
    n: nat,
    overrides: Seq<Seq<u8>>,
    key: Seq<u8>,
)
    requires
        n <= inherited.len(),
    ensures
        names(overrides, overrides.len() as int, key) ==> read_from(
            unshadowed(inherited, n, overrides),
            0,
            key,
        ) is None,
        !names(overrides, overrides.len() as int, key) ==> read_from(
            unshadowed(inherited, n, overrides),
            0,
            key,
        ) == read_from(inherited.take(n as int), 0, key),
    decreases n,
{
    if n > 0 {
        let m = (n - 1) as nat;
        lemma_unshadowed_reads(inherited, m, overrides, key);
        let before = unshadowed(inherited, m, overrides);
        let last = inherited[n - 1];
        assert(inherited.take(n as int) =~= inherited.take(m as int) + seq![last]);
        lemma_read_past(inherited.take(m as int), seq![last], 0, key);
        reveal_with_fuel(read_from, 2);
        if !is_shadowed(last, overrides) {
            assert(unshadowed(inherited, n, overrides) =~= before + seq![last]);
            lemma_read_past(before, seq![last], 0, key);
        }
    }
}

/// A child reads an override under the key it names, and under every other key exactly what
/// it would have inherited: an override shadows only the variable it names, and all of it.
pub proof fn an_override_shadows_what_it_names_and_nothing_else(
    inherited: Seq<Seq<u8>>,
    overrides: Seq<Seq<u8>>,
    key: Seq<u8>,
)
    ensures
        read_from(environment_of(inherited, overrides), 0, key) == if names(
            overrides,
            overrides.len() as int,
            key,
        ) {
            read_from(overrides, 0, key)
        } else {
            read_from(inherited, 0, key)
        },
{
    let kept = unshadowed(inherited, inherited.len(), overrides);
    lemma_unshadowed_reads(inherited, inherited.len(), overrides, key);
    assert(inherited.take(inherited.len() as int) =~= inherited);
    lemma_read_past(kept, overrides, 0, key);
    lemma_read_names(overrides, 0, key);
    if !names(overrides, overrides.len() as int, key) {
        assert forall|i: int| 0 <= i < overrides.len() implies key_in(#[trigger] overrides[i])
            != Some(key) by {
            if key_in(overrides[i]) == Some(key) {
                assert(names(overrides, overrides.len() as int, key));
            }
        }
    }
}

// ---------------------------------------------------------------------------
// The answer
// ---------------------------------------------------------------------------

/// How many bytes a child that could not become its program writes before it ends: the
/// system's number for the failure, as this machine holds it in memory.
pub const REPORT_LEN: usize = 4;

/// What the pipe a child is started with says of it, `filled` bytes having been read and
/// `number` being what the whole report holds: a whole report is the failure, and with any
/// less the pipe was closed by the program the child became.
pub fn exec_answer(filled: usize, number: i32) -> (r: Option<i32>)
    ensures
        r == if filled == REPORT_LEN {
            Some(number)
        } else {
            None
        },
{
    if filled == REPORT_LEN {
        Some(number)
    } else {
        None
    }
}

/// An entry names what stands before its first `=`, and one without names nothing.
pub proof fn an_entry_names_what_is_before_its_equals(key: Seq<u8>, value: Seq<u8>)
    requires
        !key.contains(0x3du8),
    ensures
        key_in(key + seq![0x3du8] + value) == Some(key),
        key_in(key) is None,
{
    lemma_entry_key(key, value);
    assert(key.push(0x3d) + value =~= key + seq![0x3du8] + value);
    crate::fields::lemma_first_behind(key, 0x3d, value);
}

} // verus!
