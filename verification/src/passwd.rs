//! The two fields of the password database a session needs: the user's name and their login
//! shell.
use vstd::prelude::*;
use vstd::utf8::{decode_utf8, encode_utf8, valid_utf8};

use crate::fields::{
    a_separator_cuts, copy_bytes, joined, lemma_joined, lemma_joined_ends, pieces, rows, split,
};
use crate::text::{
    decoded_chars, digits, numbers_read_back, parse_unsigned, text_of, unsigned,
};

verus! {

/// The fields of one line that anything here cares about.
#[derive(Debug)]
pub struct Entry {
    /// Login name.
    pub name: String,
    /// Login shell, absent when the field is empty.
    pub shell: Option<Vec<u8>>,
}

/// What an [`Entry`] holds.
#[verifier::ext_equal]
pub struct EntryModel {
    pub name: Seq<char>,
    pub shell: Option<Seq<u8>>,
}

impl View for Entry {
    type V = EntryModel;

    open spec fn view(&self) -> EntryModel {
        EntryModel {
            name: self.name@,
            shell: match self.shell {
                Some(shell) => Some(shell@),
                None => None,
            },
        }
    }
}

/// A line without the carriage return a CRLF-written file leaves behind it.
pub open spec fn without_return(line: Seq<u8>) -> Seq<u8> {
    if line.len() > 0 && line.last() == 0x0d {
        line.drop_last()
    } else {
        line
    }
}

/// What one line says of `uid`, where it is that user's and well-formed: the name is the
/// first field, the number the third, and the shell the seventh.
pub open spec fn entry_in(line: Seq<u8>, uid: u32) -> Option<EntryModel> {
    let fields = pieces(without_return(line), 0x3a);
    if fields.len() < 3 || !valid_utf8(fields[2]) || unsigned(decode_utf8(fields[2])) != Some(
        uid as nat,
    ) || !valid_utf8(fields[0]) || decode_utf8(fields[0]).len() == 0 {
        None
    } else {
        Some(
            EntryModel {
                name: decode_utf8(fields[0]),
                shell: if fields.len() > 6 && fields[6].len() > 0 {
                    Some(fields[6])
                } else {
                    None
                },
            },
        )
    }
}

/// What the first line that says anything of `uid` says, from the `at`th on.
pub open spec fn first_entry(lines: Seq<Seq<u8>>, at: nat, uid: u32) -> Option<EntryModel>
    decreases lines.len() - at,
{
    if at >= lines.len() {
        None
    } else {
        match entry_in(lines[at as int], uid) {
            Some(entry) => Some(entry),
            None => first_entry(lines, at + 1, uid),
        }
    }
}

/// What a password database says of `uid`.
pub open spec fn found(contents: Seq<u8>, uid: u32) -> Option<EntryModel> {
    first_entry(pieces(contents, 0x0a), 0, uid)
}

/// `r` is the entry that `says`.
pub open spec fn entry_is(r: Option<Entry>, says: Option<EntryModel>) -> bool {
    match (r, says) {
        (Some(entry), Some(model)) => entry@ == model,
        (None, None) => true,
        _ => false,
    }
}

/// What one line says of `uid`.
///
/// Strict about the number: reading a malformed one as zero would hand root the broken
/// line. The name is decoded after the number has matched, so that one this program cannot
/// represent disqualifies at most the line carrying it.
fn entry_of(line: &[u8], uid: u32) -> (r: Option<Entry>)
    ensures
        entry_is(r, entry_in(line@, uid)),
{
    let len: usize = line.len();
    let end: usize = if len > 0 && line[len - 1] == 0x0d {
        len - 1
    } else {
        len
    };
    let bare: &[u8] = vstd::slice::slice_subrange(line, 0, end);
    assert(bare@ =~= without_return(line@));
    let fields: Vec<Vec<u8>> = split(bare, 0x3a);
    let ghost cut = rows(fields@);
    assert(cut.len() == fields@.len());
    if fields.len() < 3 {
        return None;
    }
    assert(cut[0] == fields@[0]@ && cut[2] == fields@[2]@);
    let number: Vec<char> = match decoded_chars(fields[2].as_slice()) {
        Some(number) => number,
        None => {
            return None;
        },
    };
    match parse_unsigned(number.as_slice(), u32::MAX as u64) {
        Some(n) if n == uid as u64 => {},
        _ => {
            return None;
        },
    }
    let name: Vec<char> = match decoded_chars(fields[0].as_slice()) {
        Some(name) => name,
        None => {
            return None;
        },
    };
    if name.len() == 0 {
        return None;
    }
    let shell: Option<Vec<u8>> = if fields.len() > 6 && fields[6].len() > 0 {
        assert(cut[6] == fields@[6]@);
        Some(copy_bytes(fields[6].as_slice()))
    } else {
        None
    };
    proof {
        if fields@.len() > 6 {
            assert(cut[6] == fields@[6]@);
        }
    }
    Some(Entry { name: text_of(name.as_slice()), shell })
}

/// Finds the first entry for `uid` in the contents of a password file.
///
/// Parsed as bytes rather than decoded first: the file has a field structure but no
/// encoding, and one field written in another would fail a decode of the whole of it.
/// Malformed lines are skipped rather than rejected.
pub fn lookup(contents: &[u8], uid: u32) -> (r: Option<Entry>)
    ensures
        entry_is(r, found(contents@, uid)),
{
    let lines: Vec<Vec<u8>> = split(contents, 0x0a);
    let ghost all = rows(lines@);
    let mut at: usize = 0;
    while at < lines.len()
        invariant
            at <= lines@.len(),
            all == rows(lines@),
            all == pieces(contents@, 0x0a),
            first_entry(all, at as nat, uid) == found(contents@, uid),
        decreases lines@.len() - at,
    {
        assert(all[at as int] == lines@[at as int]@);
        let entry: Option<Entry> = entry_of(lines[at].as_slice(), uid);
        if entry.is_some() {
            return entry;
        }
        at += 1;
    }
    None
}

// ---------------------------------------------------------------------------
// Laws
// ---------------------------------------------------------------------------

/// Looking from the second line on is looking at the lines behind the first.
proof fn lemma_behind_first(line: Seq<u8>, rest: Seq<Seq<u8>>, at: nat, uid: u32)
    requires
        at <= rest.len(),
    ensures
        first_entry(seq![line] + rest, at + 1, uid) == first_entry(rest, at, uid),
    decreases rest.len() - at,
{
    if at < rest.len() {
        assert((seq![line] + rest)[at as int + 1] == rest[at as int]);
        lemma_behind_first(line, rest, at + 1, uid);
    }
}

/// A line that says nothing of a user, malformed or not, costs that user nothing.
pub proof fn a_bad_line_hides_nobody(line: Seq<u8>, rest: Seq<Seq<u8>>, uid: u32)
    requires
        entry_in(line, uid) is None,
    ensures
        first_entry(seq![line] + rest, 0, uid) == first_entry(rest, 0, uid),
{
    assert((seq![line] + rest)[0] == line);
    lemma_behind_first(line, rest, 0, uid);
}

/// A field that is no number is nobody's, root's least of all.
pub proof fn a_malformed_number_is_nobodys(line: Seq<u8>, uid: u32)
    requires
        ({
            let fields = pieces(without_return(line), 0x3a);
            fields.len() >= 3 && (!valid_utf8(fields[2]) || unsigned(decode_utf8(fields[2])) is None)
        }),
    ensures
        entry_in(line, uid) is None,
{
}

/// A line of a password file is its user's and nobody else's: the first of seven fields is
/// the name and the last the shell, where there is one, whatever stands in between; and a
/// carriage return behind it changes nothing.
pub proof fn a_line_is_its_users(
    name: Seq<char>,
    secret: Seq<u8>,
    number: u32,
    group: Seq<u8>,
    about: Seq<u8>,
    home: Seq<u8>,
    shell: Seq<u8>,
    uid: u32,
)
    requires
        name.len() > 0,
        ({
            let fields = seq![
                encode_utf8(name),
                secret,
                encode_utf8(digits(number as nat, 10)),
                group,
                about,
                home,
                shell,
            ];
            forall|i: int| 0 <= i < 7 ==> !(#[trigger] fields[i]).contains(0x3au8)
        }),
        shell.len() > 0 ==> shell.last() != 0x0d,
    ensures
        ({
            let line = joined(
                seq![
                    encode_utf8(name),
                    secret,
                    encode_utf8(digits(number as nat, 10)),
                    group,
                    about,
                    home,
                    shell,
                ],
                0x3a,
            );
            let says = if uid != number {
                None
            } else {
                Some(
                    EntryModel {
                        name,
                        shell: if shell.len() > 0 {
                            Some(shell)
                        } else {
                            None
                        },
                    },
                )
            };
            &&& entry_in(line, uid) == says
            &&& entry_in(line.push(0x0d), uid) == says
        }),
{
    let number_text = digits(number as nat, 10);
    let fields = seq![
        encode_utf8(name),
        secret,
        encode_utf8(number_text),
        group,
        about,
        home,
        shell,
    ];
    let line = joined(fields, 0x3a);
    lemma_joined(fields, 0x3a);
    lemma_joined_ends(fields, 0x3a);
    vstd::utf8::encode_utf8_valid_utf8(name);
    vstd::utf8::encode_utf8_decode_utf8(name);
    vstd::utf8::encode_utf8_valid_utf8(number_text);
    vstd::utf8::encode_utf8_decode_utf8(number_text);
    numbers_read_back(number as nat);
    assert(without_return(line) =~= line);
    assert(without_return(line.push(0x0d)) =~= line);
}

/// The first line that is a user's is the one that counts, and the lines of others are passed
/// over.
pub proof fn the_first_line_of_a_user_counts(line: Seq<u8>, rest: Seq<u8>, uid: u32)
    requires
        !line.contains(0x0au8),
    ensures
        entry_in(line, uid) is Some ==> found(line + seq![0x0au8] + rest, uid) == entry_in(
            line,
            uid,
        ),
        entry_in(line, uid) is None ==> found(line + seq![0x0au8] + rest, uid) == found(rest, uid),
        found(line, uid) == entry_in(line, uid),
{
    a_separator_cuts(line, 0x0a, rest);
    let lines = seq![line] + pieces(rest, 0x0a);
    assert(lines[0] == line);
    if entry_in(line, uid) is None {
        a_bad_line_hides_nobody(line, pieces(rest, 0x0a), uid);
    }
    reveal_with_fuel(first_entry, 2);
    assert(seq![line][0] == line);
}

} // verus!
