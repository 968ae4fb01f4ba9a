//! The command line a spawn starts its daemon with.
use vstd::prelude::*;
use vstd::utf8::{decode_utf8, encode_utf8, valid_utf8};

use crate::args::{behind, ArgsModel};
use crate::rundir::is_id;
use crate::sanitize::{a_visible_label_is_kept_as_typed, label_of, sanitize_label, visible};
use crate::text::{
    chars_of, copy_text, integer, is_space, numbers_read_back, signed_decimal, signed_digits,
};

verus! {

/// The texts in a row of them.
pub open spec fn words(v: Seq<String>) -> Seq<Seq<char>> {
    Seq::new(v.len(), |i: int| v[i]@)
}

/// The label a daemon is started with: cut and stripped on this side of the exec, because
/// the daemon records what it is given, and left out where nothing is left of it.
pub open spec fn label_for(label: Option<Seq<char>>) -> Option<Seq<char>> {
    match label {
        Some(label) => if label_of(label).len() > 0 {
            Some(label_of(label))
        } else {
            None
        },
        None => None,
    }
}

/// What stands behind the program's name: the mode, the id, the lock's descriptor, and the
/// label where there is one.
pub open spec fn daemon_line(id: Seq<char>, label: Option<Seq<char>>, lock_fd: i32) -> Seq<
    Seq<char>,
> {
    let line = seq!["daemon"@, id, "--lock-fd"@, signed_digits(lock_fd as int)];
    match label_for(label) {
        Some(label) => line + seq!["--label"@, label],
        None => line,
    }
}

/// The arguments a daemon for `session_id` is started with.
pub fn daemon_args(session_id: &str, label: Option<&str>, lock_fd: i32) -> (r: Vec<String>)
    ensures
        words(r@) == daemon_line(
            session_id@,
            match label {
                Some(label) => Some(label@),
                None => None,
            },
            lock_fd,
        ),
{
    let mut line: Vec<String> = Vec::new();
    line.push(copy_text("daemon"));
    line.push(copy_text(session_id));
    line.push(copy_text("--lock-fd"));
    line.push(signed_decimal(lock_fd));
    let ghost plain = line@;
    assert(words(plain) =~= seq![
        "daemon"@,
        session_id@,
        "--lock-fd"@,
        signed_digits(lock_fd as int),
    ]);
    if let Some(label) = label {
        let label: String = sanitize_label(label);
        let chars: Vec<char> = chars_of(label.as_str());
        if chars.len() > 0 {
            line.push(copy_text("--label"));
            line.push(label);
            assert(words(line@) =~= words(plain) + seq!["--label"@, label@]);
        }
    }
    line
}

/// The bytes of several texts.
pub open spec fn encoded(v: Seq<Seq<char>>) -> Seq<Seq<u8>> {
    Seq::new(v.len(), |i: int| encode_utf8(v[i]))
}

/// A text is what its bytes decode to.
pub(crate) proof fn lemma_reads(text: Seq<char>)
    ensures
        valid_utf8(encode_utf8(text)),
        decode_utf8(encode_utf8(text)) == text,
{
    vstd::utf8::encode_utf8_valid_utf8(text);
    vstd::utf8::encode_utf8_decode_utf8(text);
}

/// The bare options are not spelled with a value.
pub(crate) proof fn lemma_bare_options()
    ensures
        behind("--lock-fd"@, "--lock-fd="@) is None,
        behind("--lock-fd"@, "--label="@) is None,
        behind("--label"@, "--lock-fd="@) is None,
        behind("--label"@, "--label="@) is None,
        "--label"@ != "--lock-fd"@,
{
    reveal_strlit("--lock-fd");
    reveal_strlit("--lock-fd=");
    reveal_strlit("--label");
    reveal_strlit("--label=");
    let head = "--lock-fd"@.take(8);
    assert(head[2] == 'l' && head[3] == 'o');
    assert("--label="@[3] == 'a');
    assert(head != "--label="@);
}

/// An id is none of the options.
pub(crate) proof fn lemma_id_is_no_option(id: Seq<char>)
    requires
        is_id(id),
    ensures
        behind(id, "--lock-fd="@) is None,
        behind(id, "--label="@) is None,
        id != "--lock-fd"@,
        id != "--label"@,
        id[0] != '-',
{
    reveal_strlit("--lock-fd");
    reveal_strlit("--lock-fd=");
    reveal_strlit("--label");
    reveal_strlit("--label=");
    assert("--lock-fd="@[0] == '-');
    assert("--label="@[0] == '-');
    if id.len() >= "--lock-fd="@.len() {
        assert(id.take("--lock-fd="@.len() as int)[0] == id[0]);
    }
    if id.len() >= "--label="@.len() {
        assert(id.take("--label="@.len() as int)[0] == id[0]);
    }
}

/// A daemon reads back what it was started with: the session it is to own, the descriptor
/// of the lock it was handed, and the label it is to record.
pub proof fn a_daemon_reads_its_own_command_line(
    id: Seq<char>,
    label: Option<Seq<char>>,
    lock_fd: i32,
)
    requires
        is_id(id),
        lock_fd > 2,
    ensures
        ArgsModel::empty().parsed(encoded(daemon_line(id, label, lock_fd)).skip(1), 0, true)
            == Ok::<ArgsModel, Seq<char>>(
            ArgsModel { session: Some(id), label: label_for(label), lock_fd: Some(lock_fd) },
        ),
{
    let line = daemon_line(id, label, lock_fd);
    let args = encoded(line).skip(1);
    let number = signed_digits(lock_fd as int);
    numbers_read_back(lock_fd as nat);
    assert(integer(number) == Some(lock_fd as int));
    lemma_bare_options();
    lemma_id_is_no_option(id);
    lemma_reads(id);
    lemma_reads("--lock-fd"@);
    lemma_reads(number);
    assert(args[0] == encode_utf8(id));
    assert(args[1] == encode_utf8("--lock-fd"@));
    assert(args[2] == encode_utf8(number));
    let named = ArgsModel { session: Some(id), ..ArgsModel::empty() };
    let locked = ArgsModel { lock_fd: Some(lock_fd), ..named };
    assert(ArgsModel::empty().parsed(args, 0, true) == named.parsed(args, 1, true));
    assert(named.with_lock_fd(number) == Ok::<ArgsModel, Seq<char>>(locked));
    assert(named.parsed(args, 1, true) == locked.parsed(args, 3, true));
    if let Some(label) = label_for(label) {
        lemma_reads("--label"@);
        lemma_reads(label);
        assert(args[3] == encode_utf8("--label"@));
        assert(args[4] == encode_utf8(label));
        let whole = ArgsModel { label: Some(label), ..locked };
        assert(locked.with_label(label) == Ok::<ArgsModel, Seq<char>>(whole));
        assert(locked.parsed(args, 3, true) == whole.parsed(args, 5, true));
        assert(whole.parsed(args, 5, true) == Ok::<ArgsModel, Seq<char>>(whole));
    } else {
        assert(locked.parsed(args, 3, true) == Ok::<ArgsModel, Seq<char>>(locked));
    }
}

/// A visible label that fits reaches the daemon as it was typed, and one with nothing left of
/// it is left out.
pub proof fn a_label_reaches_the_daemon(label: Seq<char>)
    requires
        visible(label),
        label.len() > 0,
        encode_utf8(label).len() <= 256,
        !is_space(label[0]),
        !is_space(label.last()),
    ensures
        label_for(Some(label)) == Some(label),
        label_for(None) is None,
        label_for(Some(Seq::empty())) is None,
{
    a_visible_label_is_kept_as_typed(label);
    let none = Seq::<char>::empty();
    vstd::utf8::encode_utf8_valid_utf8(none);
    crate::text::lemma_byte_len(none);
    a_visible_label_is_kept_as_typed(none);
}

} // verus!
