//! One filter over text somebody else chose, for the two surfaces that print it: the label
//! column of a listing and the lines of a journal.
use vstd::prelude::*;
use vstd::utf8::encode_utf8;

use crate::text::{
    byte_len, chars_of, cut, cut_to, decimal, digits, is_digit, is_space, lemma_byte_len,
    lemma_cut, lemma_digits_spell, put, text_of, trim, trim_end, trim_start, trimmed,
    trimming_takes_what_surrounds,
};

verus! {

/// Longest label written to `<id>.label`, in bytes.
pub const MAX_LABEL_LEN: usize = 256;

/// Longest line handed to the journal, in bytes.
pub const MAX_LINE_LEN: usize = 2048;

/// Priority of a failure in the journal: `user.err`.
pub const PRIORITY_ERROR: u8 = 11;

/// Priority of a remark in the journal: `user.info`.
pub const PRIORITY_INFO: u8 = 14;

/// The characters that can forge terminal layout or render invisibly.
///
/// The two joiners are not among them, because they are part of ordinary emoji and Indic
/// text. The Hangul fillers are: they draw nothing while occupying a cell.
pub open spec fn deceives(ch: char) -> bool {
    let u = ch as u32;
    // Control characters.
    ||| u <= 0x1f
    ||| 0x7f <= u <= 0x9f
    // And those that only look like nothing.
    ||| u == 0xad
    ||| u == 0x61c
    ||| 0x115f <= u <= 0x1160
    ||| u == 0x180e
    ||| u == 0x200b
    ||| u == 0x200e
    ||| u == 0x200f
    ||| 0x2028 <= u <= 0x202e
    ||| 0x2060 <= u <= 0x2064
    ||| 0x2066 <= u <= 0x206f
    ||| u == 0x3164
    ||| u == 0xffa0
    ||| u == 0xfeff
    ||| 0xe0000 <= u <= 0xe007f
}

/// A text without its deceptive characters, everything else in its place.
pub open spec fn clean(text: Seq<char>) -> Seq<char> {
    text.filter(|ch: char| !deceives(ch))
}

/// What the label file may hold of a text: cleaned, cut to the bound, and trimmed.
pub open spec fn label_of(text: Seq<char>) -> Seq<char> {
    trim(cut(clean(text), MAX_LABEL_LEN as nat))
}

/// A journal line before it is filtered: the priority, the tag, the session and the
/// message.
pub open spec fn raw_line(
    priority: u8,
    pid: u32,
    session_id: Seq<char>,
    message: Seq<char>,
) -> Seq<char> {
    "<"@ + digits(priority as nat, 10) + ">nomux["@ + digits(pid as nat, 10) + "]: session "@
        + session_id + ": "@ + message
}

/// A journal line: filtered over the whole of it and cut to the bound.
pub open spec fn journal_line(
    priority: u8,
    pid: u32,
    session_id: Seq<char>,
    message: Seq<char>,
) -> Seq<char> {
    cut(clean(raw_line(priority, pid, session_id, message)), MAX_LINE_LEN as nat)
}

/// Whether `ch` can forge terminal layout or render invisibly.
pub fn is_deceptive(ch: char) -> (r: bool)
    ensures
        r == deceives(ch),
{
    let u: u32 = ch as u32;
    u <= 0x1f || (0x7f <= u && u <= 0x9f) || u == 0xad || u == 0x61c || (0x115f <= u && u <= 0x1160)
        || u == 0x180e || u == 0x200b || u == 0x200e || u == 0x200f || (0x2028 <= u && u <= 0x202e)
        || (0x2060 <= u && u <= 0x2064) || (0x2066 <= u && u <= 0x206f) || u == 0x3164 || u
        == 0xffa0 || u == 0xfeff || (0xe0000 <= u && u <= 0xe007f)
}

/// The characters of `chars` that deceive nobody.
fn cleaned(chars: &[char]) -> (r: Vec<char>)
    ensures
        r@ == clean(chars@),
{
    let mut out: Vec<char> = Vec::new();
    let mut i: usize = 0;
    proof {
        reveal(Seq::filter);
    }
    while i < chars.len()
        invariant
            i <= chars@.len(),
            out@ == clean(chars@.take(i as int)),
        decreases chars@.len() - i,
    {
        let ch: char = chars[i];
        proof {
            reveal(Seq::filter);
            assert(chars@.take(i + 1).drop_last() =~= chars@.take(i as int));
        }
        if !is_deceptive(ch) {
            out.push(ch);
        }
        i += 1;
    }
    assert(chars@.take(chars@.len() as int) =~= chars@);
    out
}

/// Drops every character that would let text say one thing and mean another once a
/// terminal draws it.
pub fn sanitize_text(text: &str) -> (r: String)
    ensures
        r@ == clean(text@),
{
    let chars: Vec<char> = chars_of(text);
    let kept: Vec<char> = cleaned(chars.as_slice());
    text_of(kept.as_slice())
}

/// Trims a client-supplied label to what the frozen layout permits: one line of printable
/// text, at most [`MAX_LABEL_LEN`] bytes.
pub fn sanitize_label(label: &str) -> (r: String)
    ensures
        r@ == label_of(label@),
{
    let chars: Vec<char> = chars_of(label);
    let kept: Vec<char> = cleaned(chars.as_slice());
    text_of(trimmed(cut_to(kept.as_slice(), MAX_LABEL_LEN)))
}

/// Assembles the bounded line the journal is sent, filtered over the whole of it rather
/// than over the message alone: the text beside a session id usually carries a path
/// somebody else chose, and the id is not always validated either.
pub fn format_line(priority: u8, pid: u32, session_id: &str, message: &str) -> (r: String)
    ensures
        r@ == journal_line(priority, pid, session_id@, message@),
        r@ == cut(clean(raw_line(priority, pid, session_id@, message@)), MAX_LINE_LEN as nat),
        byte_len(r@) <= MAX_LINE_LEN,
{
    let mut line: String = String::new();
    put(&mut line, "<");
    put(&mut line, decimal(priority as u64).as_str());
    put(&mut line, ">nomux[");
    put(&mut line, decimal(pid as u64).as_str());
    put(&mut line, "]: session ");
    put(&mut line, session_id);
    put(&mut line, ": ");
    put(&mut line, message);
    assert(line@ =~= raw_line(priority, pid, session_id@, message@));
    let chars: Vec<char> = chars_of(line.as_str());
    let kept: Vec<char> = cleaned(chars.as_slice());
    text_of(cut_to(kept.as_slice(), MAX_LINE_LEN))
}

// ---------------------------------------------------------------------------
// Laws
// ---------------------------------------------------------------------------

/// A text with nothing deceptive in it passes through unchanged.
pub(crate) proof fn lemma_clean_is_kept(text: Seq<char>)
    requires
        forall|i: int| 0 <= i < text.len() ==> !deceives(#[trigger] text[i]),
    ensures
        clean(text) == text,
    decreases text.len(),
{
    reveal(Seq::filter);
    if text.len() > 0 {
        assert forall|i: int| 0 <= i < text.drop_last().len() implies !deceives(
            #[trigger] text.drop_last()[i],
        ) by {
            assert(!deceives(text[i]));
        }
        lemma_clean_is_kept(text.drop_last());
        assert(text.drop_last().push(text.last()) =~= text);
    }
}

/// What comes through the filter holds nothing deceptive.
pub proof fn nothing_deceptive_survives(text: Seq<char>)
    ensures
        forall|i: int| 0 <= i < clean(text).len() ==> !deceives(#[trigger] clean(text)[i]),
{
    broadcast use vstd::seq_lib::group_filter_ensures;

}

/// Filtering twice is filtering once.
pub proof fn filtering_is_idempotent(text: Seq<char>)
    ensures
        clean(clean(text)) == clean(text),
{
    nothing_deceptive_survives(text);
    lemma_clean_is_kept(clean(text));
}

/// What trimming leaves begins and ends with something that is not white space, and is a
/// piece of what it was trimmed from.
proof fn lemma_trim(s: Seq<char>)
    ensures
        trim(s).len() > 0 ==> !is_space(trim(s)[0]) && !is_space(trim(s).last()),
        exists|a: int, b: int| 0 <= a <= b <= s.len() && trim(s) == #[trigger] s.subrange(a, b),
{
    lemma_trim_start(s);
    let a = choose|a: int| 0 <= a <= s.len() && trim_start(s) == #[trigger] s.subrange(a, s.len() as int);
    let t = trim_start(s);
    lemma_trim_end(t);
    let b = choose|b: int| 0 <= b <= t.len() && trim_end(t) == #[trigger] t.subrange(0, b);
    assert(t.subrange(0, b) =~= s.subrange(a, a + b));
    if trim(s).len() > 0 {
        assert(trim(s)[0] == t[0]);
    }
}

proof fn lemma_trim_start(s: Seq<char>)
    ensures
        trim_start(s).len() > 0 ==> !is_space(trim_start(s)[0]),
        exists|a: int| 0 <= a <= s.len() && trim_start(s) == #[trigger] s.subrange(a, s.len() as int),
    decreases s.len(),
{
    if s.len() > 0 && is_space(s[0]) {
        let t = s.drop_first();
        lemma_trim_start(t);
        let a = choose|a: int| 0 <= a <= t.len() && trim_start(t) == #[trigger] t.subrange(a, t.len() as int);
        assert(t.subrange(a, t.len() as int) =~= s.subrange(a + 1, s.len() as int));
    } else {
        assert(s.subrange(0, s.len() as int) =~= s);
    }
}

proof fn lemma_trim_end(s: Seq<char>)
    ensures
        trim_end(s).len() > 0 ==> !is_space(trim_end(s).last()),
        exists|b: int| 0 <= b <= s.len() && trim_end(s) == #[trigger] s.subrange(0, b),
    decreases s.len(),
{
    if s.len() > 0 && is_space(s.last()) {
        let t = s.drop_last();
        lemma_trim_end(t);
        let b = choose|b: int| 0 <= b <= t.len() && trim_end(t) == #[trigger] t.subrange(0, b);
        assert(t.subrange(0, b) =~= s.subrange(0, b));
    } else {
        assert(s.subrange(0, s.len() as int) =~= s);
    }
}

/// A label is within its bound, draws no control and no forgery, and has no white space
/// around it.
pub proof fn labels_are_what_the_layout_permits(text: Seq<char>)
    ensures
        byte_len(label_of(text)) <= MAX_LABEL_LEN,
        forall|i: int| 0 <= i < label_of(text).len() ==> !deceives(#[trigger] label_of(text)[i]),
        label_of(text).len() > 0 ==> !is_space(label_of(text)[0]) && !is_space(
            label_of(text).last(),
        ),
{
    let kept = clean(text);
    let short = cut(kept, MAX_LABEL_LEN as nat);
    nothing_deceptive_survives(text);
    lemma_cut(kept, MAX_LABEL_LEN as nat);
    lemma_trim(short);
    let (a, b) = choose|a: int, b: int|
        0 <= a <= b <= short.len() && trim(short) == #[trigger] short.subrange(a, b);
    lemma_piece_is_no_longer(short, a, b);
    assert forall|i: int| 0 <= i < label_of(text).len() implies !deceives(
        #[trigger] label_of(text)[i],
    ) by {
        assert(label_of(text)[i] == kept[a + i]);
    }
}

/// A piece of a text takes no more bytes than the text.
proof fn lemma_piece_is_no_longer(s: Seq<char>, a: int, b: int)
    requires
        0 <= a <= b <= s.len(),
    ensures
        byte_len(s.subrange(a, b)) <= byte_len(s),
    decreases s.len() + (b - a),
{
    if b < s.len() {
        lemma_piece_is_no_longer(s.drop_last(), a, b);
        assert(s.drop_last().subrange(a, b) =~= s.subrange(a, b));
    } else if a < b {
        lemma_piece_is_no_longer(s.drop_last(), a, b - 1);
        assert(s.subrange(a, b).drop_last() =~= s.drop_last().subrange(a, b - 1));
        assert(s.subrange(a, b).last() == s.last());
    }
}

/// A label read back is the label that was written: what is already a label is left as
/// it is.
pub proof fn labels_read_back_as_written(text: Seq<char>)
    ensures
        label_of(label_of(text)) == label_of(text),
{
    let label = label_of(text);
    labels_are_what_the_layout_permits(text);
    lemma_clean_is_kept(label);
    lemma_cut(label, MAX_LABEL_LEN as nat);
}

/// What a log line loses is what a label loses: over a text that is within the label's
/// bound and has no white space around what is left of it, the two filters agree.
pub proof fn one_filter_for_both_surfaces(text: Seq<char>)
    requires
        byte_len(clean(text)) <= MAX_LABEL_LEN,
        clean(text).len() > 0 ==> !is_space(clean(text)[0]) && !is_space(clean(text).last()),
    ensures
        label_of(text) == clean(text),
{
    lemma_cut(clean(text), MAX_LABEL_LEN as nat);
}

/// The filter takes no visible text: it drops the control characters and the code points
/// that draw nothing or change the direction of what is around them, these and no others.
pub proof fn visible_text_is_kept(ch: char)
    ensures
        ({
            let u = ch as u32;
            let control = u <= 0x1f || 0x7f <= u <= 0x9f;
            let soft_hyphen = u == 0xad;
            let direction = u == 0x61c || u == 0x200e || u == 0x200f || 0x202a <= u <= 0x202e
                || 0x2066 <= u <= 0x2069;
            let filler = u == 0x115f || u == 0x1160 || u == 0x3164 || u == 0xffa0;
            let invisible = u == 0x180e || u == 0x200b || u == 0xfeff || 0x2060 <= u <= 0x2064;
            let separator = u == 0x2028 || u == 0x2029;
            let deprecated = 0x206a <= u <= 0x206f;
            let tag = 0xe0000 <= u <= 0xe007f;
            deceives(ch) <==> control || soft_hyphen || direction || filler || invisible
                || separator || deprecated || tag
        }),
{
}

/// A text is visible where none of it is one of those.
pub open spec fn visible(text: Seq<char>) -> bool {
    forall|i: int| 0 <= i < text.len() ==> {
        let u = (#[trigger] text[i]) as u32;
        &&& u > 0x1f
        &&& !(0x7f <= u <= 0x9f)
        &&& u != 0xad
        &&& u != 0x61c
        &&& u != 0x115f
        &&& u != 0x1160
        &&& u != 0x180e
        &&& u != 0x200b
        &&& u != 0x200e
        &&& u != 0x200f
        &&& !(0x2028 <= u <= 0x202e)
        &&& !(0x2060 <= u <= 0x2064)
        &&& !(0x2066 <= u <= 0x206f)
        &&& u != 0x3164
        &&& u != 0xfeff
        &&& u != 0xffa0
        &&& !(0xe0000 <= u <= 0xe007f)
    }
}

/// Visible text comes through the filter as it is, and a label of it that fits and has no
/// white space around it is kept as it was typed.
pub proof fn a_visible_label_is_kept_as_typed(text: Seq<char>)
    requires
        visible(text),
    ensures
        clean(text) == text,
        encode_utf8(text).len() <= 256 && (text.len() > 0 ==> !is_space(text[0]) && !is_space(
            text.last(),
        )) ==> label_of(text) == text,
{
    assert forall|i: int| 0 <= i < text.len() implies !deceives(#[trigger] text[i]) by {}
    lemma_clean_is_kept(text);
    lemma_byte_len(text);
    assert(MAX_LABEL_LEN == 256);
    if byte_len(text) <= 256 {
        lemma_cut(text, 256);
        let none = Seq::<char>::empty();
        assert(none + text + none =~= text);
        if text.len() > 0 ==> !is_space(text[0]) && !is_space(text.last()) {
            trimming_takes_what_surrounds(none, text, none);
        }
    }
}

/// The filter takes characters out and does nothing else: what is behind and what is in
/// front of any place are filtered each for itself, and stay in that order.
pub proof fn the_filter_keeps_the_order(text: Seq<char>, more: Seq<char>)
    ensures
        clean(text + more) == clean(text) + clean(more),
    decreases more.len(),
{
    reveal(Seq::filter);
    if more.len() == 0 {
        assert(text + more =~= text);
        assert(clean(text) + clean(more) =~= clean(text));
    } else {
        assert((text + more).drop_last() =~= text + more.drop_last());
        the_filter_keeps_the_order(text, more.drop_last());
        assert(clean(text + more) =~= clean(text) + clean(more));
    }
}

/// A journal line of visible text that fits says its priority, the process, the session and
/// the message, as they were given.
pub proof fn a_journal_line_says_what_it_was_given(
    priority: u8,
    pid: u32,
    session_id: Seq<char>,
    message: Seq<char>,
)
    requires
        visible(session_id),
        visible(message),
        encode_utf8(
            "<"@ + digits(priority as nat, 10) + ">nomux["@ + digits(pid as nat, 10)
                + "]: session "@ + session_id + ": "@ + message,
        ).len() <= 2048,
    ensures
        journal_line(priority, pid, session_id, message) == "<"@ + digits(priority as nat, 10) + ">nomux["@ + digits(pid as nat, 10) + "]: session "@
            + session_id + ": "@ + message,
{
    let line = "<"@ + digits(priority as nat, 10) + ">nomux["@ + digits(pid as nat, 10)
        + "]: session "@ + session_id + ": "@ + message;
    reveal_strlit("<");
    reveal_strlit(">nomux[");
    reveal_strlit("]: session ");
    reveal_strlit(": ");
    lemma_digits_spell(priority as nat);
    lemma_digits_spell(pid as nat);
    let a = "<"@ + digits(priority as nat, 10);
    let b = a + ">nomux["@ + digits(pid as nat, 10);
    lemma_digits_visible(priority as nat);
    lemma_digits_visible(pid as nat);
    lemma_visible_join("<"@, digits(priority as nat, 10));
    lemma_visible_join(a, ">nomux["@);
    lemma_visible_join(a + ">nomux["@, digits(pid as nat, 10));
    lemma_visible_join(b, "]: session "@);
    lemma_visible_join(b + "]: session "@, session_id);
    lemma_visible_join(b + "]: session "@ + session_id, ": "@);
    lemma_visible_join(b + "]: session "@ + session_id + ": "@, message);
    a_visible_label_is_kept_as_typed(line);
    lemma_byte_len(line);
    lemma_cut(line, 2048);
    assert(MAX_LINE_LEN == 2048);
}

/// Digits are visible.
proof fn lemma_digits_visible(n: nat)
    ensures
        visible(digits(n, 10)),
{
    lemma_digits_spell(n);
    let d = digits(n, 10);
    assert forall|i: int| 0 <= i < d.len() implies 0x30 <= (#[trigger] d[i]) as u32 <= 0x39 by {
        assert(is_digit(d[i]));
    }
}

/// Two visible texts are one.
proof fn lemma_visible_join(a: Seq<char>, b: Seq<char>)
    requires
        visible(a),
        visible(b),
    ensures
        visible(a + b),
{
    assert forall|i: int| 0 <= i < (a + b).len() implies (#[trigger] (a + b)[i]) == if i < a.len() {
        a[i]
    } else {
        b[i - a.len()]
    } by {}
}

/// What is dropped costs no room: a label and a journal line are what they would be had
/// nothing deceptive been in them.
pub proof fn what_is_dropped_costs_no_room(
    text: Seq<char>,
    priority: u8,
    pid: u32,
    session_id: Seq<char>,
    message: Seq<char>,
)
    ensures
        label_of(text) == label_of(clean(text)),
        journal_line(priority, pid, session_id, message) == journal_line(
            priority,
            pid,
            clean(session_id),
            clean(message),
        ),
        encode_utf8(journal_line(priority, pid, session_id, message)).len() <= 2048,
{
    filtering_is_idempotent(text);
    filtering_is_idempotent(session_id);
    filtering_is_idempotent(message);
    let head = "<"@ + digits(priority as nat, 10) + ">nomux["@ + digits(pid as nat, 10)
        + "]: session "@;
    the_filter_keeps_the_order(head, session_id);
    the_filter_keeps_the_order(head, clean(session_id));
    the_filter_keeps_the_order(head + session_id, ": "@);
    the_filter_keeps_the_order(head + clean(session_id), ": "@);
    the_filter_keeps_the_order(head + session_id + ": "@, message);
    the_filter_keeps_the_order(head + clean(session_id) + ": "@, clean(message));
    let line = clean(raw_line(priority, pid, session_id, message));
    lemma_cut(line, MAX_LINE_LEN as nat);
    lemma_byte_len(cut(line, MAX_LINE_LEN as nat));
    assert(MAX_LINE_LEN == 2048);
}

} // verus!
