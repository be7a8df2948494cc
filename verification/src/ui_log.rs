//! Frontend diagnostics on stderr, made safe to print.
//!
//! The text comes from the webview and lands in someone's terminal, so
//! control characters are stripped (no ANSI escapes can be injected) and the
//! length is capped.

use vstd::prelude::*;

use crate::text::chars_of;

verus! {

/// At most this many characters of a frontend message are printed.
pub const UI_LOG_MAX_CHARS: usize = 500;

/// Unicode general category Cc ("control"), which is what `char::is_control`
/// tests: U+0000..=U+001F and U+007F..=U+009F.
pub open spec fn is_control_code(c: char) -> bool {
    (c as u32) <= 0x1F || (0x7F <= (c as u32) && (c as u32) <= 0x9F)
}

/// At most the first `UI_LOG_MAX_CHARS` characters of `chars`.
pub open spec fn capped(chars: Seq<char>) -> Seq<char> {
    if chars.len() <= UI_LOG_MAX_CHARS {
        chars
    } else {
        chars.take(UI_LOG_MAX_CHARS as int)
    }
}

/// The printable form of a frontend message: its non-control characters,
/// in order, cut after `UI_LOG_MAX_CHARS` of them.
pub open spec fn sanitized(message: Seq<char>) -> Seq<char> {
    capped(message.filter(|c: char| !is_control_code(c)))
}

/// Whether `c` is a control character (category Cc).
pub fn is_control(c: char) -> (control: bool)
    ensures
        control == is_control_code(c),
{
    let code = c as u32;
    code <= 0x1F || (0x7F <= code && code <= 0x9F)
}

/// Appends one character to a string, by std's `String::push`, which the
/// standard library documents as appending the given char to the end of the
/// string.
#[verifier::external_body]
fn push_char(s: &mut String, c: char)
    ensures
        final(s)@ == old(s)@.push(c),
{
    s.push(c)
}

/// Strips control characters from a frontend message and caps its length,
/// so it cannot inject terminal escapes.
pub fn sanitize_log_message(message: &str) -> (safe: String)
    ensures
        safe@ == sanitized(message@),
{
    let chars = chars_of(message);
    let ghost keep = |c: char| !is_control_code(c);
    let mut safe = String::new();
    let mut kept: usize = 0;
    let mut i: usize = 0;
    while i < chars.len()
        invariant
            chars@ == message@,
            keep == (|c: char| !is_control_code(c)),
            0 <= i <= chars.len(),
            safe@ == capped(chars@.take(i as int).filter(keep)),
            kept == safe@.len(),
        decreases chars.len() - i,
    {
        let c = chars[i];
        let ghost before = chars@.take(i as int);
        assert(chars@.take(i + 1) == before.push(c));
        proof {
            before.lemma_filter_push(c, keep);
        }
        if !is_control(c) {
            if kept < UI_LOG_MAX_CHARS {
                push_char(&mut safe, c);
                kept = kept + 1;
                assert(safe@ =~= capped(before.filter(keep).push(c)));
            } else {
                assert(capped(before.filter(keep).push(c)) =~= capped(before.filter(keep)));
            }
        }
        i = i + 1;
    }
    assert(chars@.take(chars.len() as int) =~= message@);
    safe
}

/// Keeping every character of a sequence with no control characters leaves
/// it unchanged.
proof fn lemma_filter_keeps_clean(chars: Seq<char>)
    requires
        forall|i: int| 0 <= i < chars.len() ==> !is_control_code(#[trigger] chars[i]),
    ensures
        chars.filter(|c: char| !is_control_code(c)) == chars,
    decreases chars.len(),
{
    broadcast use Seq::lemma_filter_push;

    if chars.len() > 0 {
        let prefix = chars.drop_last();
        assert(forall|i: int| 0 <= i < prefix.len() ==> prefix[i] == chars[i]);
        lemma_filter_keeps_clean(prefix);
        assert(prefix.push(chars.last()) =~= chars);
    }
}

/// A sanitized message holds no control character and at most
/// `UI_LOG_MAX_CHARS` characters; sanitizing it again changes nothing; and a
/// message that was already clean and short is printed as it is.
pub proof fn lemma_sanitized_is_clean(message: Seq<char>)
    ensures
        sanitized(message).len() <= UI_LOG_MAX_CHARS,
        forall|i: int| 0 <= i < sanitized(message).len() ==> !is_control_code(#[trigger] sanitized(message)[i]),
        sanitized(sanitized(message)) == sanitized(message),
        (forall|i: int| 0 <= i < message.len() ==> !is_control_code(#[trigger] message[i]))
            && message.len() <= UI_LOG_MAX_CHARS ==> sanitized(message) == message,
{
    broadcast use Seq::lemma_filter_pred;

    let keep = |c: char| !is_control_code(c);
    let kept = message.filter(keep);
    assert forall|i: int| 0 <= i < sanitized(message).len() implies !is_control_code(#[trigger] sanitized(message)[i]) by {
        assert(sanitized(message)[i] == kept[i]);
        assert(keep(kept[i]));
    }
    lemma_filter_keeps_clean(sanitized(message));
    if (forall|i: int| 0 <= i < message.len() ==> !is_control_code(#[trigger] message[i])) {
        lemma_filter_keeps_clean(message);
    }
}

/// Whether a character is a C0 control (U+0000..=U+001F), DEL (U+007F) or
/// a C1 control (U+0080..=U+009F).
pub open spec fn in_control_ranges(c: char) -> bool {
    (c as u32) < 0x20 || (0x7F <= (c as u32) && (c as u32) < 0xA0)
}

/// Exactly the C0 controls, DEL and the C1 controls are stripped; every
/// other character (letters, CJK, emoji, ...) is kept. A message free of
/// those characters and no longer than `UI_LOG_MAX_CHARS` is printed as it
/// is, and the printed text is never longer than the number of kept
/// characters.
pub proof fn lemma_only_controls_are_stripped(message: Seq<char>)
    ensures
        forall|c: char| is_control_code(c) <==> in_control_ranges(c),
        (forall|i: int| 0 <= i < message.len() ==> !in_control_ranges(#[trigger] message[i]))
            && message.len() <= UI_LOG_MAX_CHARS ==> sanitized(message) == message,
        forall|i: int| 0 <= i < sanitized(message).len() ==> !in_control_ranges(#[trigger] sanitized(message)[i]),
{
    lemma_sanitized_is_clean(message);
}

} // verus!
