use vstd::prelude::*;

verus! {

/// The visible length that the escape-aware scanner reports for a string:
/// the length of its text outside ANSI escape sequences.
pub uninterp spec fn ansi_len_of(s: Seq<char>) -> nat;

/// The escape-aware slice of a string: the text of the visible range
/// together with the string's escape sequences.
pub uninterp spec fn ansi_slice_of(s: Seq<char>, start: int, end: int) -> Seq<char>;

/// Relies on antsy::AnsiStr::len: the length of the parsed string outside
/// escape sequences, a function of the string alone. The parser builds its
/// segment ranges from character positions and slices the string with them
/// as byte offsets, so the string must be ASCII: on any other input the
/// slice falls mid-codepoint.
#[verifier::external_body]
pub(crate) fn ansi_visible_len(s: &str) -> (r: usize)
    requires
        vstd::utf8::is_ascii_chars(s@),
    ensures
        r == ansi_len_of(s@),
{
    antsy::AnsiStr::new(s).len()
}

/// The visible width of the prompt: its escape-aware length when the prompt
/// is ASCII, and its codepoint count when it holds no escape character at
/// all (then every codepoint is one visible cell). A non-ASCII prompt with
/// escapes — which the byte-indexed escape scanner cannot measure — is
/// given a width past any terminal, so that nothing is drawn over it.
pub open spec fn prompt_cells(prompt: Seq<char>) -> int {
    if vstd::utf8::is_ascii_chars(prompt) {
        ansi_len_of(prompt) as int
    } else if !prompt.contains('\x1b') {
        prompt.len() as int
    } else {
        0x10000
    }
}

/// Relies on antsy::AnsiStr::get: the slice of the visible range, escape
/// sequences included. The scanner slices byte ranges of its segments, so the
/// string must be ASCII, the range must lie within the visible length, and it
/// must start at the very beginning or run to the very end: anywhere else the
/// slice arithmetic runs out of range.
#[verifier::external_body]
pub(crate) fn ansi_get(s: &str, start: usize, end: usize) -> (r: String)
    requires
        vstd::utf8::is_ascii_chars(s@),
        start <= end <= ansi_len_of(s@),
        start == 0 || end == ansi_len_of(s@),
    ensures
        r@ == ansi_slice_of(s@, start as int, end as int),
        vstd::utf8::is_ascii_chars(r@),
{
    antsy::AnsiStr::new(s).get(start..end)
}

} // verus!
