//! Fixed-capacity text buffers from `heapless`, as the station uses them:
//! a 120-byte buffer for the request URL and a 50-byte buffer for the
//! date label.

use vstd::prelude::*;
use vstd::utf8::*;

verus! {

/// `heapless::String<N>`, a string of at most `N` UTF-8 bytes.
#[verifier::external_type_specification]
#[verifier::external_body]
pub struct ExHeaplessString<const N: usize>(heapless::String<N>);

/// Capacity, in bytes, of the URL buffer.
pub const URL_CAPACITY: usize = 120;

/// The characters held by a URL buffer.
pub uninterp spec fn url_text(s: heapless::String<120>) -> Seq<char>;

/// The characters held by a date label buffer.
pub uninterp spec fn label_text(s: heapless::String<50>) -> Seq<char>;

/// Number of bytes that a character sequence takes in UTF-8.
pub open spec fn byte_len(s: Seq<char>) -> nat {
    encode_utf8(s).len()
}

/// `heapless::String::<120>::new`: an empty buffer.
#[verifier::external_body]
pub(crate) fn url_buffer_new() -> (s: heapless::String<120>)
    ensures
        url_text(s) == Seq::<char>::empty(),
{
    heapless::String::new()
}

/// `heapless::String::<120>::push_str`: appends `t` when its bytes fit in
/// what is left of the capacity, and otherwise leaves the buffer as it was
/// and reports an error.
#[verifier::external_body]
pub(crate) fn url_buffer_push_str(s: &mut heapless::String<120>, t: &str) -> (r: Result<(), ()>)
    ensures
        r is Ok <==> byte_len(url_text(*old(s))) + byte_len(t@) <= 120,
        r is Ok ==> url_text(*final(s)) == url_text(*old(s)) + t@,
        r is Err ==> url_text(*final(s)) == url_text(*old(s)),
{
    s.push_str(t)
}

/// `heapless::String::<120>::as_str`: the characters held.
#[verifier::external_body]
pub(crate) fn url_buffer_as_str(s: &heapless::String<120>) -> (r: &str)
    ensures
        r@ == url_text(*s),
{
    s.as_str()
}

/// `heapless::String::<50>::new`: an empty buffer.
#[verifier::external_body]
pub(crate) fn label_buffer_new() -> (s: heapless::String<50>)
    ensures
        label_text(s) == Seq::<char>::empty(),
{
    heapless::String::new()
}

/// `heapless::String::<50>::push`: appends `c` when its UTF-8 encoding fits
/// in what is left of the capacity, and otherwise leaves the buffer as it
/// was and reports an error.
#[verifier::external_body]
pub(crate) fn label_buffer_push(s: &mut heapless::String<50>, c: char) -> (r: Result<(), ()>)
    ensures
        r is Ok <==> byte_len(label_text(*old(s))) + byte_len(seq![c]) <= 50,
        r is Ok ==> label_text(*final(s)) == label_text(*old(s)).push(c),
        r is Err ==> label_text(*final(s)) == label_text(*old(s)),
{
    s.push(c)
}

/// `heapless::String::<50>::push_str`: appends `t` when its bytes fit in
/// what is left of the capacity, and otherwise leaves the buffer as it was
/// and reports an error.
#[verifier::external_body]
pub(crate) fn label_buffer_push_str(s: &mut heapless::String<50>, t: &str) -> (r: Result<(), ()>)
    ensures
        r is Ok <==> byte_len(label_text(*old(s))) + byte_len(t@) <= 50,
        r is Ok ==> label_text(*final(s)) == label_text(*old(s)) + t@,
        r is Err ==> label_text(*final(s)) == label_text(*old(s)),
{
    s.push_str(t)
}

/// The bytes of two sequences put together are the bytes of each.
pub proof fn lemma_byte_len_concat(a: Seq<char>, b: Seq<char>)
    ensures
        byte_len(a + b) == byte_len(a) + byte_len(b),
    decreases a.len(),
{
    if a.len() > 0 {
        lemma_byte_len_concat(a.drop_first(), b);
        assert((a + b).drop_first() =~= a.drop_first() + b);
        assert((a + b)[0] == a[0]);
    } else {
        assert(a + b =~= b);
    }
}

/// An ASCII sequence takes one byte per character.
pub proof fn lemma_ascii_byte_len(s: Seq<char>)
    requires
        is_ascii_chars(s),
    ensures
        byte_len(s) == s.len(),
{
    is_ascii_chars_encode_utf8(s);
}

} // verus!
