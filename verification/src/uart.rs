use vstd::prelude::*;
use vstd::string::StrSliceExecFns;

verus! {

#[verifier::external_type_specification]
#[verifier::external_body]
#[verifier::reject_recursive_types(T)]
pub struct ExHeaplessVec<T, const N: usize>(heapless::Vec<T, N>);

#[verifier::external_type_specification]
#[verifier::external_body]
pub struct ExHeaplessString<const N: usize>(heapless::String<N>);

/// The byte `\r`.
pub const CARRIAGE_RETURN: u8 = 13;

/// The byte `\n`.
pub const LINE_FEED: u8 = 10;

/// The bytes that a receive buffer holds, in the order they were added.
pub uninterp spec fn rx_bytes(buf: heapless::Vec<u8, 64>) -> Seq<u8>;

/// The characters of a received-text string.
pub uninterp spec fn text_chars(s: heapless::String<64>) -> Seq<char>;

/// Calls `heapless::Vec::push`: the byte is appended when fewer than 64 bytes
/// are held; otherwise it is handed back and the buffer stays as it was.
#[verifier::external_body]
fn rx_push(buf: &mut heapless::Vec<u8, 64>, byte: u8) -> (r: Result<(), u8>)
    ensures
        rx_bytes(*old(buf)).len() < 64 ==> r is Ok && rx_bytes(*final(buf)) == rx_bytes(
            *old(buf),
        ).push(byte),
        rx_bytes(*old(buf)).len() >= 64 ==> (r matches Err(back) && back == byte),
        rx_bytes(*old(buf)).len() >= 64 ==> rx_bytes(*final(buf)) == rx_bytes(*old(buf)),
{
    buf.push(byte)
}

/// Calls `heapless::Vec::pop`: removes and returns the most recently added
/// byte, or returns `None` from an empty buffer.  A buffer of capacity 64
/// holds at most 64 bytes, so at most 63 remain after a pop.
#[verifier::external_body]
fn rx_pop(buf: &mut heapless::Vec<u8, 64>) -> (r: Option<u8>)
    ensures
        rx_bytes(*old(buf)).len() == 0 ==> r is None && rx_bytes(*final(buf)) == rx_bytes(
            *old(buf),
        ),
        rx_bytes(*old(buf)).len() > 0 ==> r == Some(rx_bytes(*old(buf)).last()) && rx_bytes(
            *final(buf),
        ) == rx_bytes(*old(buf)).drop_last(),
        rx_bytes(*final(buf)).len() < 64,
{
    buf.pop()
}

/// Calls `heapless::Vec::is_empty`.
#[verifier::external_body]
fn rx_is_empty(buf: &heapless::Vec<u8, 64>) -> (r: bool)
    ensures
        r == (rx_bytes(*buf).len() == 0),
{
    buf.is_empty()
}

/// Calls `heapless::Vec::as_slice`: the held bytes, oldest first.
#[verifier::external_body]
fn rx_as_slice(buf: &heapless::Vec<u8, 64>) -> (r: &[u8])
    ensures
        r@ == rx_bytes(*buf),
{
    buf.as_slice()
}

/// Calls `heapless::Vec::new`: an empty buffer.
#[verifier::external_body]
fn rx_new() -> (buf: heapless::Vec<u8, 64>)
    ensures
        rx_bytes(buf) == Seq::<u8>::empty(),
{
    heapless::Vec::new()
}

/// Calls `heapless::Vec::remove` at index 0: takes out the oldest byte and
/// moves the others down by one.
#[verifier::external_body]
fn rx_remove_first(buf: &mut heapless::Vec<u8, 64>) -> (r: u8)
    requires
        rx_bytes(*old(buf)).len() > 0,
    ensures
        r == rx_bytes(*old(buf))[0],
        rx_bytes(*final(buf)) == rx_bytes(*old(buf)).drop_first(),
{
    buf.remove(0)
}

/// Bytes in the UTF-8 encoding of `c`, as `char::len_utf8` counts them.
pub open spec fn utf8_width(c: char) -> nat {
    let v = c as u32;
    if v < 0x80 {
        1
    } else if v < 0x800 {
        2
    } else if v < 0x10000 {
        3
    } else {
        4
    }
}

/// Bytes in the UTF-8 encoding of the characters `s`.
pub open spec fn utf8_len(s: Seq<char>) -> nat
    decreases s.len(),
{
    if s.len() == 0 {
        0
    } else {
        utf8_len(s.drop_last()) + utf8_width(s.last())
    }
}

/// Calls `heapless::String::new`: an empty string.
#[verifier::external_body]
fn text_new() -> (s: heapless::String<64>)
    ensures
        text_chars(s) == Seq::<char>::empty(),
{
    heapless::String::new()
}

/// Calls `heapless::String::push`: the character is appended when its UTF-8
/// encoding fits in the 64 bytes together with the encoding already held;
/// otherwise the string stays as it was and an error comes back.
#[verifier::external_body]
fn text_push(s: &mut heapless::String<64>, c: char) -> (r: Result<(), ()>)
    ensures
        utf8_len(text_chars(*old(s))) + utf8_width(c) <= 64 ==> r is Ok && text_chars(*final(s))
            == text_chars(*old(s)).push(c),
        utf8_len(text_chars(*old(s))) + utf8_width(c) > 64 ==> r is Err && text_chars(*final(s))
            == text_chars(*old(s)),
{
    s.push(c)
}

/// The buffer after `x` is received: appended while fewer than 64 bytes are
/// held, dropped otherwise.
pub open spec fn added(b: Seq<u8>, x: u8) -> Seq<u8> {
    if b.len() < 64 {
        b.push(x)
    } else {
        b
    }
}

/// The byte that a non-blocking read takes: the newest one, if any.
pub open spec fn byte_taken(b: Seq<u8>) -> Option<u8> {
    if b.len() == 0 {
        None
    } else {
        Some(b.last())
    }
}

/// The buffer after a non-blocking read.
pub open spec fn after_take(b: Seq<u8>) -> Seq<u8> {
    if b.len() == 0 {
        b
    } else {
        b.drop_last()
    }
}

/// Calls `heapless::String::as_str`: the string's characters.
#[verifier::external_body]
fn text_as_str(s: &heapless::String<64>) -> (r: &str)
    ensures
        r@ == text_chars(*s),
{
    s.as_str()
}

/// Whether `b` ends a line (carriage return or line feed).
pub open spec fn is_line_end(b: u8) -> bool {
    b == CARRIAGE_RETURN || b == LINE_FEED
}

/// Whether the buffer holds a line end.
pub open spec fn has_line_end(b: Seq<u8>) -> bool {
    exists|i: int| 0 <= i < b.len() && is_line_end(#[trigger] b[i])
}

/// `k` is the position of the first line end in `b`.
pub open spec fn is_first_line_end(b: Seq<u8>, k: int) -> bool {
    &&& 0 <= k < b.len()
    &&& is_line_end(b[k])
    &&& forall|j: int| 0 <= j < k ==> !is_line_end(#[trigger] b[j])
}

/// Position of the first line end in `bytes`, if any.
fn find_line_end(bytes: &[u8]) -> (r: Option<usize>)
    ensures
        r is None <==> !has_line_end(bytes@),
        r matches Some(k) ==> is_first_line_end(bytes@, k as int),
{
    let mut i: usize = 0;
    while i < bytes.len()
        invariant
            i <= bytes@.len(),
            forall|j: int| 0 <= j < i ==> !is_line_end(#[trigger] bytes@[j]),
        decreases bytes@.len() - i,
    {
        if bytes[i] == CARRIAGE_RETURN || bytes[i] == LINE_FEED {
            return Some(i);
        }
        i += 1;
    }
    None
}

/// Whether the receive buffer holds any byte.
pub fn uart_data_available(buf: &heapless::Vec<u8, 64>) -> (available: bool)
    ensures
        available == (rx_bytes(*buf).len() > 0),
{
    !rx_is_empty(buf)
}

/// Takes one byte from the receive buffer without waiting: the most recently
/// received one, or `None` when the buffer is empty.
pub fn uart_get_byte(buf: &mut heapless::Vec<u8, 64>) -> (byte: Option<u8>)
    ensures
        byte == byte_taken(rx_bytes(*old(buf))),
        rx_bytes(*final(buf)) == after_take(rx_bytes(*old(buf))),
{
    rx_pop(buf)
}

/// Adds a received byte to the buffer; a byte that arrives while the buffer
/// holds 64 bytes is dropped.
pub fn uart_add_to_buffer(buf: &mut heapless::Vec<u8, 64>, byte: u8)
    ensures
        rx_bytes(*final(buf)) == added(rx_bytes(*old(buf)), byte),
{
    let _ = rx_push(buf, byte);
}

/// Whether the buffer holds a complete line, that is a carriage return or a
/// line feed.
pub fn uart_line_available(buf: &heapless::Vec<u8, 64>) -> (available: bool)
    ensures
        available == has_line_end(rx_bytes(*buf)),
{
    find_line_end(rx_as_slice(buf)).is_some()
}

/// An empty receive buffer.
pub fn uart_rx_buffer_new() -> (buf: heapless::Vec<u8, 64>)
    ensures
        rx_bytes(buf).len() == 0,
{
    rx_new()
}

/// The characters that a 64-byte string holds after the bytes of `bytes`,
/// in order, are pushed into it one by one as characters: line ends are
/// skipped, and a push whose encoding would not fit is refused.
pub open spec fn fitted_text(bytes: Seq<u8>) -> Seq<char>
    decreases bytes.len(),
{
    if bytes.len() == 0 {
        Seq::empty()
    } else {
        let prev = fitted_text(bytes.drop_last());
        let x = bytes.last();
        if is_line_end(x) {
            prev
        } else if utf8_len(prev) + utf8_width(x as char) <= 64 {
            prev.push(x as char)
        } else {
            prev
        }
    }
}

/// A byte that `uart_get_all_bytes` keeps: ASCII and not a line end.
pub open spec fn kept_byte(x: u8) -> bool {
    x < 128 && !is_line_end(x)
}

/// The kept bytes of `b`, in buffer order, as characters.
pub open spec fn kept_text(b: Seq<u8>) -> Seq<char>
    decreases b.len(),
{
    if b.len() == 0 {
        Seq::empty()
    } else if kept_byte(b.last()) {
        kept_text(b.drop_last()).push(b.last() as char)
    } else {
        kept_text(b.drop_last())
    }
}

/// A string holding the characters of `s` in reverse order.
fn reversed_text(s: &heapless::String<64>) -> (r: heapless::String<64>)
    requires
        utf8_len(text_chars(*s)) <= 64,
    ensures
        text_chars(r) == text_chars(*s).reverse(),
{
    let chars = text_as_str(s);
    let ghost cs = chars@;
    let mut out = text_new();
    let mut k: usize = chars.unicode_len();
    assert(cs.take(k as int) =~= cs);
    assert(cs.subrange(k as int, k as int).reverse() =~= Seq::<char>::empty());
    while k > 0
        invariant
            cs == chars@,
            k <= cs.len(),
            utf8_len(cs) <= 64,
            text_chars(out) == cs.subrange(k as int, cs.len() as int).reverse(),
            utf8_len(text_chars(out)) + utf8_len(cs.take(k as int)) == utf8_len(cs),
        decreases k,
    {
        let ghost before = text_chars(out);
        assert(cs.take(k as int).drop_last() =~= cs.take(k - 1));
        k -= 1;
        let c = chars.get_char(k);
        assert(cs.take(k + 1).last() == c);
        let r = text_push(&mut out, c);
        assert(r is Ok);
        assert(text_chars(out).drop_last() =~= before);
        assert(text_chars(out) =~= cs.subrange(k as int, cs.len() as int).reverse());
    }
    assert(cs.subrange(0, cs.len() as int) =~= cs);
    out
}

/// Takes the first complete line from the front of the receive buffer.
/// When the buffer holds a line end, the bytes up to and including the first
/// one are taken out, and the bytes before it are returned as text (as far
/// as they fit in the 64-byte string, see `fitted_text`); the later bytes
/// stay in the buffer.  Without a line end the buffer stays as it is and
/// `None` comes back.
pub fn uart_get_string(buf: &mut heapless::Vec<u8, 64>) -> (line: Option<heapless::String<64>>)
    ensures
        line is Some <==> has_line_end(rx_bytes(*old(buf))),
        line is None ==> rx_bytes(*final(buf)) == rx_bytes(*old(buf)),
        forall|k: int|
            is_first_line_end(rx_bytes(*old(buf)), k) ==> {
                &&& rx_bytes(*final(buf)) == rx_bytes(*old(buf)).skip(k + 1)
                &&& (line matches Some(s) && text_chars(s) == fitted_text(
                    rx_bytes(*old(buf)).take(k),
                ))
            },
{
    let ghost b = rx_bytes(*buf);
    let bytes = rx_as_slice(buf);
    let total = bytes.len();
    let line_end_pos = find_line_end(bytes);
    match line_end_pos {
        Some(end_pos) => {
            let mut result = text_new();
            let mut n: usize = 0;
            assert(b.skip(0) =~= b);
            assert(b.take(0) =~= Seq::<u8>::empty());
            while n <= end_pos
                invariant
                    end_pos < b.len(),
                    b.len() == total,
                    n <= end_pos + 1,
                    rx_bytes(*buf) == b.skip(n as int),
                    text_chars(result) == fitted_text(b.take(n as int)),
                decreases end_pos + 1 - n,
            {
                assert(b.take(n + 1).drop_last() =~= b.take(n as int));
                let byte = rx_remove_first(buf);
                if byte != CARRIAGE_RETURN && byte != LINE_FEED {
                    let _ = text_push(&mut result, byte as char);
                }
                assert(b.skip(n as int).drop_first() =~= b.skip(n + 1));
                n += 1;
            }
            assert(b.take(end_pos + 1).drop_last() =~= b.take(end_pos as int));
            Some(result)
        },
        None => None,
    }
}

/// Takes every byte from the receive buffer, which is empty afterwards, and
/// returns the ASCII bytes that are not line ends, in the order they arrived.
/// `None` comes back when no such byte was there.
pub fn uart_get_all_bytes(buf: &mut heapless::Vec<u8, 64>) -> (text: Option<heapless::String<64>>)
    ensures
        rx_bytes(*final(buf)).len() == 0,
        text is Some <==> kept_text(rx_bytes(*old(buf))).len() > 0,
        text matches Some(s) ==> text_chars(s) == kept_text(rx_bytes(*old(buf))),
{
    let ghost b = rx_bytes(*buf);
    if rx_is_empty(buf) {
        return None;
    }
    let mut result = text_new();
    loop
        invariant
            rx_bytes(*buf).len() <= b.len(),
            rx_bytes(*buf).len() < b.len() ==> b.len() <= 64,
            rx_bytes(*buf) == b.take(rx_bytes(*buf).len() as int),
            kept_text(b) == kept_text(rx_bytes(*buf)) + text_chars(result).reverse(),
            utf8_len(text_chars(result)) == text_chars(result).len(),
            text_chars(result).len() <= b.len() - rx_bytes(*buf).len(),
        ensures
            rx_bytes(*buf).len() == 0,
            kept_text(b) == text_chars(result).reverse(),
            utf8_len(text_chars(result)) <= 64,
        decreases rx_bytes(*buf).len(),
    {
        let ghost before = rx_bytes(*buf);
        match rx_pop(buf) {
            Some(byte) => {
                let ghost rest = rx_bytes(*buf);
                assert(b.take(rest.len() as int) =~= before.drop_last());
                if byte < 128 && byte != CARRIAGE_RETURN && byte != LINE_FEED {
                    let c = byte as char;
                    let ghost t = text_chars(result);
                    assert(c as u32 == byte as u32);
                    let _ = text_push(&mut result, c);
                    assert(text_chars(result).drop_last() =~= t);
                    assert(text_chars(result).reverse() =~= seq![c] + t.reverse());
                }
            },
            None => {
                assert(kept_text(before) =~= Seq::<char>::empty());
                assert(kept_text(b) =~= text_chars(result).reverse());
                break;
            },
        }
    }
    if text_as_str(&result).unicode_len() == 0 {
        None
    } else {
        Some(reversed_text(&result))
    }
}

/// Whether `c` is a carriage return or a line feed.
pub open spec fn is_line_end_char(c: char) -> bool {
    c == '\r' || c == '\n'
}

/// A byte received into a buffer that is not full is the byte that the next
/// non-blocking read returns, and that read leaves the buffer as it was
/// before the byte arrived.
pub proof fn lemma_read_returns_last_received(b: Seq<u8>, x: u8)
    requires
        b.len() < 64,
    ensures
        byte_taken(added(b, x)) == Some(x),
        after_take(added(b, x)) == b,
{
    assert(b.push(x).drop_last() =~= b);
}

/// A byte received while the buffer holds 64 bytes is lost.
pub proof fn lemma_full_buffer_drops_byte(b: Seq<u8>, x: u8)
    requires
        b.len() >= 64,
    ensures
        added(b, x) == b,
{
}

/// Receiving and reading keep the buffer within its 64 bytes.
pub proof fn lemma_buffer_stays_bounded(b: Seq<u8>, x: u8)
    requires
        b.len() <= 64,
    ensures
        added(b, x).len() <= 64,
        after_take(b).len() <= 64,
{
}

/// A non-blocking read returns a byte exactly when data is available, and
/// then the buffer is one byte shorter.
pub proof fn lemma_read_succeeds_iff_available(b: Seq<u8>)
    ensures
        byte_taken(b) is Some <==> b.len() > 0,
        b.len() > 0 ==> after_take(b).len() == b.len() - 1,
{
}

/// Fitted text never holds a line end and never outgrows the 64-byte
/// string, so a line taken with `uart_get_string` holds no carriage return
/// or line feed.
pub proof fn lemma_fitted_text_clean(bytes: Seq<u8>)
    ensures
        forall|i: int|
            0 <= i < fitted_text(bytes).len() ==> !is_line_end_char(#[trigger] fitted_text(bytes)[i]),
        utf8_len(fitted_text(bytes)) <= 64,
    decreases bytes.len(),
{
    if bytes.len() > 0 {
        lemma_fitted_text_clean(bytes.drop_last());
        let prev = fitted_text(bytes.drop_last());
        let x = bytes.last();
        if !is_line_end(x) && utf8_len(prev) + utf8_width(x as char) <= 64 {
            assert((x as char) as u32 == x as u32);
            assert(prev.push(x as char).drop_last() =~= prev);
        }
    }
}

/// A line of at most 64 ASCII bytes is taken whole: the text is exactly
/// its bytes, read as characters.
pub proof fn lemma_ascii_line_taken_whole(bytes: Seq<u8>)
    requires
        bytes.len() <= 64,
        forall|i: int|
            0 <= i < bytes.len() ==> #[trigger] bytes[i] < 128 && bytes[i] != 13 && bytes[i] != 10,
    ensures
        fitted_text(bytes) == bytes.map_values(|x: u8| x as char),
        utf8_len(fitted_text(bytes)) == bytes.len(),
    decreases bytes.len(),
{
    if bytes.len() > 0 {
        let init = bytes.drop_last();
        lemma_ascii_line_taken_whole(init);
        let x = bytes.last();
        assert(bytes[bytes.len() - 1] < 128);
        assert((x as char) as u32 == x as u32);
        let prev = fitted_text(init);
        assert(prev.push(x as char).drop_last() =~= prev);
        assert(fitted_text(bytes) =~= bytes.map_values(|x: u8| x as char));
    }
}

/// The text taken with `uart_get_all_bytes` is plain ASCII without line ends.
pub proof fn lemma_kept_text_is_plain_ascii(b: Seq<u8>)
    ensures
        forall|i: int|
            0 <= i < kept_text(b).len() ==> (#[trigger] kept_text(b)[i] as u32) < 128
                && !is_line_end_char(kept_text(b)[i]),
    decreases b.len(),
{
    if b.len() > 0 {
        lemma_kept_text_is_plain_ascii(b.drop_last());
        let x = b.last();
        let prev = kept_text(b.drop_last());
        if kept_byte(x) {
            assert((x as char) as u32 == x as u32);
            assert forall|i: int| 0 <= i < kept_text(b).len() implies (#[trigger] kept_text(b)[i] as u32)
                < 128 && !is_line_end_char(kept_text(b)[i]) by {
                if i < prev.len() {
                    assert(kept_text(b)[i] == prev[i]);
                }
            }
        }
    }
}

/// Only a carriage return (13) or a line feed (10) ends a line: a buffer
/// holds a complete line exactly when one of its bytes is 13 or 10.
pub proof fn lemma_line_ends_are_cr_and_lf(b: Seq<u8>)
    ensures
        forall|x: u8| is_line_end(x) <==> (x == 13 || x == 10),
        has_line_end(b) <==> exists|i: int| 0 <= i < b.len() && (#[trigger] b[i] == 13 || b[i] == 10),
{
}

/// `uart_get_string` returns a plain line whole: when the first 13 or 10 of
/// the buffer stands at `k <= 64` and every byte before it is ASCII, the
/// text is exactly those `k` bytes read as characters, spaces, tabs and
/// punctuation included, and the buffer keeps what follows the line end.
pub proof fn lemma_plain_line_returned_whole(b: Seq<u8>, k: int)
    requires
        0 <= k < b.len(),
        k <= 64,
        b[k] == 13 || b[k] == 10,
        forall|j: int| 0 <= j < k ==> #[trigger] b[j] < 128 && b[j] != 13 && b[j] != 10,
    ensures
        is_first_line_end(b, k),
        has_line_end(b),
        fitted_text(b.take(k)) == b.take(k).map_values(|x: u8| x as char),
        fitted_text(b.take(k)).len() == k,
{
    let t = b.take(k);
    assert forall|i: int| 0 <= i < t.len() implies #[trigger] t[i] < 128 && t[i] != 13 && t[i] != 10 by {
        assert(t[i] == b[i]);
    }
    lemma_ascii_line_taken_whole(t);
    assert(is_line_end(b[k]));
}

/// `uart_get_all_bytes` keeps every ASCII byte other than 13 and 10, in the
/// order received, and nothing else.
pub proof fn lemma_all_bytes_text_keeps_ascii(b: Seq<u8>)
    ensures
        kept_text(b) == b.filter(|x: u8| x < 128 && x != 13 && x != 10).map_values(
            |x: u8| x as char,
        ),
    decreases b.len(),
{
    reveal_with_fuel(Seq::filter, 1);
    if b.len() > 0 {
        lemma_all_bytes_text_keeps_ascii(b.drop_last());
        let f = |x: u8| x < 128 && x != 13 && x != 10;
        let sub = b.drop_last().filter(f);
        let x = b.last();
        if f(x) {
            assert(sub.push(x).map_values(|x: u8| x as char) =~= sub.map_values(|x: u8| x as char).push(
                x as char,
            ));
        }
    }
}

} // verus!
