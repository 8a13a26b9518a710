//! Decoding of byte streams into text.

use vstd::prelude::*;
use vstd::utf8::*;

verus! {

/// What a byte stream starts with, as far as its text is concerned.
pub enum Head {
    /// A character, encoded in that many bytes.
    Character(nat),
    /// The start of a character whose remaining bytes haven't arrived yet.
    Unfinished,
    /// That many bytes which no character is encoded with.
    Malformed(nat),
}

/// The number of bytes a character takes when its encoding starts with `first`,
/// zero when no encoding starts with it.
pub open spec fn width(first: u8) -> nat {
    if first <= 0x7f {
        1
    } else if 0xc2 <= first <= 0xdf {
        2
    } else if 0xe0 <= first <= 0xef {
        3
    } else if 0xf0 <= first <= 0xf4 {
        4
    } else {
        0
    }
}

/// Whether `second` may follow `first`, where `first` starts an encoding of at
/// least two bytes. Overlong forms, surrogates and values past the last code
/// point are ruled out here.
pub open spec fn follows(first: u8, second: u8) -> bool {
    if first == 0xe0 {
        0xa0 <= second <= 0xbf
    } else if first == 0xed {
        0x80 <= second <= 0x9f
    } else if first == 0xf0 {
        0x90 <= second <= 0xbf
    } else if first == 0xf4 {
        0x80 <= second <= 0x8f
    } else {
        0x80 <= second <= 0xbf
    }
}

/// Whether the byte at `i` continues the encoding started at the front of
/// `bytes`.
pub open spec fn continues(bytes: Seq<u8>, i: int) -> bool {
    if i == 1 {
        follows(bytes[0], bytes[1])
    } else {
        is_continuation_byte(bytes[i])
    }
}

/// Whether the first `n` bytes are, or may become, the encoding of a character.
pub open spec fn well_begun(bytes: Seq<u8>, n: int) -> bool {
    &&& 1 <= n <= bytes.len()
    &&& n <= width(bytes[0])
    &&& forall|i: int| 1 <= i < n ==> #[trigger] continues(bytes, i)
}

/// Classifies the front of a non-empty byte stream. A malformed front is the
/// longest one which could have become a character, or a single byte.
pub open spec fn head(bytes: Seq<u8>) -> Head {
    let w = width(bytes[0]);
    if well_begun(bytes, w as int) {
        Head::Character(w)
    } else if well_begun(bytes, bytes.len() as int) {
        Head::Unfinished
    } else if well_begun(bytes, 3) {
        Head::Malformed(3)
    } else if well_begun(bytes, 2) {
        Head::Malformed(2)
    } else {
        Head::Malformed(1)
    }
}

/// The text of a byte stream, and the bytes at its end which are held back
/// until the character they start is complete. Every malformed stretch reads
/// as U+FFFD.
pub open spec fn decode(bytes: Seq<u8>) -> (Seq<char>, Seq<u8>)
    decreases bytes.len(),
{
    if bytes.len() == 0 {
        (Seq::empty(), Seq::empty())
    } else {
        match head(bytes) {
            Head::Character(n) => {
                let rest = decode(bytes.skip(n as int));
                (seq![decode_first_scalar(bytes) as char] + rest.0, rest.1)
            },
            Head::Unfinished => (Seq::empty(), bytes),
            Head::Malformed(n) => {
                let rest = decode(bytes.skip(n as int));
                (seq!['\u{FFFD}'] + rest.0, rest.1)
            },
        }
    }
}

proof fn lemma_codepoint_2(a: u8, b: u8)
    by (bit_vector)
    requires
        0xc0 <= a <= 0xdf,
        0x80 <= b <= 0xbf,
    ensures
        0x80u32 <= (((a & 0x1f) as u32) << 6) | ((b & 0x3f) as u32) <==> 0xc2 <= a,
        (((a & 0x1f) as u32) << 6) | ((b & 0x3f) as u32) <= 0x7ffu32,
{
}

proof fn lemma_codepoint_3(a: u8, b: u8, c: u8)
    by (bit_vector)
    requires
        0xe0 <= a <= 0xef,
        0x80 <= b <= 0xbf,
        0x80 <= c <= 0xbf,
    ensures
        ({
            let v = (((a & 0x0f) as u32) << 12) | (((b & 0x3f) as u32) << 6) | ((c & 0x3f) as u32);
            &&& (0x800u32 <= v <==> (a != 0xe0 || 0xa0 <= b))
            &&& ((0xd800u32 <= v && v <= 0xdfffu32) <==> (a == 0xed && 0xa0 <= b))
        }),
{
}

proof fn lemma_codepoint_4(a: u8, b: u8, c: u8, d: u8)
    by (bit_vector)
    requires
        0xf0 <= a <= 0xf7,
        0x80 <= b <= 0xbf,
        0x80 <= c <= 0xbf,
        0x80 <= d <= 0xbf,
    ensures
        ({
            let v = (((a & 0x07) as u32) << 18) | (((b & 0x3f) as u32) << 12) | (((c & 0x3f) as u32)
                << 6) | ((d & 0x3f) as u32);
            &&& (0x10000u32 <= v <==> (a != 0xf0 || 0x90 <= b))
            &&& (v <= 0x10ffffu32 <==> (a <= 0xf3 || (a == 0xf4 && b <= 0x8f)))
        }),
{
}

proof fn lemma_codepoint_1(a: u8)
    by (bit_vector)
    requires
        a <= 0x7f,
    ensures
        (a & 0x7f) as u32 == a,
{
}

/// A stream starts with a character exactly when it starts with a valid
/// encoding of a Unicode scalar value.
proof fn lemma_head_is_first_scalar(bytes: Seq<u8>)
    requires
        bytes.len() > 0,
    ensures
        head(bytes) is Character <==> valid_first_scalar(bytes),
        head(bytes) is Character ==> head(bytes)->Character_0 == length_of_first_scalar(bytes),
{
    let a = bytes[0];
    let w = width(a) as int;
    if a <= 0x7f {
        lemma_codepoint_1(a);
        assert(well_begun(bytes, 1));
    }
    if bytes.len() >= 2 && is_leading_byte_width_2(a) && is_continuation_byte(bytes[1]) {
        lemma_codepoint_2(a, bytes[1]);
    }
    if bytes.len() >= 3 && is_leading_byte_width_3(a) && is_continuation_byte(bytes[1])
        && is_continuation_byte(bytes[2]) {
        lemma_codepoint_3(a, bytes[1], bytes[2]);
    }
    if bytes.len() >= 4 && is_leading_byte_width_4(a) && is_continuation_byte(bytes[1])
        && is_continuation_byte(bytes[2]) && is_continuation_byte(bytes[3]) {
        lemma_codepoint_4(a, bytes[1], bytes[2], bytes[3]);
    }
    if w >= 2 && well_begun(bytes, w) {
        assert(continues(bytes, 1));
        if w >= 3 {
            assert(continues(bytes, 2));
        }
        if w >= 4 {
            assert(continues(bytes, 3));
        }
    }
}

/// A character at the front of a stream is encoded with the bytes it takes.
proof fn lemma_first_scalar_encoding(bytes: Seq<u8>)
    requires
        bytes.len() > 0,
        head(bytes) is Character,
    ensures
        1 <= head(bytes)->Character_0 <= bytes.len(),
        encode_scalar((decode_first_scalar(bytes) as char) as u32) == bytes.take(
            head(bytes)->Character_0 as int,
        ),
{
    lemma_head_is_first_scalar(bytes);
    let one = take_first_scalar(bytes);
    assert(one =~= bytes.take(head(bytes)->Character_0 as int));
    assert(valid_first_scalar(one));
    assert(pop_first_scalar(one).len() == 0);
    assert(valid_utf8(one)) by {
        reveal_with_fuel(valid_utf8, 2);
    }
    decode_utf8_first_scalar(one);
    assert(take_first_scalar(one) =~= one);
}

/// Appending a character to a text appends its encoding.
proof fn lemma_encode_push(text: Seq<char>, c: char)
    ensures
        encode_utf8(text.push(c)) == encode_utf8(text) + encode_scalar(c as u32),
    decreases text.len(),
{
    let longer = text.push(c);
    if text.len() == 0 {
        reveal_with_fuel(encode_utf8, 2);
        assert(longer.drop_first() =~= Seq::<char>::empty());
        assert(encode_utf8(longer) =~= encode_scalar(c as u32));
        assert(encode_utf8(text) + encode_scalar(c as u32) =~= encode_scalar(c as u32));
    } else {
        lemma_encode_push(text.drop_first(), c);
        assert(longer.drop_first() =~= text.drop_first().push(c));
        assert(encode_utf8(longer) =~= encode_utf8(text) + encode_scalar(c as u32));
    }
}

/// The bytes of U+FFFD.
proof fn lemma_replacement_encoding()
    ensures
        encode_scalar('\u{FFFD}' as u32) == seq![0xefu8, 0xbfu8, 0xbdu8],
{
    let v: u32 = 0xfffd;
    assert(0xE0 | ((v >> 12) & 0x0F) as u8 == 0xefu8) by (bit_vector)
        requires
            v == 0xfffdu32,
    ;
    assert(0x80 | ((v >> 6) & 0x3F) as u8 == 0xbfu8) by (bit_vector)
        requires
            v == 0xfffdu32,
    ;
    assert(0x80 | (v & 0x3F) as u8 == 0xbdu8) by (bit_vector)
        requires
            v == 0xfffdu32,
    ;
    assert('\u{FFFD}' as u32 == v);
    assert(encode_scalar(v) =~= seq![0xefu8, 0xbfu8, 0xbdu8]);
}

/// What the front of a stream is doesn't change when more bytes arrive, unless
/// it is an unfinished character.
proof fn lemma_head_is_stable(bytes: Seq<u8>, more: Seq<u8>)
    requires
        bytes.len() > 0,
        !(head(bytes) is Unfinished),
    ensures
        head(bytes + more) == head(bytes),
        head(bytes) matches Head::Character(n) ==> {
            &&& 1 <= n <= bytes.len()
            &&& decode_first_scalar(bytes + more) == decode_first_scalar(bytes)
        },
        head(bytes) matches Head::Malformed(n) ==> 1 <= n <= bytes.len(),
{
    let all = bytes + more;
    assert forall|n: int| n <= bytes.len() implies well_begun(all, n) == well_begun(
        bytes,
        n,
    ) by {
        if well_begun(all, n) {
            assert forall|i: int| 1 <= i < n implies #[trigger] continues(bytes, i) by {
                assert(continues(all, i));
            }
        }
        if well_begun(bytes, n) {
            assert forall|i: int| 1 <= i < n implies #[trigger] continues(all, i) by {
                assert(continues(bytes, i));
            }
        }
    }
    assert forall|m: int, n: int| 1 <= m <= n && #[trigger] well_begun(all, n) implies
        #[trigger] well_begun(all, m) by {
    }
    let len = bytes.len() as int;
    assert(well_begun(all, len) == well_begun(bytes, len));
    let w = width(bytes[0]) as int;
    if head(bytes) is Character {
        lemma_head_is_first_scalar(bytes);
    } else {
        assert(!well_begun(bytes, len));
        assert(!well_begun(all, len));
        if len <= w {
            if well_begun(all, w) {
                assert(well_begun(all, len));
            }
        }
        if well_begun(all, all.len() as int) {
            assert(well_begun(all, len));
        }
        if len <= 3 && well_begun(all, 3) {
            assert(well_begun(all, len));
        }
        if len <= 2 && well_begun(all, 2) {
            assert(well_begun(all, len));
        }
    }
}

/// How a stream is cut into pieces doesn't matter. Decoding the first
/// piece, and then what it held back together with the second piece, reads the
/// same as decoding both pieces at once.
pub proof fn decoding_in_pieces(first: Seq<u8>, second: Seq<u8>)
    ensures
        decode(first + second).0 == decode(first).0 + decode(decode(first).1 + second).0,
        decode(first + second).1 == decode(decode(first).1 + second).1,
    decreases first.len(),
{
    let both = first + second;
    if first.len() == 0 {
        assert(both =~= second);
        assert(decode(first).1 + second =~= second);
        assert(decode(both).0 =~= decode(first).0 + decode(decode(first).1 + second).0);
    } else if head(first) is Unfinished {
        assert(decode(both).0 =~= decode(first).0 + decode(decode(first).1 + second).0);
    } else {
        lemma_head_is_stable(first, second);
        let n = match head(first) {
            Head::Character(n) => n as int,
            Head::Malformed(n) => n as int,
            Head::Unfinished => 0,
        };
        decoding_in_pieces(first.skip(n), second);
        assert(both.skip(n) =~= first.skip(n) + second);
        assert(decode(both).0 =~= decode(first).0 + decode(decode(first).1 + second).0);
    }
}

/// A text comes out of its own encoding unchanged, with nothing held
/// back.
pub proof fn decoding_of_encoded_text(text: Seq<char>)
    ensures
        decode(encode_utf8(text)).0 == text,
        decode(encode_utf8(text)).1 == Seq::<u8>::empty(),
    decreases text.len(),
{
    let bytes = encode_utf8(text);
    if text.len() == 0 {
        assert(bytes =~= Seq::empty());
    } else {
        encode_utf8_first_scalar(text);
        lemma_head_is_first_scalar(bytes);
        let n = length_of_first_scalar(bytes);
        assert(bytes.skip(n) =~= encode_utf8(text.drop_first()));
        decoding_of_encoded_text(text.drop_first());
        char_u32_cast(text[0], decode_first_scalar(bytes));
        assert(decode(bytes).0 =~= text);
    }
}

/// What is held back is shorter than the longest encoding of a
/// character, and holds no complete character.
pub proof fn held_back_is_short(bytes: Seq<u8>)
    ensures
        decode(bytes).1.len() <= 3,
        decode(decode(bytes).1) == (Seq::<char>::empty(), decode(bytes).1),
    decreases bytes.len(),
{
    if bytes.len() > 0 {
        match head(bytes) {
            Head::Character(n) => {
                lemma_head_is_stable(bytes, Seq::empty());
                held_back_is_short(bytes.skip(n as int));
            },
            Head::Unfinished => {},
            Head::Malformed(n) => {
                lemma_head_is_stable(bytes, Seq::empty());
                held_back_is_short(bytes.skip(n as int));
            },
        }
    }
}

/// Calls `String::from_utf8`, which turns the bytes of a valid UTF-8 encoding
/// into the text they encode.
#[verifier::external_body]
fn text_of(bytes: Vec<u8>) -> (text: String)
    requires
        valid_utf8(bytes@),
    ensures
        text@ == decode_utf8(bytes@),
{
    String::from_utf8(bytes).expect("bytes should be valid UTF-8")
}

/// Decodes a stream of bytes, fed in pieces, into text. A character split
/// between two pieces comes out with the second one.
#[derive(Debug)]
pub struct Utf8Decoder {
    pending: Vec<u8>,
}

impl View for Utf8Decoder {
    type V = Seq<u8>;

    /// The bytes held back so far.
    closed spec fn view(&self) -> Seq<u8> {
        self.pending@
    }
}

impl Utf8Decoder {
    pub fn new() -> (decoder: Self)
        ensures
            decoder@ == Seq::<u8>::empty(),
    {
        Utf8Decoder { pending: Vec::new() }
    }

    /// The length of a well-begun front of `bytes[at..]`, at most `limit`.
    fn begun(bytes: &Vec<u8>, at: usize, limit: usize) -> (n: usize)
        requires
            at < bytes@.len(),
            limit == width(bytes@[at as int]),
        ensures
            n <= limit,
            n <= bytes@.len() - at,
            n > 0 ==> well_begun(bytes@.skip(at as int), n as int),
            forall|m: int|
                n < m ==> !#[trigger] well_begun(bytes@.skip(at as int), m),
    {
        if limit == 0 {
            return 0;
        }
        let ghost rest = bytes@.skip(at as int);
        let len = bytes.len() - at;
        let mut n: usize = 1;
        while n < limit && n < len
            invariant
                at < bytes@.len(),
                rest == bytes@.skip(at as int),
                len == bytes.len() - at,
                limit == width(rest[0]),
                1 <= n <= limit,
                n <= len,
                well_begun(rest, n as int),
            decreases limit - n,
        {
            let first = bytes[at];
            let next = bytes[at + n];
            let good = if n > 1 {
                0x80 <= next && next <= 0xbf
            } else if first == 0xe0 {
                0xa0 <= next && next <= 0xbf
            } else if first == 0xed {
                0x80 <= next && next <= 0x9f
            } else if first == 0xf0 {
                0x90 <= next && next <= 0xbf
            } else if first == 0xf4 {
                0x80 <= next && next <= 0x8f
            } else {
                0x80 <= next && next <= 0xbf
            };
            assert(good == continues(rest, n as int));
            if !good {
                assert(!continues(rest, n as int));
                return n;
            }
            n += 1;
        }
        n
    }

    /// Takes in the next piece of the stream, and returns the text it
    /// completes.
    pub fn feed(&mut self, input: &[u8]) -> (text: String)
        ensures
            (text@, final(self)@) == decode(old(self)@ + input@),
            final(self)@.len() <= 3,
    {
        let mut bytes: Vec<u8> = Vec::new();
        bytes.append(&mut self.pending);
        bytes.extend_from_slice(input);
        let ghost stream = old(self)@ + input@;
        assert(bytes@ =~= stream);
        let mut valid: Vec<u8> = Vec::new();
        let ghost mut text: Seq<char> = Seq::empty();
        let mut at: usize = 0;
        let mut cut = false;
        assert(stream.skip(0) =~= stream);
        assert(text + decode(stream).0 =~= decode(stream).0);
        while at < bytes.len() && !cut
            invariant
                bytes@ == stream,
                at <= bytes@.len(),
                valid@ == encode_utf8(text),
                decode(stream).0 == text + decode(stream.skip(at as int)).0,
                decode(stream).1 == decode(stream.skip(at as int)).1,
                cut ==> at < bytes@.len() && head(stream.skip(at as int)) is Unfinished,
            decreases bytes@.len() - at, (if cut { 0int } else { 1int }),
        {
            let ghost rest = stream.skip(at as int);
            let first = bytes[at];
            let limit: usize = if first <= 0x7f {
                1
            } else if first < 0xc2 {
                0
            } else if first <= 0xdf {
                2
            } else if first <= 0xef {
                3
            } else if first <= 0xf4 {
                4
            } else {
                0
            };
            let n = Self::begun(&bytes, at, limit);
            proof {
                lemma_begun_to_head(rest, n as nat);
            }
            if limit > 0 && n == limit {
                let ghost before = valid@;
                let mut k: usize = 0;
                while k < n
                    invariant
                        k <= n,
                        at + n <= bytes.len(),
                        valid@ == before + bytes@.subrange(at as int, at + k),
                    decreases n - k,
                {
                    valid.push(bytes[at + k]);
                    k += 1;
                    assert(valid@ =~= before + bytes@.subrange(at as int, at + k));
                }
                proof {
                    let c = decode_first_scalar(rest) as char;
                    lemma_first_scalar_encoding(rest);
                    assert(bytes@.subrange(at as int, at + n) =~= rest.take(n as int));
                    lemma_encode_push(text, c);
                    assert(stream.skip(at + n) =~= rest.skip(n as int));
                    assert(text + decode(rest).0 =~= text.push(c) + decode(stream.skip(at + n)).0);
                    text = text.push(c);
                }
                at += n;
            } else if limit > 0 && n == bytes.len() - at {
                cut = true;
            } else {
                let ghost before = valid@;
                valid.push(0xef);
                valid.push(0xbf);
                valid.push(0xbd);
                let skipped: usize = if n == 0 {
                    1
                } else {
                    n
                };
                proof {
                    let c = '\u{FFFD}';
                    lemma_replacement_encoding();
                    assert(valid@ =~= before + encode_scalar(c as u32));
                    lemma_encode_push(text, c);
                    assert(stream.skip(at + skipped) =~= rest.skip(skipped as int));
                    assert(text + decode(rest).0 =~= text.push(c) + decode(
                        stream.skip(at + skipped),
                    ).0);
                    text = text.push(c);
                }
                at += skipped;
            }
        }
        proof {
            let rest = stream.skip(at as int);
            if !cut {
                assert(rest =~= Seq::empty());
            }
            assert(decode(stream).0 =~= text);
            encode_utf8_valid_utf8(text);
            encode_utf8_decode_utf8(text);
            held_back_is_short(stream);
        }
        self.pending = bytes.split_off(at);
        assert(self.pending@ =~= stream.skip(at as int));
        text_of(valid)
    }
}

/// The length of the longest well-begun front decides what the front is.
proof fn lemma_begun_to_head(bytes: Seq<u8>, n: nat)
    requires
        bytes.len() > 0,
        n <= width(bytes[0]),
        n <= bytes.len(),
        n > 0 ==> well_begun(bytes, n as int),
        forall|m: int| n < m ==> !#[trigger] well_begun(bytes, m),
    ensures
        head(bytes) == (if width(bytes[0]) > 0 && n == width(bytes[0]) {
            Head::Character(n)
        } else if width(bytes[0]) > 0 && n == bytes.len() {
            Head::Unfinished
        } else if n == 0 {
            Head::Malformed(1)
        } else {
            Head::Malformed(n)
        }),
{
    assert(!well_begun(bytes, 0));
    assert forall|m: int| 1 <= m <= n implies #[trigger] well_begun(bytes, m) by {
    }
}

/// The text of a byte stream which has ended. A character left unfinished at
/// its end is malformed too, and reads as U+FFFD.
pub open spec fn decode_whole(bytes: Seq<u8>) -> Seq<char> {
    let (text, rest) = decode(bytes);
    if rest.len() > 0 {
        text.push('\u{FFFD}')
    } else {
        text
    }
}

/// Reads a byte stream which has ended.
pub fn text_of_whole(bytes: &[u8]) -> (text: String)
    ensures
        text@ == decode_whole(bytes@),
{
    let mut decoder = Utf8Decoder::new();
    assert(decoder@ + bytes@ =~= bytes@);
    let mut text = decoder.feed(bytes);
    if !decoder.pending.is_empty() {
        proof {
            reveal_strlit("\u{FFFD}");
            assert("\u{FFFD}"@ =~= seq!['\u{FFFD}']);
            assert(text@ + "\u{FFFD}"@ =~= text@.push('\u{FFFD}'));
        }
        text.append("\u{FFFD}");
    }
    text
}

/// A whole stream which is the encoding of a text reads as that text.
pub proof fn whole_encoded_text(text: Seq<char>)
    ensures
        decode_whole(encode_utf8(text)) == text,
{
    decoding_of_encoded_text(text);
}

/// Bytes which aren't the encoding of any text show as U+FFFD.
pub proof fn malformed_bytes_show(bytes: Seq<u8>)
    requires
        !valid_utf8(bytes),
    ensures
        decode_whole(bytes).contains('\u{FFFD}'),
    decreases bytes.len(),
{
    let text = decode_whole(bytes);
    match head(bytes) {
        Head::Character(n) => {
            lemma_head_is_first_scalar(bytes);
            let rest = bytes.skip(n as int);
            assert(rest =~= pop_first_scalar(bytes));
            malformed_bytes_show(rest);
            let i = choose|i: int|
                0 <= i < decode_whole(rest).len() && decode_whole(rest)[i] == '\u{FFFD}';
            assert(text[i + 1] == '\u{FFFD}');
        },
        Head::Unfinished => {
            assert(text[0] == '\u{FFFD}');
        },
        Head::Malformed(_) => {
            assert(text[0] == '\u{FFFD}');
        },
    }
}

/// Whether a character's encoding starts with `bytes`, or is just that.
pub open spec fn starts_encoding(bytes: Seq<u8>, c: char) -> bool {
    let encoding = encode_scalar(c as u32);
    &&& 1 <= bytes.len() <= encoding.len()
    &&& encoding.take(bytes.len() as int) == bytes
}

/// Whether some character's encoding starts with `bytes`.
pub open spec fn may_become_character(bytes: Seq<u8>) -> bool {
    exists|c: char| #[trigger] starts_encoding(bytes, c)
}

proof fn lemma_begun_may_become_character(bytes: Seq<u8>, n: int)
    requires
        1 <= n <= bytes.len(),
        well_begun(bytes, n),
    ensures
        may_become_character(bytes.take(n)),
{
    let first = bytes[0];
    let w = width(first);
    let filler = |i: int|
        if i == 1 && first == 0xe0 {
            0xa0u8
        } else if i == 1 && first == 0xf0 {
            0x90u8
        } else {
            0x80u8
        };
    let full = Seq::new(
        w,
        |i: int|
            if i < n {
                bytes[i]
            } else {
                filler(i)
            },
    );
    assert(well_begun(full, w as int)) by {
        assert forall|i: int| 1 <= i < w implies #[trigger] continues(full, i) by {
            if i < n {
                assert(continues(bytes, i));
            }
        }
    }
    assert(head(full) == Head::Character(w));
    lemma_first_scalar_encoding(full);
    let c = decode_first_scalar(full) as char;
    assert(full.take(w as int) =~= full);
    assert(full.take(n) =~= bytes.take(n));
    assert(starts_encoding(bytes.take(n), c));
}

proof fn lemma_becoming_character_is_begun(bytes: Seq<u8>, n: int)
    requires
        1 <= n <= bytes.len(),
        may_become_character(bytes.take(n)),
    ensures
        well_begun(bytes, n),
{
    let front = bytes.take(n);
    let c = choose|c: char| #[trigger] starts_encoding(front, c);
    let encoding = encode_scalar(c as u32);
    assert(encode_utf8(seq![c]) =~= encoding) by {
        reveal_with_fuel(encode_utf8, 2);
        assert(seq![c].drop_first() =~= Seq::<char>::empty());
    }
    encode_utf8_first_scalar(seq![c]);
    lemma_head_is_first_scalar(encoding);
    assert(well_begun(encoding, encoding.len() as int));
    assert(bytes[0] == front[0] == encoding.take(n)[0]);
    assert forall|i: int| 1 <= i < n implies #[trigger] continues(bytes, i) by {
        assert(continues(encoding, i));
        assert(bytes[i] == front[i] == encoding.take(n)[i]);
        assert(bytes[1] == front[1] == encoding.take(n)[1]);
    }
}

/// Text at the front of a stream is read off, whatever comes after it.
pub proof fn text_is_read_off(text: Seq<char>, rest: Seq<u8>)
    ensures
        decode(encode_utf8(text) + rest).0 == text + decode(rest).0,
        decode(encode_utf8(text) + rest).1 == decode(rest).1,
{
    decoding_in_pieces(encode_utf8(text), rest);
    decoding_of_encoded_text(text);
    assert(Seq::<u8>::empty() + rest =~= rest);
}

/// Bytes which may still become a character are held back, all of them, as
/// long as they are none.
pub proof fn unfinished_character_is_held_back(bytes: Seq<u8>)
    requires
        may_become_character(bytes),
        !valid_first_scalar(bytes),
    ensures
        decode(bytes).0 == Seq::<char>::empty(),
        decode(bytes).1 == bytes,
        decode_whole(bytes) == seq!['\u{FFFD}'],
{
    assert(bytes.take(bytes.len() as int) =~= bytes);
    lemma_becoming_character_is_begun(bytes, bytes.len() as int);
    lemma_head_is_first_scalar(bytes);
    assert(decode_whole(bytes) =~= seq!['\u{FFFD}']);
}

/// Bytes at the front of a stream which can't become a character anymore read
/// as one U+FFFD: as many as could have become one, or else a single byte. What
/// follows is read on its own.
pub proof fn malformed_stretch_reads_as_one(bytes: Seq<u8>, n: int)
    requires
        1 <= n <= bytes.len(),
        !valid_first_scalar(bytes),
        !may_become_character(bytes),
        n > 1 ==> may_become_character(bytes.take(n)),
        n < bytes.len() ==> !may_become_character(bytes.take(n + 1)),
    ensures
        decode(bytes).0 == seq!['\u{FFFD}'] + decode(bytes.skip(n)).0,
        decode(bytes).1 == decode(bytes.skip(n)).1,
{
    let len = bytes.len() as int;
    assert(bytes.take(len) =~= bytes);
    lemma_head_is_first_scalar(bytes);
    if well_begun(bytes, len) {
        lemma_begun_may_become_character(bytes, len);
    }
    if n > 1 {
        lemma_becoming_character_is_begun(bytes, n);
    }
    if n < len && well_begun(bytes, n + 1) {
        lemma_begun_may_become_character(bytes, n + 1);
    }
    assert forall|m: int| n < m <= len implies !#[trigger] well_begun(bytes, m) by {
        if well_begun(bytes, m) {
            assert(well_begun(bytes, n + 1));
        }
    }
    assert(n < 4);
    if n == 3 {
        assert(well_begun(bytes, 3));
    } else if n == 2 {
        assert(!well_begun(bytes, 3));
        assert(well_begun(bytes, 2));
    } else {
        assert(!well_begun(bytes, 3));
        assert(!well_begun(bytes, 2));
    }
    assert(head(bytes) == Head::Malformed(n as nat));
}

/// A whole stream reads the same when its first piece is read ahead.
pub proof fn whole_stream_in_pieces(first: Seq<u8>, second: Seq<u8>)
    ensures
        decode_whole(first + second) == decode(first).0 + decode_whole(decode(first).1 + second),
{
    decoding_in_pieces(first, second);
    assert(decode_whole(first + second) =~= decode(first).0 + decode_whole(
        decode(first).1 + second,
    ));
}

} // verus!
