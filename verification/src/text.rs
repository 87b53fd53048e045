//! String helpers: what is taken on trust from the standard library's
//! case mapping and path parsing, and verified line splitting and
//! comparison of string slices.

use std::path::Path;
use vstd::prelude::*;
use vstd::string::StringSliceAdditionalSpecFns;
use vstd::utf8::{
    char_u32_cast, encode_scalar, encode_utf8, encode_utf8_decode_utf8, encode_utf8_valid_utf8,
    is_char_boundary, is_char_boundary_iff_not_is_continuation_byte,
};

verus! {

/// The lowercase form of `text` by the Unicode case mapping: what
/// `str::to_lowercase` gives for it. It is asked for text beyond ASCII
/// only; the lowercase of ASCII text is [`ascii_lowercase_of`].
pub uninterp spec fn lowercase_of(text: Seq<char>) -> Seq<char>;

/// Whether every character of `text` is below U+0080.
pub open spec fn is_ascii_text(text: Seq<char>) -> bool {
    forall|i: int| 0 <= i < text.len() ==> (#[trigger] text[i] as u32) < 0x80
}

/// The lowercase of an ASCII character: `A` to `Z` become `a` to `z`,
/// and every other character stays.
pub open spec fn ascii_lowercase(c: char) -> char {
    if 'A' <= c <= 'Z' {
        ((c as u32) + 32) as char
    } else {
        c
    }
}

/// The lowercase of ASCII text, character by character.
pub open spec fn ascii_lowercase_of(text: Seq<char>) -> Seq<char> {
    Seq::new(text.len(), |i: int| ascii_lowercase(text[i]))
}

/// The lowercase form of `text`: that of its characters where all are
/// ASCII, and else what the Unicode case mapping gives.
pub open spec fn lowercase(text: Seq<char>) -> Seq<char> {
    if is_ascii_text(text) {
        ascii_lowercase_of(text)
    } else {
        lowercase_of(text)
    }
}

/// ASCII text without capital letters is its own lowercase.
pub proof fn lemma_lowercase_of_lower(text: Seq<char>)
    requires
        is_ascii_text(text),
        forall|i: int| 0 <= i < text.len() ==> !('A' <= #[trigger] text[i] <= 'Z'),
    ensures
        lowercase(text) == text,
{
    assert(ascii_lowercase_of(text) =~= text);
}

/// Calls `str::to_lowercase`.
///
/// Taken on trust: the mapping is a function of the text alone, and on
/// ASCII text it turns `A` to `Z` into `a` to `z` and leaves every other
/// character as it is.
#[verifier::external_body]
pub(crate) fn to_lowercase(text: &str) -> (r: String)
    ensures
        is_ascii_text(text@) ==> r@ == ascii_lowercase_of(text@),
        !is_ascii_text(text@) ==> r@ == lowercase_of(text@),
{
    text.to_lowercase()
}

/// Whether `extension` can be the extension of `path`: it holds no dot
/// itself, and it stands in the path directly behind a dot.
pub open spec fn is_extension_in(path: Seq<char>, extension: Seq<char>) -> bool {
    &&& !extension.contains('.')
    &&& exists|dot: int|
        0 <= dot && dot + 1 + extension.len() <= path.len() && path[dot] == '.'
            && #[trigger] path.subrange(dot + 1, dot + 1 + extension.len()) == extension
}

/// Whether `found` can be what a look for the extension of `path` gives:
/// nothing, or a part of the path that can be its extension.
pub open spec fn can_be_extension_of(path: Seq<char>, found: Option<Seq<char>>) -> bool {
    match found {
        Some(extension) => is_extension_in(path, extension),
        None => true,
    }
}

/// The text of an extension that was found, if any.
pub open spec fn found_text(found: Option<String>) -> Option<Seq<char>> {
    match found {
        Some(extension) => Some(extension@),
        None => None,
    }
}

/// A path without a dot has no extension.
pub proof fn lemma_no_dot_no_extension(path: Seq<char>, found: Option<Seq<char>>)
    requires
        !path.contains('.'),
        can_be_extension_of(path, found),
    ensures
        found is None,
{
    if let Some(extension) = found {
        let dot = choose|dot: int|
            0 <= dot && dot + 1 + extension.len() <= path.len() && path[dot] == '.'
                && #[trigger] path.subrange(dot + 1, dot + 1 + extension.len()) == extension;
        assert(path.contains(path[dot]));
    }
}

/// Whether `path` is a bare file name: it is not empty and holds no
/// separator of any platform, nor a colon.
pub open spec fn is_bare_name(path: Seq<char>) -> bool {
    path.len() > 0 && !path.contains('/') && !path.contains('\\') && !path.contains(':')
}

/// The position behind the last dot of `name`; 0 where it has none.
pub open spec fn behind_last_dot(name: Seq<char>) -> int
    decreases name.len(),
{
    if name.len() == 0 {
        0
    } else if name.last() == '.' {
        name.len() as int
    } else {
        behind_last_dot(name.drop_last())
    }
}

/// The extension of a file name: what stands behind its last dot. A name
/// without a dot has none, nor has one whose only dot is its first
/// character, nor has `..`.
pub open spec fn extension_of_name(name: Seq<char>) -> Option<Seq<char>> {
    let at = behind_last_dot(name);
    if at <= 1 || name =~= seq!['.', '.'] {
        None
    } else {
        Some(name.subrange(at, name.len() as int))
    }
}

/// The position behind the last dot is within the name, a dot stands
/// before it, and none stands behind it.
pub proof fn lemma_behind_last_dot(name: Seq<char>)
    ensures
        0 <= behind_last_dot(name) <= name.len(),
        behind_last_dot(name) > 0 ==> name[behind_last_dot(name) - 1] == '.',
        forall|i: int| behind_last_dot(name) <= i < name.len() ==> name[i] != '.',
        behind_last_dot(name) == 0 <==> !name.contains('.'),
    decreases name.len(),
{
    if name.len() > 0 && name.last() != '.' {
        let init = name.drop_last();
        lemma_behind_last_dot(init);
        assert(forall|i: int| 0 <= i < init.len() ==> init[i] == name[i]);
        if init.contains('.') {
            let i = choose|i: int| 0 <= i < init.len() && init[i] == '.';
            assert(name[i] == '.');
        }
        if name.contains('.') {
            let i = choose|i: int| 0 <= i < name.len() && name[i] == '.';
            assert(init[i] == '.');
        }
    } else if name.len() > 0 {
        assert(name[name.len() - 1] == '.');
    }
}

/// A name made of a stem, a dot and a part without a dot has that part
/// for its extension, unless the stem is empty or the name is `..`.
pub proof fn lemma_extension_of_dotted(stem: Seq<char>, extension: Seq<char>)
    requires
        stem.len() > 0,
        !extension.contains('.'),
        !(stem + seq!['.'] + extension =~= seq!['.', '.']),
    ensures
        extension_of_name(stem + seq!['.'] + extension) == Some(extension),
{
    let name = stem + seq!['.'] + extension;
    lemma_behind_last_dot(name);
    let at = behind_last_dot(name);
    assert(name[stem.len() as int] == '.');
    assert(name.contains('.'));
    assert(at == stem.len() + 1) by {
        if at <= stem.len() {
            assert(name[stem.len() as int] != '.');
        }
        if at > stem.len() + 1 {
            assert(name[at - 1] == extension[at - 1 - stem.len() - 1]);
            assert(extension.contains(extension[at - 1 - stem.len() - 1]));
        }
    }
    assert(name.subrange(at, name.len() as int) =~= extension);
}

/// Calls `std::path::Path::extension` on the path.
///
/// Taken on trust: an extension is the part of the file name behind its
/// last dot, so it stands in the path behind a dot and holds none; and a
/// path that is a bare file name is its own file name, so its extension
/// is [`extension_of_name`]. Which part of any other path is its file
/// name depends on the platform's separators, so nothing more is claimed
/// of such a path.
#[verifier::external_body]
pub(crate) fn path_extension(path: &str) -> (r: Option<String>)
    ensures
        r matches Some(extension) ==> is_extension_in(path@, extension@),
        is_bare_name(path@) ==> found_text(r) == extension_of_name(path@),
{
    match Path::new(path).extension() {
        Some(extension) => Some(extension.to_string_lossy().into_owned()),
        None => None,
    }
}

/// The position of the first line feed of `text`, or its length where it
/// has none.
pub open spec fn first_line_feed(text: Seq<char>) -> int
    decreases text.len(),
{
    if text.len() == 0 || text[0] == '\n' {
        0
    } else {
        1 + first_line_feed(text.drop_first())
    }
}

/// A line without the carriage return that stood before its line feed.
pub open spec fn without_carriage_return(line: Seq<char>) -> Seq<char> {
    if line.len() > 0 && line.last() == '\r' {
        line.drop_last()
    } else {
        line
    }
}

/// The lines of `text`. A line ends at a line feed, or at a carriage
/// return directly before one; line endings are not part of the lines.
/// Text behind the last line feed is a line of its own, kept as it is;
/// where nothing stands behind it, no empty line is added.
pub open spec fn lines_of(text: Seq<char>) -> Seq<Seq<char>>
    decreases text.len(),
{
    if text.len() == 0 {
        Seq::empty()
    } else {
        let at = first_line_feed(text);
        if 0 <= at < text.len() {
            seq![without_carriage_return(text.subrange(0, at))] + lines_of(
                text.subrange(at + 1, text.len() as int),
            )
        } else {
            seq![text]
        }
    }
}

/// The position of the first line feed is within the text or at its end.
pub proof fn lemma_first_line_feed_bound(text: Seq<char>)
    ensures
        0 <= first_line_feed(text) <= text.len(),
    decreases text.len(),
{
    if text.len() > 0 && text[0] != '\n' {
        lemma_first_line_feed_bound(text.drop_first());
    }
}

/// The views of a vector of strings.
pub open spec fn views_of(lines: Seq<String>) -> Seq<Seq<char>> {
    Seq::new(lines.len(), |i: int| lines[i]@)
}

/// In UTF-8 a character below U+0080 is one byte, the character itself,
/// and every byte of any other character is 0x80 or above: a byte below
/// 0x80 always stands for itself.
pub proof fn lemma_scalar_bytes(c: char)
    ensures
        encode_scalar(c as u32).len() >= 1,
        (c as u32) < 0x80 ==> encode_scalar(c as u32).len() == 1 && encode_scalar(c as u32)[0]
            == c as u32,
        (c as u32) >= 0x80 ==> forall|j: int|
            0 <= j < encode_scalar(c as u32).len() ==> #[trigger] encode_scalar(c as u32)[j]
                >= 0x80,
{
    let s = c as u32;
    if s < 0x80 {
        assert(((s & 0x7F) as u8) as u32 == s) by (bit_vector)
            requires
                s < 0x80,
        ;
    } else {
        assert((0xC0 | ((s >> 6) & 0x1F) as u8) >= 0x80) by (bit_vector);
        assert((0xE0 | ((s >> 12) & 0x0F) as u8) >= 0x80) by (bit_vector);
        assert((0xF0 | ((s >> 18) & 0x7) as u8) >= 0x80) by (bit_vector);
        assert((0x80 | (s & 0x3F) as u8) >= 0x80) by (bit_vector);
        assert((0x80 | ((s >> 6) & 0x3F) as u8) >= 0x80) by (bit_vector);
        assert((0x80 | ((s >> 12) & 0x3F) as u8) >= 0x80) by (bit_vector);
    }
}

/// Characters with the same code are the same character.
pub proof fn lemma_char_by_code(c: char, d: char)
    requires
        c as u32 == d as u32,
    ensures
        c == d,
{
    char_u32_cast(c, c as u32);
    char_u32_cast(d, d as u32);
}

/// The UTF-8 form of a text is that of its parts, one after the other.
pub proof fn lemma_encode_concat(a: Seq<char>, b: Seq<char>)
    ensures
        encode_utf8(a + b) == encode_utf8(a) + encode_utf8(b),
    decreases a.len(),
{
    if a.len() == 0 {
        assert(a + b =~= b);
        assert(encode_utf8(a) + encode_utf8(b) =~= encode_utf8(b));
    } else {
        lemma_encode_concat(a.drop_first(), b);
        assert((a + b).drop_first() =~= a.drop_first() + b);
        assert((a + b)[0] == a[0]);
        assert(encode_utf8(a + b) =~= encode_utf8(a) + encode_utf8(b));
    }
}

/// Texts with the same UTF-8 form are the same text.
pub proof fn lemma_encode_injective(a: Seq<char>, b: Seq<char>)
    requires
        encode_utf8(a) == encode_utf8(b),
    ensures
        a == b,
{
    encode_utf8_decode_utf8(a);
    encode_utf8_decode_utf8(b);
}

/// Where the bytes of a text fall into two parts that are each the UTF-8
/// form of a text, the text is those two, one after the other.
pub proof fn lemma_split_text(text: Seq<char>, head: Seq<char>, tail: Seq<char>, at: int)
    requires
        0 <= at <= encode_utf8(text).len(),
        encode_utf8(head) == encode_utf8(text).subrange(0, at),
        encode_utf8(tail) == encode_utf8(text).subrange(at, encode_utf8(text).len() as int),
    ensures
        text == head + tail,
{
    lemma_encode_concat(head, tail);
    assert(encode_utf8(head) + encode_utf8(tail) =~= encode_utf8(text));
    lemma_encode_injective(text, head + tail);
}

/// A character below U+0080 shows in the UTF-8 form as its own byte.
pub proof fn lemma_ascii_char_shows(text: Seq<char>, at: int) -> (offset: int)
    requires
        0 <= at < text.len(),
        (text[at] as u32) < 0x80,
    ensures
        0 <= offset < encode_utf8(text).len(),
        encode_utf8(text)[offset] == text[at] as u32,
{
    let head = text.take(at);
    let tail = text.skip(at);
    assert(text =~= head + tail);
    lemma_encode_concat(head, tail);
    lemma_scalar_bytes(text[at]);
    assert(tail[0] == text[at]);
    let offset = encode_utf8(head).len() as int;
    assert(encode_utf8(tail)[0] == text[at] as u32);
    offset
}

/// A byte below 0x80 at the start of the UTF-8 form is the first
/// character.
pub proof fn lemma_ascii_first_byte(text: Seq<char>)
    requires
        encode_utf8(text).len() > 0,
        encode_utf8(text)[0] < 0x80,
    ensures
        text.len() > 0,
        text[0] as u32 == encode_utf8(text)[0],
        encode_utf8(text.drop_first()) == encode_utf8(text).subrange(
            1,
            encode_utf8(text).len() as int,
        ),
{
    if text.len() == 0 {
        assert(encode_utf8(text).len() == 0);
    }
    let first = encode_scalar(text[0] as u32);
    lemma_scalar_bytes(text[0]);
    assert(encode_utf8(text) == first + encode_utf8(text.drop_first()));
    assert(encode_utf8(text)[0] == first[0]);
    assert((text[0] as u32) < 0x80);
    assert(first.len() == 1);
    assert(encode_utf8(text.drop_first()) =~= encode_utf8(text).subrange(
        1,
        encode_utf8(text).len() as int,
    ));
}

/// A byte below 0x80 at the end of the UTF-8 form is the last character.
pub proof fn lemma_ascii_last_byte(text: Seq<char>)
    requires
        text.len() > 0,
    ensures
        encode_utf8(text).len() > 0,
        encode_utf8(text).last() < 0x80 ==> text.last() as u32 == encode_utf8(text).last()
            && encode_utf8(text.drop_last()) == encode_utf8(text).drop_last(),
        (text.last() as u32) < 0x80 ==> encode_utf8(text).last() == text.last() as u32,
{
    let init = text.drop_last();
    let last = seq![text.last()];
    assert(text =~= init + last);
    lemma_encode_concat(init, last);
    lemma_scalar_bytes(text.last());
    let scalar = encode_scalar(text.last() as u32);
    assert(last.drop_first() =~= Seq::<char>::empty());
    assert(encode_utf8(last.drop_first()) =~= Seq::<u8>::empty());
    assert(last[0] == text.last());
    assert(encode_utf8(last) =~= scalar) by {
        assert(encode_utf8(last) == scalar + encode_utf8(last.drop_first()));
    }
    let bytes = encode_utf8(text);
    assert(bytes == encode_utf8(init) + scalar);
    assert(bytes.last() == scalar[scalar.len() - 1]);
    if bytes.last() < 0x80 {
        assert((text.last() as u32) < 0x80);
        assert(scalar.len() == 1);
        assert(encode_utf8(init) =~= bytes.drop_last());
    }
}

/// Where a text is two parts, the first without a line feed and the
/// second opening with one or empty, the first line feed stands where the
/// second part begins.
pub proof fn lemma_first_line_feed_at(head: Seq<char>, tail: Seq<char>)
    requires
        forall|k: int| 0 <= k < head.len() ==> head[k] != '\n',
        tail.len() > 0 ==> tail[0] == '\n',
    ensures
        first_line_feed(head + tail) == head.len(),
    decreases head.len(),
{
    let text = head + tail;
    if head.len() == 0 {
        assert(text =~= tail);
    } else {
        assert(text[0] == head[0]);
        assert(text.drop_first() =~= head.drop_first() + tail);
        lemma_first_line_feed_at(head.drop_first(), tail);
    }
}

/// Splits the first line off a text that is not empty: gives the line,
/// without its line ending, and what follows the line ending.
pub fn split_first_line<'a>(text: &'a str) -> (r: (&'a str, &'a str))
    requires
        text@.len() > 0,
    ensures
        lines_of(text@) == seq![r.0@] + lines_of(r.1@),
        r.1@.len() < text@.len(),
{
    let bytes = text.as_bytes();
    let mut at: usize = 0;
    while at < bytes.len() && bytes[at] != 0x0A
        invariant
            at <= bytes@.len(),
            forall|k: int| 0 <= k < at ==> bytes@[k] != 0x0A,
        decreases bytes@.len() - at,
    {
        at += 1;
    }
    proof {
        encode_utf8_valid_utf8(text@);
        lemma_first_line_feed_bound(text@);
    }
    if at == bytes.len() {
        proof {
            reveal_strlit("");
            assert forall|k: int| 0 <= k < text@.len() implies text@[k] != '\n' by {
                if text@[k] == '\n' {
                    let offset = lemma_ascii_char_shows(text@, k);
                }
            }
            lemma_first_line_feed_at(text@, Seq::empty());
            assert(text@ + Seq::<char>::empty() =~= text@);
            assert(lines_of(""@) =~= Seq::<Seq<char>>::empty());
            assert(seq![text@] + lines_of(""@) =~= seq![text@]);
        }
        return (text, "");
    }
    proof {
        is_char_boundary_iff_not_is_continuation_byte(bytes@, at as int);
    }
    let (head, tail) = text.split_at(at);
    proof {
        lemma_split_text(text@, head@, tail@, at as int);
        encode_utf8_valid_utf8(tail@);
        assert(encode_utf8(tail@)[0] == 0x0A);
        lemma_ascii_first_byte(tail@);
        reveal_with_fuel(is_char_boundary, 2);
        assert(is_char_boundary(encode_utf8(tail@), 1));
    }
    let (feed, rest) = tail.split_at(1);
    proof {
        lemma_encode_injective(rest@, tail@.drop_first());
        assert forall|k: int| 0 <= k < head@.len() implies head@[k] != '\n' by {
            if head@[k] == '\n' {
                let offset = lemma_ascii_char_shows(head@, k);
                assert(bytes@[offset] == encode_utf8(head@)[offset]);
            }
        }
        lemma_char_by_code(tail@[0], '\n');
        lemma_first_line_feed_at(head@, tail@);
        assert(text@.subrange(0, head@.len() as int) =~= head@);
        assert(text@.subrange(head@.len() as int + 1, text@.len() as int) =~= rest@);
    }
    let head_bytes = head.as_bytes();
    let line = if head_bytes.len() > 0 && head_bytes[head_bytes.len() - 1] == 0x0D {
        proof {
            encode_utf8_valid_utf8(head@);
            is_char_boundary_iff_not_is_continuation_byte(head_bytes@, head_bytes@.len() - 1);
            lemma_ascii_last_byte(head@);
            lemma_char_by_code(head@.last(), '\r');
        }
        let (stripped, _) = head.split_at(head_bytes.len() - 1);
        proof {
            assert(head_bytes@.subrange(0, head_bytes@.len() - 1) =~= head_bytes@.drop_last());
            lemma_encode_injective(stripped@, head@.drop_last());
        }
        stripped
    } else {
        proof {
            if head@.len() > 0 {
                lemma_ascii_last_byte(head@);
            }
        }
        head
    };
    assert(line@ == without_carriage_return(head@));
    (line, rest)
}

/// Whether two string slices hold the same text.
pub fn str_eq(a: &str, b: &str) -> (r: bool)
    ensures
        r == (a@ == b@),
{
    let x = a.as_bytes();
    let y = b.as_bytes();
    proof {
        encode_utf8_decode_utf8(a@);
        encode_utf8_decode_utf8(b@);
    }
    if x.len() != y.len() {
        return false;
    }
    let mut i: usize = 0;
    while i < x.len()
        invariant
            i <= x@.len(),
            x@.len() == y@.len(),
            x@ == encode_utf8(a@),
            y@ == encode_utf8(b@),
            forall|k: int| 0 <= k < i ==> x@[k] == y@[k],
        decreases x@.len() - i,
    {
        if x[i] != y[i] {
            return false;
        }
        i += 1;
    }
    assert(x@ =~= y@);
    true
}

} // verus!
