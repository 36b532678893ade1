//! The lines in which an FTP client and the server talk.

use vstd::prelude::*;
use vstd::string::*;
use vstd::utf8::*;

use crate::text::{before, find, lemma_split_joined};

verus! {

/// A command or a reply as it is sent: the text in UTF-8, then a line feed.
pub open spec fn sent(text: Seq<char>) -> Seq<u8> {
    encode_utf8(text).push(0x0a)
}

/// The line that is read from `received`: all up to the first line feed and the line feed,
/// or all that there is.
pub open spec fn first_line(received: Seq<char>) -> Seq<char> {
    if find(received, '\n') < received.len() {
        before(received, '\n').push('\n')
    } else {
        received
    }
}

/// A command or a reply as it is sent.
pub fn sent_line(text: &str) -> (bytes: Vec<u8>)
    ensures
        bytes@ == sent(text@),
{
    let mut bytes: Vec<u8> = Vec::new();
    bytes.extend_from_slice(text.as_bytes());
    bytes.push(0x0a);
    assert(bytes@ =~= sent(text@));
    bytes
}

/// Texts that are encoded one after the other are encoded together.
proof fn lemma_encode_joined(a: Seq<char>, b: Seq<char>)
    ensures
        encode_utf8(a) + encode_utf8(b) == encode_utf8(a + b),
    decreases a.len(),
{
    if a.len() == 0 {
        assert(a + b =~= b);
        assert(encode_utf8(a) + encode_utf8(b) =~= encode_utf8(b));
    } else {
        lemma_encode_joined(a.drop_first(), b);
        assert((a + b).drop_first() =~= a.drop_first() + b);
        assert(encode_utf8(a) + encode_utf8(b) =~= encode_scalar(a[0] as u32) + (encode_utf8(
            a.drop_first(),
        ) + encode_utf8(b)));
    }
}

/// What is sent is the text and a line feed.
pub proof fn lemma_sent(text: Seq<char>)
    ensures
        sent(text) == encode_utf8(text.push('\n')),
{
    let feed = seq!['\n'];
    is_ascii_chars_encode_utf8(feed);
    lemma_encode_joined(text, feed);
    assert(text + feed =~= text.push('\n'));
    assert(encode_utf8(feed) =~= seq![0x0au8]);
    assert(sent(text) =~= encode_utf8(text) + encode_utf8(feed));
}

/// A text of one line that is sent is read as one line, whatever is sent after it.
pub proof fn sent_line_is_read_back(text: Seq<char>, rest: Seq<char>)
    requires
        !text.contains('\n'),
    ensures
        first_line(decode_utf8(sent(text) + encode_utf8(rest))) == text.push('\n'),
{
    lemma_sent(text);
    lemma_encode_joined(text.push('\n'), rest);
    encode_utf8_decode_utf8(text.push('\n') + rest);
    lemma_split_joined(text, '\n', rest);
}

} // verus!
