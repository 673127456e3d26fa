//! Commands and replies as lines of text, for an administrator's console.

use vstd::prelude::*;
use vstd::string::StringExecFns;
use vstd::utf8::decode_utf8;
use vstd::utf8::encode_utf8;
use vstd::utf8::valid_utf8;
use crate::octets::copy_bytes;
use crate::protocol::text::decimal_text;
use crate::protocol::text::push_u64;
use crate::protocol::types::frames;
use crate::protocol::types::lemma_array_view;
use crate::protocol::types::Frame;
use crate::protocol::types::RespValue;

verus! {

/// The text of `bytes`, with U+FFFD in place of what is not UTF-8, as
/// `String::from_utf8_lossy` gives it.
pub uninterp spec fn lossy_text(bytes: Seq<u8>) -> Seq<char>;

/// The words of `line`: its maximal runs of characters that are not white
/// space, in order, as `str::split_whitespace` gives them.
pub uninterp spec fn words_of(line: Seq<char>) -> Seq<Seq<char>>;

/// `String::from_utf8_lossy`: the bytes as text, with U+FFFD in place of
/// what is not UTF-8. Bytes that are UTF-8 give the text they spell; the
/// result for others is a function of the bytes, named `lossy_text`.
#[verifier::external_body]
pub(crate) fn utf8_lossy(bytes: &[u8]) -> (r: String)
    ensures
        r@ == lossy_text(bytes@),
        valid_utf8(bytes@) ==> r@ == decode_utf8(bytes@),
{
    String::from_utf8_lossy(bytes).into_owned()
}

/// The strings of `words` as sequences of characters.
pub open spec fn word_views(words: Seq<&str>) -> Seq<Seq<char>> {
    words.map_values(|word: &str| word@)
}

/// `str::split_whitespace`: the words of the line, in order. The result is
/// a function of the line, named `words_of`.
#[verifier::external_body]
pub(crate) fn split_words<'a>(line: &'a str) -> (r: Vec<&'a str>)
    ensures
        word_views(r@) == words_of(line@),
{
    line.split_whitespace().collect()
}

/// The words `words` as bulk strings.
pub open spec fn word_frames(words: Seq<Seq<char>>) -> Seq<Frame> {
    words.map_values(|word: Seq<char>| Frame::BulkString(encode_utf8(word)))
}

/// The command that the words `words` spell: an array of bulk strings, one
/// for each word; nothing where there is no word.
pub fn command_from_words(words: &[&str]) -> (r: Option<RespValue>)
    ensures
        match r {
            Some(command) => words@.len() > 0 && command@ == Frame::Array(
                word_frames(word_views(words@)),
            ),
            None => words@.len() == 0,
        },
{
    if words.len() == 0 {
        return None;
    }
    let mut parts: Vec<RespValue> = Vec::new();
    let mut i: usize = 0;
    while i < words.len()
        invariant
            i <= words@.len(),
            frames(parts@) == word_frames(word_views(words@).take(i as int)),
        decreases words@.len() - i,
    {
        let ghost before = frames(parts@);
        let part = RespValue::BulkString(copy_bytes(words[i].as_bytes()));
        parts.push(part);
        proof {
            assert(frames(parts@) =~= before.push(part@));
            assert(frames(parts@) =~= word_frames(word_views(words@).take(i + 1)));
        }
        i += 1;
    }
    proof {
        assert(word_views(words@).take(i as int) =~= word_views(words@));
    }
    Some(RespValue::array(parts))
}

/// The command that `line` spells: an array of bulk strings, one for each
/// word of the line; nothing where the line has no word.
pub fn command_from_line(line: &str) -> (r: Option<RespValue>)
    ensures
        match r {
            Some(command) => words_of(line@).len() > 0 && command@ == Frame::Array(
                word_frames(words_of(line@)),
            ),
            None => words_of(line@).len() == 0,
        },
{
    let words = split_words(line);
    command_from_words(words.as_slice())
}

/// A reply as text for a reader: a string as it is, an error after
/// `Error: `, a number in decimal, null as `(nil)`, an empty array as
/// `(empty array)`, and the items of another array one to a line, each after
/// its number, counted from 1, and `) `.
pub open spec fn rendered(f: Frame) -> Seq<char>
    decreases f, 0nat,
{
    match f {
        Frame::SimpleString(s) => s,
        Frame::Error(e) => "Error: "@ + e,
        Frame::Integer(i) => decimal_text(i as int),
        Frame::BulkString(b) => lossy_text(b),
        Frame::Null => "(nil)"@,
        Frame::Array(items) => if items.len() == 0 {
            "(empty array)"@
        } else {
            rendered_from(items, 0)
        },
    }
}

/// The lines for the items of `items` from position `i` on.
pub open spec fn rendered_from(items: Seq<Frame>, i: nat) -> Seq<char>
    decreases items, items.len() - i,
{
    if i >= items.len() {
        Seq::empty()
    } else {
        (if i > 0 {
            "\n"@
        } else {
            Seq::empty()
        }) + decimal_text(i as int + 1) + ") "@ + rendered(items[i as int]) + rendered_from(
            items,
            i + 1,
        )
    }
}

/// Appends the text of `value` to `out`.
fn render_into(out: &mut String, value: &RespValue)
    ensures
        final(out)@ == old(out)@ + rendered(value@),
    decreases value,
{
    match value {
        RespValue::SimpleString(s) => {
            out.append(s.as_str());
        },
        RespValue::Error(e) => {
            out.append("Error: ");
            out.append(e.as_str());
            assert(out@ =~= old(out)@ + rendered(value@));
        },
        RespValue::Integer(i) => {
            crate::protocol::text::push_i64(out, *i);
        },
        RespValue::BulkString(bytes) => {
            let text = utf8_lossy(bytes.as_slice());
            out.append(text.as_str());
        },
        RespValue::Null => {
            out.append("(nil)");
        },
        RespValue::Array(items) => {
            proof {
                lemma_array_view(*items);
            }
            if items.len() == 0 {
                out.append("(empty array)");
            } else {
                let ghost head = out@;
                let ghost all = frames(items@);
                proof {
                    assert forall|j: int| 0 <= j < items@.len() implies decreases_to!(*value => #[trigger] items@[j]) by {
                        vstd::std_specs::vec::axiom_vec_index_decreases(*items, j);
                    }
                }
                let mut i: usize = 0;
                while i < items.len()
                    invariant
                        i <= items@.len(),
                        items@.len() <= usize::MAX,
                        all == frames(items@),
                        forall|j: int|
                            0 <= j < items@.len() ==> decreases_to!(*value => #[trigger] items@[j]),
                        out@ + rendered_from(all, i as nat) == head + rendered_from(all, 0),
                    decreases items@.len() - i,
                {
                    let ghost before = out@;
                    if i > 0 {
                        out.append("\n");
                    }
                    push_u64(out, (i + 1) as u64);
                    out.append(") ");
                    let item = &items[i];
                    render_into(out, item);
                    proof {
                        assert(all[i as int] == item@);
                        assert(out@ + rendered_from(all, (i + 1) as nat) =~= before
                            + rendered_from(all, i as nat));
                    }
                    i += 1;
                }
                assert(out@ =~= old(out)@ + rendered(value@)) by {
                    assert(rendered_from(all, i as nat) =~= Seq::<char>::empty());
                    assert(out@ =~= out@ + rendered_from(all, i as nat));
                }
            }
        },
    }
}

/// The text of `value` for a reader.
pub fn render(value: &RespValue) -> (r: String)
    ensures
        r@ == rendered(value@),
{
    let mut out = String::new();
    render_into(&mut out, value);
    assert(out@ =~= rendered(value@));
    out
}

/// Whether a reply tells of success: every reply but an error does.
pub fn is_success(value: &RespValue) -> (r: bool)
    ensures
        r == !(value@ is Error),
{
    match value {
        RespValue::Error(_) => false,
        _ => true,
    }
}

} // verus!
