//! Moving between strings and sequences of characters.

use vstd::prelude::*;

verus! {

/// Appends one character with `String::push`, which extends the string by
/// exactly that character.
#[verifier::external_body]
pub(crate) fn push_char(text: &mut String, c: char)
    ensures
        final(text)@ == old(text)@.push(c),
{
    text.push(c);
}

/// The characters of `text`, in order.
pub fn chars_of(text: &str) -> (chars: Vec<char>)
    ensures
        chars@ == text@,
{
    let mut chars: Vec<char> = Vec::new();
    for c in it: text.chars()
        invariant
            it.seq() == text@,
            chars@ == text@.take(it.index() as int),
    {
        chars.push(c);
    }
    chars
}

/// The string made of `chars`, in order.
pub fn string_of(chars: &Vec<char>) -> (text: String)
    ensures
        text@ == chars@,
{
    let mut text = String::new();
    let mut i: usize = 0;
    while i < chars.len()
        invariant
            i <= chars.len(),
            text@ == chars@.take(i as int),
        decreases chars.len() - i,
    {
        push_char(&mut text, chars[i]);
        i += 1;
    }
    text
}

/// A line without its end: without the line feed that closes it, and
/// without the carriage return before that line feed. A line that no line
/// feed closes is left as it is, as is everything before the end.
pub open spec fn line_content(line: Seq<char>) -> Seq<char> {
    if line.len() > 0 && line.last() == '\n' {
        let cut = line.drop_last();
        if cut.len() > 0 && cut.last() == '\r' {
            cut.drop_last()
        } else {
            cut
        }
    } else {
        line
    }
}

/// The text of a line that was read, without the line end.
pub fn without_line_end(line: &str) -> (content: String)
    ensures
        content@ == line_content(line@),
{
    let mut chars = chars_of(line);
    let length = chars.len();
    if length > 0 && chars[length - 1] == '\n' {
        chars.pop();
        assert(chars@ =~= line@.drop_last());
        if length > 1 && chars[length - 2] == '\r' {
            chars.pop();
            assert(chars@ =~= line@.drop_last().drop_last());
        }
    }
    string_of(&chars)
}

} // verus!
