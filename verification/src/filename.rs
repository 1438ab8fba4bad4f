//! From a request path to the filename it asks for.

use vstd::prelude::*;
use vstd::string::StrSliceExecFns;
use vstd::string::StringExecFns;

verus! {

/// Whether `text` begins with the three characters that encode a space.
pub open spec fn starts_with_encoded_space(text: Seq<char>) -> bool {
    text.len() >= 3 && text[0] == '%' && text[1] == '2' && text[2] == '0'
}

/// `text` with every encoded space, read from the left, replaced by a space.
/// No other escape is decoded.
pub open spec fn spaces_decoded(text: Seq<char>) -> Seq<char>
    decreases text.len(),
{
    if text.len() == 0 {
        text
    } else if starts_with_encoded_space(text) {
        seq![' '] + spaces_decoded(text.skip(3))
    } else {
        seq![text[0]] + spaces_decoded(text.skip(1))
    }
}

/// The characters of `text`, one by one.
fn chars_of(text: &str) -> (chars: Vec<char>)
    ensures
        chars@ == text@,
{
    let mut chars: Vec<char> = Vec::new();
    for c in it: text.chars()
        invariant
            chars@ == it.seq().take(it.index()),
            it.seq() == text@,
    {
        chars.push(c);
    }
    chars
}

/// Replaces every encoded space of `text` by a space.
pub fn decode_spaces(text: &str) -> (decoded: String)
    ensures
        decoded@ == spaces_decoded(text@),
{
    let chars = chars_of(text);
    let n = chars.len();
    let mut decoded = String::new();
    // `start..i` is the stretch read since the last encoded space.
    let mut start: usize = 0;
    let mut i: usize = 0;
    proof {
        assert(text@.skip(0) =~= text@);
        assert(decoded@ + text@.subrange(0, 0) =~= Seq::<char>::empty());
        assert(Seq::<char>::empty() + spaces_decoded(text@) =~= spaces_decoded(text@));
    }
    while i < n
        invariant
            chars@ == text@,
            n == chars.len(),
            start <= i <= n,
            spaces_decoded(text@) == decoded@ + text@.subrange(start as int, i as int)
                + spaces_decoded(text@.skip(i as int)),
        decreases n - i,
    {
        let ghost rest = text@.skip(i as int);
        if n - i >= 3 && chars[i] == '%' && chars[i + 1] == '2' && chars[i + 2] == '0' {
            decoded.append(text.substring_char(start, i));
            decoded.append(" ");
            proof {
                reveal_strlit(" ");
                assert(" "@ =~= seq![' ']);
                assert(starts_with_encoded_space(rest));
                assert(rest.skip(3) =~= text@.skip(i + 3));
                assert(text@.subrange(i + 3, i + 3) =~= Seq::<char>::empty());
            }
            i += 3;
            start = i;
        } else {
            proof {
                assert(!starts_with_encoded_space(rest));
                assert(rest.skip(1) =~= text@.skip(i + 1));
                assert(text@.subrange(start as int, i + 1) =~= text@.subrange(
                    start as int,
                    i as int,
                ) + seq![rest[0]]);
            }
            i += 1;
        }
    }
    decoded.append(text.substring_char(start, n));
    proof {
        assert(text@.skip(n as int) =~= Seq::<char>::empty());
    }
    decoded
}

/// `text` without its leading path separator, if it has one.
pub open spec fn separator_stripped(text: Seq<char>) -> Seq<char> {
    if text.len() > 0 && text[0] == '/' {
        text.skip(1)
    } else {
        text
    }
}

/// The filename that a request for `path` asks for: the path with its
/// encoded spaces decoded and its leading separator stripped.
pub open spec fn filename_of(path: Seq<char>) -> Seq<char> {
    separator_stripped(spaces_decoded(path))
}

/// Strips the leading path separator from `text`, if it has one.
pub fn strip_separator(text: &str) -> (rest: &str)
    ensures
        rest@ == separator_stripped(text@),
{
    let n = text.unicode_len();
    if n > 0 && text.get_char(0) == '/' {
        let rest = text.substring_char(1, n);
        assert(rest@ =~= text@.skip(1));
        rest
    } else {
        text
    }
}

/// The filename that a request for `path` asks for.
pub fn filename_from_path(path: &str) -> (name: String)
    ensures
        name@ == filename_of(path@),
{
    let decoded = decode_spaces(path);
    strip_separator(decoded.as_str()).to_owned()
}

} // verus!
