//! Source text as characters: its lines, and the words on a line.
//!
//! A text is trimmed of the white space at its ends before it is split. A
//! line ends at a line feed or at the end of the text. A word is a longest
//! run of characters none of which is white space.

use vstd::prelude::*;

verus! {

/// Whether a character outside ASCII has Unicode's `White_Space` property:
/// what `char::is_whitespace` returns for it.
pub uninterp spec fn unicode_white_space(c: char) -> bool;

/// Whether `c` is white space. In ASCII the white space is the space and
/// the five characters from the horizontal tab to the carriage return.
pub open spec fn is_white_space(c: char) -> bool {
    if c <= '\u{7f}' {
        c == ' ' || '\u{9}' <= c <= '\u{d}'
    } else {
        unicode_white_space(c)
    }
}

/// `char::is_whitespace` tells whether a character has Unicode's
/// `White_Space` property. For ASCII the answer is stated: the space, and
/// U+0009 to U+000D. For other characters it is only named.
pub assume_specification[ char::is_whitespace ](c: char) -> (white: bool)
    ensures
        white == (if c <= '\u{7f}' {
            c == ' ' || '\u{9}' <= c <= '\u{d}'
        } else {
            unicode_white_space(c)
        }),
;

/// `String::push` appends one character to the string.
pub assume_specification[ String::push ](text: &mut String, c: char)
    ensures
        final(text)@ == old(text)@.push(c),
;

/// `text` without the white space that it begins with.
pub open spec fn trim_start(text: Seq<char>) -> Seq<char>
    decreases text.len(),
{
    if text.len() > 0 && is_white_space(text[0]) {
        trim_start(text.drop_first())
    } else {
        text
    }
}

/// `text` without the white space that it ends with.
pub open spec fn trim_end(text: Seq<char>) -> Seq<char>
    decreases text.len(),
{
    if text.len() > 0 && is_white_space(text.last()) {
        trim_end(text.drop_last())
    } else {
        text
    }
}

/// `text` without the white space at its ends.
pub open spec fn trimmed(text: Seq<char>) -> Seq<char> {
    trim_end(trim_start(text))
}

/// How many characters stand before the first line feed of `text`, or in
/// all of `text` if it holds none.
pub open spec fn line_len(text: Seq<char>) -> nat
    decreases text.len(),
{
    if text.len() == 0 || text[0] == '\n' {
        0
    } else {
        1 + line_len(text.drop_first())
    }
}

/// The lines of `text`, without the line feeds that end them. A line feed at
/// the very end of `text` begins no further line.
pub open spec fn lines(text: Seq<char>) -> Seq<Seq<char>>
    decreases text.len(),
{
    let n = line_len(text) as int;
    if text.len() == 0 {
        Seq::empty()
    } else if n >= text.len() {
        seq![text]
    } else {
        seq![text.take(n)] + lines(text.skip(n + 1))
    }
}

/// How many characters stand before the first white space of `text`, or in
/// all of `text` if it holds none.
pub open spec fn word_len(text: Seq<char>) -> nat
    decreases text.len(),
{
    if text.len() == 0 || is_white_space(text[0]) {
        0
    } else {
        1 + word_len(text.drop_first())
    }
}

/// The words of `line`, in order.
pub open spec fn words(line: Seq<char>) -> Seq<Seq<char>>
    decreases line.len(),
{
    if line.len() == 0 {
        Seq::empty()
    } else if is_white_space(line[0]) {
        words(line.drop_first())
    } else {
        let n = word_len(line) as int;
        proof {
            lemma_word_len(line);
        }
        seq![line.take(n)] + words(line.skip(n))
    }
}

/// The texts of a sequence of strings.
pub open spec fn texts(strings: Seq<String>) -> Seq<Seq<char>> {
    strings.map_values(|s: String| s@)
}

/// A line's length is found by looking for its line feed.
pub proof fn lemma_line_len(text: Seq<char>)
    ensures
        line_len(text) <= text.len(),
        forall|i: int| 0 <= i < line_len(text) ==> #[trigger] text[i] != '\n',
        line_len(text) < text.len() ==> text[line_len(text) as int] == '\n',
    decreases text.len(),
{
    if !(text.len() == 0 || text[0] == '\n') {
        let rest = text.drop_first();
        lemma_line_len(rest);
        assert forall|i: int| 0 <= i < line_len(text) implies #[trigger] text[i] != '\n' by {
            if i > 0 {
                assert(text[i] == rest[i - 1]);
            }
        }
    }
}

/// A word's length is found by looking for the white space behind it.
pub proof fn lemma_word_len(text: Seq<char>)
    ensures
        word_len(text) <= text.len(),
        text.len() > 0 && !is_white_space(text[0]) ==> word_len(text) > 0,
        forall|i: int| 0 <= i < word_len(text) ==> !is_white_space(#[trigger] text[i]),
        word_len(text) < text.len() ==> is_white_space(text[word_len(text) as int]),
    decreases text.len(),
{
    if !(text.len() == 0 || is_white_space(text[0])) {
        let rest = text.drop_first();
        lemma_word_len(rest);
        assert forall|i: int| 0 <= i < word_len(text) implies !is_white_space(
            #[trigger] text[i],
        ) by {
            if i > 0 {
                assert(text[i] == rest[i - 1]);
            }
        }
    }
}

/// No line holds a line feed.
pub proof fn lemma_lines_hold_no_line_feed(text: Seq<char>)
    ensures
        forall|i: int, j: int|
            0 <= i < lines(text).len() && 0 <= j < lines(text)[i].len() ==> #[trigger] lines(
                text,
            )[i][j] != '\n',
    decreases text.len(),
{
    lemma_line_len(text);
    let n = line_len(text) as int;
    if text.len() > 0 && n < text.len() {
        let rest = lines(text.skip(n + 1));
        lemma_lines_hold_no_line_feed(text.skip(n + 1));
        assert forall|i: int, j: int|
            0 <= i < lines(text).len() && 0 <= j < lines(text)[i].len() implies #[trigger] lines(
            text,
        )[i][j] != '\n' by {
            if i > 0 {
                assert(lines(text)[i] == rest[i - 1]);
            }
        }
    }
}

/// Every word has a character, and none of its characters is white space.
pub proof fn lemma_words_hold_no_white_space(line: Seq<char>)
    ensures
        forall|i: int| 0 <= i < words(line).len() ==> (#[trigger] words(line)[i]).len() > 0,
        forall|i: int, j: int|
            0 <= i < words(line).len() && 0 <= j < words(line)[i].len() ==> !is_white_space(
                #[trigger] words(line)[i][j],
            ),
    decreases line.len(),
{
    if line.len() > 0 {
        if is_white_space(line[0]) {
            lemma_words_hold_no_white_space(line.drop_first());
            assert(words(line) == words(line.drop_first()));
        } else {
            lemma_word_len(line);
            let n = word_len(line) as int;
            let first = line.take(n);
            let rest = words(line.skip(n));
            lemma_words_hold_no_white_space(line.skip(n));
            assert(words(line) == seq![first] + rest);
            assert forall|i: int| 0 <= i < words(line).len() implies (#[trigger] words(
                line,
            )[i]).len() > 0 by {
                if i > 0 {
                    assert(words(line)[i] == rest[i - 1]);
                } else {
                    assert(words(line)[0] == first);
                }
            }
            assert forall|i: int, j: int|
                0 <= i < words(line).len() && 0 <= j < words(line)[i].len() implies !is_white_space(
                #[trigger] words(line)[i][j],
            ) by {
                if i > 0 {
                    assert(words(line)[i] == rest[i - 1]);
                } else {
                    assert(words(line)[0] == first);
                    assert(first[j] == line[j]);
                }
            }
        }
    }
}

/// The first `n` characters of `text` are its first line when none of them
/// is a line feed and a line feed or the end of the text follows them.
proof fn lemma_line_found(text: Seq<char>, n: int)
    requires
        0 <= n <= text.len(),
        forall|i: int| 0 <= i < n ==> #[trigger] text[i] != '\n',
        n < text.len() ==> text[n] == '\n',
    ensures
        line_len(text) == n,
    decreases n,
{
    if n > 0 {
        let rest = text.drop_first();
        assert forall|i: int| 0 <= i < n - 1 implies #[trigger] rest[i] != '\n' by {}
        lemma_line_found(rest, n - 1);
    }
}

/// The first `n` characters of `text` are its first word when none of them
/// is white space and white space or the end of the text follows them.
proof fn lemma_word_found(text: Seq<char>, n: int)
    requires
        0 <= n <= text.len(),
        forall|i: int| 0 <= i < n ==> !is_white_space(#[trigger] text[i]),
        n < text.len() ==> is_white_space(text[n]),
    ensures
        word_len(text) == n,
    decreases n,
{
    if n > 0 {
        let rest = text.drop_first();
        assert forall|i: int| 0 <= i < n - 1 implies !is_white_space(#[trigger] rest[i]) by {}
        lemma_word_found(rest, n - 1);
    }
}

/// The characters of a text, ready to be indexed.
pub fn chars_of(text: &str) -> (chars: Vec<char>)
    ensures
        chars@ == text@,
{
    let mut chars: Vec<char> = Vec::new();
    for c in it: text.chars()
        invariant
            it.seq() == text@,
            chars@ == it.seq().take(it.index()),
    {
        chars.push(c);
    }
    chars
}

/// Where the text begins and ends once the white space at its ends is left
/// out.
pub fn trim_bounds(chars: &Vec<char>) -> (bounds: (usize, usize))
    ensures
        bounds.0 <= bounds.1 <= chars.len(),
        chars@.subrange(bounds.0 as int, bounds.1 as int) == trimmed(chars@),
{
    let n = chars.len();
    let mut lo: usize = 0;
    assert(chars@.skip(0) =~= chars@);
    while lo < n && chars[lo].is_whitespace()
        invariant
            lo <= n == chars.len(),
            trim_start(chars@) == trim_start(chars@.skip(lo as int)),
        decreases n - lo,
    {
        assert(chars@.skip(lo as int).drop_first() =~= chars@.skip(lo + 1));
        lo += 1;
    }
    let ghost rest = chars@.skip(lo as int);
    let mut hi: usize = n;
    while hi > lo && chars[hi - 1].is_whitespace()
        invariant
            lo <= hi <= n == chars.len(),
            trim_end(rest) == trim_end(chars@.subrange(lo as int, hi as int)),
        decreases hi - lo,
    {
        assert(chars@.subrange(lo as int, hi as int).drop_last() =~= chars@.subrange(
            lo as int,
            hi - 1,
        ));
        hi -= 1;
    }
    (lo, hi)
}

/// Where the line that begins at `start` ends: at the next line feed, or at
/// `limit`, where the text ends.
pub fn line_end(chars: &Vec<char>, start: usize, limit: usize) -> (end: usize)
    requires
        start <= limit <= chars.len(),
    ensures
        end == start + line_len(chars@.subrange(start as int, limit as int)),
        start <= end <= limit,
{
    let mut end = start;
    while end < limit && chars[end] != '\n'
        invariant
            start <= end <= limit <= chars.len(),
            forall|i: int| start <= i < end ==> #[trigger] chars[i] != '\n',
        decreases limit - end,
    {
        end += 1;
    }
    proof {
        lemma_line_found(chars@.subrange(start as int, limit as int), end - start);
    }
    end
}

/// The words between `start` and `end`.
pub fn split_words(chars: &Vec<char>, start: usize, end: usize) -> (found: Vec<String>)
    requires
        start <= end <= chars.len(),
    ensures
        texts(found@) == words(chars@.subrange(start as int, end as int)),
{
    let ghost line = chars@.subrange(start as int, end as int);
    let mut found: Vec<String> = Vec::new();
    let mut i = start;
    assert(line.skip(0) =~= line);
    while i < end
        invariant
            start <= i <= end <= chars.len(),
            line == chars@.subrange(start as int, end as int),
            words(line) == texts(found@) + words(line.skip(i - start)),
        decreases end - i,
    {
        let ghost rest = line.skip(i - start);
        if chars[i].is_whitespace() {
            assert(rest.drop_first() =~= line.skip(i + 1 - start));
            i += 1;
        } else {
            let mut word = String::new();
            let mut j = i;
            while j < end && !chars[j].is_whitespace()
                invariant
                    start <= i <= j <= end <= chars.len(),
                    line == chars@.subrange(start as int, end as int),
                    rest == line.skip(i - start),
                    word@ == rest.take(j - i),
                    forall|k: int| 0 <= k < j - i ==> !is_white_space(#[trigger] rest[k]),
                decreases end - j,
            {
                word.push(chars[j]);
                j += 1;
            }
            proof {
                lemma_word_found(rest, j - i);
                assert(rest.skip(j - i) =~= line.skip(j - start));
            }
            found.push(word);
            i = j;
        }
    }
    found
}

} // verus!
