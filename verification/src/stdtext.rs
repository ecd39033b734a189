//! The parts of std's string handling that vstd leaves unspecified and that
//! this crate relies on: contracts for `String::push` and the Unicode case
//! mappings, and verified white-space trimming and splitting.

use vstd::prelude::*;
use crate::text::chars_of;

verus! {

/// `String::push` appends one character at the end of the string; that is
/// all its documentation promises and all that is claimed here.
pub assume_specification[ String::push ](string: &mut String, ch: char)
    ensures
        final(string)@ == old(string)@.push(ch),
;

/// What `str::to_lowercase` gives for a text: Unicode lower-case mapping,
/// character by character, with the context rule for final sigma.
pub uninterp spec fn lowercase(s: Seq<char>) -> Seq<char>;

/// What `str::to_uppercase` gives for a text: Unicode upper-case mapping,
/// character by character (a character may map to several).
pub uninterp spec fn uppercase(s: Seq<char>) -> Seq<char>;

/// Unicode's `White_Space` property, the white space of `str::trim` and
/// `str::split_whitespace`: tab to carriage return, space, next line,
/// no-break space, ogham space mark, the spaces from en quad to hair space,
/// line and paragraph separators, narrow no-break space, medium mathematical
/// space and ideographic space.
pub open spec fn is_white_space(c: char) -> bool {
    let n = c as u32;
    ||| 0x09 <= n <= 0x0d
    ||| n == 0x20 || n == 0x85 || n == 0xa0 || n == 0x1680
    ||| 0x2000 <= n <= 0x200a
    ||| n == 0x2028 || n == 0x2029 || n == 0x202f || n == 0x205f || n == 0x3000
}

/// The text without its leading white space.
pub open spec fn trim_start(s: Seq<char>) -> Seq<char>
    decreases s.len(),
{
    if s.len() > 0 && is_white_space(s[0]) {
        trim_start(s.drop_first())
    } else {
        s
    }
}

/// The text without its trailing white space.
pub open spec fn trim_end(s: Seq<char>) -> Seq<char>
    decreases s.len(),
{
    if s.len() > 0 && is_white_space(s.last()) {
        trim_end(s.drop_last())
    } else {
        s
    }
}

/// The text without leading and trailing white space.
pub open spec fn trimmed(s: Seq<char>) -> Seq<char> {
    trim_end(trim_start(s))
}

/// The words of `s` after the word `current` that is being read: each
/// maximal run of characters that are not white space, in order.
pub open spec fn words_from(s: Seq<char>, current: Seq<char>) -> Seq<Seq<char>>
    decreases s.len(),
{
    let done: Seq<Seq<char>> = if current.len() > 0 { seq![current] } else { Seq::empty() };
    if s.len() == 0 {
        done
    } else if is_white_space(s[0]) {
        done + words_from(s.drop_first(), Seq::empty())
    } else {
        words_from(s.drop_first(), current.push(s[0]))
    }
}

/// The maximal runs of characters of `s` that are not white space, in order.
pub open spec fn whitespace_words(s: Seq<char>) -> Seq<Seq<char>> {
    words_from(s, Seq::empty())
}

/// Every character of `s` is ASCII.
pub open spec fn is_ascii_text(s: Seq<char>) -> bool {
    forall|i: int| 0 <= i < s.len() ==> (#[trigger] s[i] as u32) < 128
}

/// An ASCII upper-case letter.
pub open spec fn is_ascii_upper(c: char) -> bool {
    'A' <= c && c <= 'Z'
}

/// An ASCII lower-case letter.
pub open spec fn is_ascii_lower(c: char) -> bool {
    'a' <= c && c <= 'z'
}

/// ASCII text with its upper-case letters made lower-case.
pub open spec fn ascii_lowercase(s: Seq<char>) -> Seq<char> {
    s.map_values(|c: char| if is_ascii_upper(c) { ((c as u32) + 32) as char } else { c })
}

/// ASCII text with its lower-case letters made upper-case.
pub open spec fn ascii_uppercase(s: Seq<char>) -> Seq<char> {
    s.map_values(|c: char| if is_ascii_lower(c) { ((c as u32) - 32) as char } else { c })
}

/// `str::to_lowercase`. The Unicode case tables are not written out here: the
/// result is named `lowercase` of the text. Of ASCII text the documented
/// Unicode mapping is the ASCII one: `A` to `Z` become `a` to `z`, every
/// other ASCII character stays.
#[verifier::external_body]
pub(crate) fn to_lowercase(s: &str) -> (r: String)
    ensures
        r@ == lowercase(s@),
        is_ascii_text(s@) ==> r@ == ascii_lowercase(s@),
{
    s.to_lowercase()
}

/// `str::to_uppercase`. The Unicode case tables are not written out here: the
/// result is named `uppercase` of the text. Of ASCII text the documented
/// Unicode mapping is the ASCII one: `a` to `z` become `A` to `Z`, every
/// other ASCII character stays.
#[verifier::external_body]
pub(crate) fn to_uppercase(s: &str) -> (r: String)
    ensures
        r@ == uppercase(s@),
        is_ascii_text(s@) ==> r@ == ascii_uppercase(s@),
{
    s.to_uppercase()
}

/// Whether `c` is `White_Space`.
pub fn is_white_space_char(c: char) -> (r: bool)
    ensures
        r == is_white_space(c),
{
    let n = c as u32;
    (0x09 <= n && n <= 0x0d) || n == 0x20 || n == 0x85 || n == 0xa0 || n == 0x1680 || (0x2000 <= n && n
        <= 0x200a) || n == 0x2028 || n == 0x2029 || n == 0x202f || n == 0x205f || n == 0x3000
}

/// The characters `cs[from..to]` as a string.
fn text_between(cs: &Vec<char>, from: usize, to: usize) -> (r: String)
    requires
        from <= to <= cs@.len(),
    ensures
        r@ == cs@.subrange(from as int, to as int),
{
    let mut out = String::new();
    let mut k = from;
    while k < to
        invariant
            from <= k <= to <= cs@.len(),
            out@ == cs@.subrange(from as int, k as int),
        decreases to - k,
    {
        out.push(cs[k]);
        assert(cs@.subrange(from as int, k + 1) =~= cs@.subrange(from as int, k as int).push(cs@[k as int]));
        k = k + 1;
    }
    out
}

/// The text without leading and trailing `White_Space` characters (what
/// `str::trim` gives).
pub fn trim(s: &str) -> (r: String)
    ensures
        r@ == trimmed(s@),
{
    let cs = chars_of(s);
    let n = cs.len();
    let mut i: usize = 0;
    assert(s@.skip(0) =~= s@);
    while i < n && is_white_space_char(cs[i])
        invariant
            cs@ == s@,
            n == cs@.len(),
            i <= n,
            trim_start(s@) == trim_start(s@.skip(i as int)),
        decreases n - i,
    {
        assert(s@.skip(i as int).drop_first() =~= s@.skip(i + 1));
        i = i + 1;
    }
    assert(s@.skip(i as int) =~= s@.subrange(i as int, n as int));
    assert(trim_start(s@) == s@.subrange(i as int, n as int));
    let mut j: usize = n;
    while j > i && is_white_space_char(cs[j - 1])
        invariant
            cs@ == s@,
            n == cs@.len(),
            i <= j <= n,
            trimmed(s@) == trim_end(s@.subrange(i as int, j as int)),
        decreases j,
    {
        assert(s@.subrange(i as int, j as int).drop_last() =~= s@.subrange(i as int, j - 1));
        j = j - 1;
    }
    text_between(&cs, i, j)
}

/// The texts of a sequence of strings.
pub open spec fn views(words: Seq<String>) -> Seq<Seq<char>> {
    words.map_values(|w: String| w@)
}

/// The words of `s` in order: its maximal runs of characters that are not
/// `White_Space` (what `str::split_whitespace` gives).
pub fn split_whitespace(s: &str) -> (r: Vec<String>)
    ensures
        r@.len() == whitespace_words(s@).len(),
        forall|i: int| 0 <= i < r@.len() ==> (#[trigger] r@[i])@ == whitespace_words(s@)[i],
{
    let cs = chars_of(s);
    let n = cs.len();
    let mut words: Vec<String> = Vec::new();
    let mut current = String::new();
    let mut k: usize = 0;
    assert(s@.skip(0) =~= s@);
    while k < n
        invariant
            cs@ == s@,
            n == cs@.len(),
            k <= n,
            views(words@) + words_from(s@.skip(k as int), current@) == whitespace_words(s@),
        decreases n - k,
    {
        let ghost rest = s@.skip(k as int);
        let ghost done_before = views(words@);
        assert(rest.drop_first() =~= s@.skip(k + 1));
        assert(rest[0] == cs@[k as int]);
        let c = cs[k];
        let ghost cur0 = current@;
        if is_white_space_char(c) {
            assert(words_from(rest, cur0) == (if cur0.len() > 0 { seq![cur0] } else { Seq::<Seq<char>>::empty() })
                + words_from(s@.skip(k + 1), Seq::empty()));
            if current.as_str().unicode_len() > 0 {
                let ghost cur = current@;
                words.push(current);
                current = String::new();
                assert(views(words@) =~= done_before.push(cur));
                assert(done_before.push(cur) + words_from(s@.skip(k + 1), current@) =~= done_before + (seq![cur]
                    + words_from(s@.skip(k + 1), Seq::empty())));
            } else {
                assert(cur0 =~= Seq::<char>::empty());
                assert(Seq::<Seq<char>>::empty() + words_from(s@.skip(k + 1), current@) =~= words_from(
                    s@.skip(k + 1),
                    current@,
                ));
            }
        } else {
            assert(words_from(rest, cur0) == words_from(s@.skip(k + 1), cur0.push(c)));
            current.push(c);
        }
        k = k + 1;
    }
    let ghost done_before = views(words@);
    assert(s@.skip(n as int) =~= Seq::<char>::empty());
    if current.as_str().unicode_len() > 0 {
        let ghost cur = current@;
        words.push(current);
        assert(views(words@) =~= done_before.push(cur));
        assert(done_before + seq![cur] =~= done_before.push(cur));
    } else {
        assert(done_before + Seq::<Seq<char>>::empty() =~= done_before);
    }
    let ghost all = views(words@);
    assert(all =~= whitespace_words(s@));
    assert forall|i: int| 0 <= i < words@.len() implies (#[trigger] words@[i])@ == whitespace_words(s@)[i] by {
        assert(all[i] == words@[i]@);
    }
    words
}

} // verus!
