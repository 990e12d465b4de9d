//! Strings as sequences of characters: the few operations on text that the rest
//! of the library is built from.

use vstd::prelude::*;
use vstd::std_specs::iter::IteratorSpec;

verus! {

/// What `str::to_lowercase` makes of a string: its Unicode lowercase form.
pub uninterp spec fn lowercase(s: Seq<char>) -> Seq<char>;

/// Whether `char::is_alphanumeric` holds of a character: a Unicode letter or number.
pub uninterp spec fn alphanumeric(c: char) -> bool;

/// Whether `char::is_whitespace` holds of a character: Unicode white space.
pub uninterp spec fn whitespace(c: char) -> bool;

/// The lowercase form of an ASCII character: `A` to `Z` go to `a` to `z`.
pub open spec fn ascii_lower(c: char) -> char {
    if 'A' <= c && c <= 'Z' {
        ((c as u8 + 32) as u8) as char
    } else {
        c
    }
}

/// All characters are ASCII.
pub open spec fn all_ascii(s: Seq<char>) -> bool {
    forall|i: int| 0 <= i < s.len() ==> #[trigger] s[i] <= '\u{7f}'
}

/// The string with each character in its ASCII lowercase form.
pub open spec fn ascii_lowercase(s: Seq<char>) -> Seq<char> {
    Seq::new(s.len(), |i: int| ascii_lower(s[i]))
}

/// `str::to_lowercase` returns the Unicode lowercase form of the string, a function
/// of its characters alone. On a string of ASCII characters that form changes the
/// letters `A` to `Z` to `a` to `z` and nothing else.
pub assume_specification[ str::to_lowercase ](s: &str) -> (lower: String)
    ensures
        lower@ == lowercase(s@),
        all_ascii(s@) ==> lower@ == ascii_lowercase(s@),
;

/// The letters and digits among the ASCII characters.
pub open spec fn ascii_alphanumeric(c: char) -> bool {
    ('a' <= c && c <= 'z') || ('A' <= c && c <= 'Z') || ('0' <= c && c <= '9')
}

/// The white space among the ASCII characters: the space, and the tab, the line
/// feed, the vertical tab, the form feed and the carriage return.
pub open spec fn ascii_whitespace(c: char) -> bool {
    c == ' ' || ('\t' <= c && c <= '\r')
}

/// Whether a character is a letter or a digit: for an ASCII character by the
/// list above, for any other as Unicode has it.
pub open spec fn letter_or_digit(c: char) -> bool {
    if c <= '\u{7f}' {
        ascii_alphanumeric(c)
    } else {
        alphanumeric(c)
    }
}

/// Whether a character is white space: for an ASCII character by the list
/// above, for any other as Unicode has it.
pub open spec fn blank(c: char) -> bool {
    if c <= '\u{7f}' {
        ascii_whitespace(c)
    } else {
        whitespace(c)
    }
}

/// `char::is_alphanumeric` tells whether the character is a Unicode letter or
/// number, a function of the character alone. Among the ASCII characters those
/// are the letters `a` to `z` and `A` to `Z` and the digits `0` to `9`.
pub assume_specification[ char::is_alphanumeric ](c: char) -> (yes: bool)
    ensures
        yes == alphanumeric(c),
        c <= '\u{7f}' ==> yes == ascii_alphanumeric(c),
;

/// `char::is_whitespace` tells whether the character is Unicode white space, a
/// function of the character alone. Among the ASCII characters those are the
/// space and the characters from U+0009 to U+000D.
pub assume_specification[ char::is_whitespace ](c: char) -> (yes: bool)
    ensures
        yes == whitespace(c),
        c <= '\u{7f}' ==> yes == ascii_whitespace(c),
;

/// `String::push` appends one character to the end of the string.
pub assume_specification[ String::push ](s: &mut String, c: char)
    ensures
        final(s)@ == old(s)@.push(c),
;

/// The characters of a string, in order.
pub fn chars_of(s: &str) -> (v: Vec<char>)
    ensures
        v@ == s@,
{
    broadcast use vstd::string::group_string_axioms;

    let mut v: Vec<char> = Vec::new();
    let mut it = s.chars();
    loop
        invariant
            it.obeys_prophetic_iter_laws(),
            it.decrease() is Some,
            v@ + it.remaining() == s@,
        ensures
            v@ == s@,
        decreases it.decrease()->0,
    {
        let ghost before = it;
        let next = it.next();
        match next {
            Some(c) => {
                proof {
                    assert(v@.push(c) + before.remaining().drop_first() =~= v@
                        + before.remaining());
                }
                v.push(c);
            },
            None => {
                proof {
                    assert(v@ + before.remaining() =~= v@);
                }
                break ;
            },
        }
    }
    v
}

/// The string made of the given characters.
pub fn string_of(v: &Vec<char>) -> (s: String)
    ensures
        s@ == v@,
{
    let mut s = String::new();
    let mut i: usize = 0;
    while i < v.len()
        invariant
            i <= v.len(),
            s@ == v@.take(i as int),
        decreases v.len() - i,
    {
        s.push(v[i]);
        proof {
            assert(v@.take(i as int + 1) =~= v@.take(i as int).push(v@[i as int]));
        }
        i += 1;
    }
    proof {
        assert(v@.take(v.len() as int) =~= v@);
    }
    s
}

/// Whether two strings hold the same characters.
pub fn same_chars(a: &Vec<char>, b: &Vec<char>) -> (same: bool)
    ensures
        same == (a@ == b@),
{
    if a.len() != b.len() {
        return false;
    }
    let mut i: usize = 0;
    while i < a.len()
        invariant
            i <= a.len(),
            a.len() == b.len(),
            forall|k: int| 0 <= k < i ==> a@[k] == b@[k],
        decreases a.len() - i,
    {
        if a[i] != b[i] {
            return false;
        }
        i += 1;
    }
    proof {
        assert(a@ =~= b@);
    }
    true
}

/// Whether the characters spell the given word.
pub fn spells(v: &Vec<char>, word: &str) -> (same: bool)
    ensures
        same == (v@ == word@),
{
    let w = chars_of(word);
    same_chars(v, &w)
}

/// Whether `s` begins with `prefix`.
pub open spec fn has_prefix(s: Seq<char>, prefix: Seq<char>) -> bool {
    prefix.len() <= s.len() && s.take(prefix.len() as int) == prefix
}

/// Tests whether the characters begin with the given word.
pub fn starts_with(v: &Vec<char>, word: &str) -> (yes: bool)
    ensures
        yes == has_prefix(v@, word@),
{
    let w = chars_of(word);
    if w.len() > v.len() {
        return false;
    }
    let mut i: usize = 0;
    while i < w.len()
        invariant
            i <= w.len(),
            w.len() <= v.len(),
            w@ == word@,
            forall|k: int| 0 <= k < i ==> v@[k] == w@[k],
        decreases w.len() - i,
    {
        if v[i] != w[i] {
            proof {
                assert(v@.take(w.len() as int)[i as int] == v@[i as int]);
            }
            return false;
        }
        i += 1;
    }
    proof {
        assert(v@.take(w.len() as int) =~= w@);
    }
    true
}

/// The characters from position `from` on.
pub fn tail_from(v: &Vec<char>, from: usize) -> (rest: Vec<char>)
    requires
        from <= v.len(),
    ensures
        rest@ == v@.skip(from as int),
{
    let mut rest: Vec<char> = Vec::new();
    let mut i: usize = from;
    while i < v.len()
        invariant
            from <= i <= v.len(),
            rest@ == v@.subrange(from as int, i as int),
        decreases v.len() - i,
    {
        rest.push(v[i]);
        proof {
            assert(v@.subrange(from as int, i as int + 1) =~= v@.subrange(
                from as int,
                i as int,
            ).push(v@[i as int]));
        }
        i += 1;
    }
    proof {
        assert(v@.subrange(from as int, v.len() as int) =~= v@.skip(from as int));
    }
    rest
}

/// The characters from position `from` up to position `to`.
pub fn part_of(v: &Vec<char>, from: usize, to: usize) -> (part: Vec<char>)
    requires
        from <= to <= v.len(),
    ensures
        part@ == v@.subrange(from as int, to as int),
{
    let mut part: Vec<char> = Vec::new();
    let mut i: usize = from;
    while i < to
        invariant
            from <= i <= to <= v.len(),
            part@ == v@.subrange(from as int, i as int),
        decreases to - i,
    {
        part.push(v[i]);
        proof {
            assert(v@.subrange(from as int, i as int + 1) =~= v@.subrange(
                from as int,
                i as int,
            ).push(v@[i as int]));
        }
        i += 1;
    }
    part
}

/// Appends the characters of `word` to `v`.
pub fn extend_with(v: &mut Vec<char>, word: &Vec<char>)
    ensures
        final(v)@ == old(v)@ + word@,
{
    let mut i: usize = 0;
    while i < word.len()
        invariant
            i <= word.len(),
            v@ == old(v)@ + word@.take(i as int),
        decreases word.len() - i,
    {
        v.push(word[i]);
        proof {
            assert(old(v)@ + word@.take(i as int + 1) =~= (old(v)@ + word@.take(i as int)).push(
                word@[i as int],
            ));
        }
        i += 1;
    }
    proof {
        assert(word@.take(word.len() as int) =~= word@);
    }
}

/// The case-folded form of a string: its lowercase form, which for a string of
/// ASCII characters is the ASCII one.
pub open spec fn folded(s: Seq<char>) -> Seq<char> {
    if all_ascii(s) {
        ascii_lowercase(s)
    } else {
        lowercase(s)
    }
}

/// Folds the case of a string.
pub fn fold_case(s: &str) -> (v: Vec<char>)
    ensures
        v@ == folded(s@),
{
    let lower = s.to_lowercase();
    chars_of(lower.as_str())
}

/// Whether a character separates the words of a name: a hyphen or an underscore.
pub open spec fn is_separator(c: char) -> bool {
    c == '-' || c == '_'
}

/// The string without its hyphens and underscores.
pub open spec fn without_separators(s: Seq<char>) -> Seq<char> {
    s.filter(|c: char| !is_separator(c))
}

/// Drops the hyphens and underscores.
pub fn strip_separators(v: &Vec<char>) -> (out: Vec<char>)
    ensures
        out@ == without_separators(v@),
{
    let mut out: Vec<char> = Vec::new();
    let mut i: usize = 0;
    proof {
        reveal(Seq::filter);
        assert(v@.take(0) =~= Seq::<char>::empty());
    }
    while i < v.len()
        invariant
            i <= v.len(),
            out@ == without_separators(v@.take(i as int)),
        decreases v.len() - i,
    {
        let c: char = v[i];
        proof {
            reveal(Seq::filter);
            assert(v@.take(i as int + 1).drop_last() =~= v@.take(i as int));
        }
        if c != '-' && c != '_' {
            out.push(c);
        }
        i += 1;
    }
    proof {
        assert(v@.take(v.len() as int) =~= v@);
    }
    out
}

} // verus!
