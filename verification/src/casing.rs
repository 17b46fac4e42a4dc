//! Identifier casing: `snake_case` names rewritten for the consumers of the
//! catalog and of query results.

use vstd::prelude::*;
use crate::text::{chars_of, string_of};

verus! {

/// What `str::to_uppercase` returns for a string with these characters.
pub uninterp spec fn upper_of(s: Seq<char>) -> Seq<char>;

/// What `str::to_lowercase` returns for a string with these characters.
pub uninterp spec fn lower_of(s: Seq<char>) -> Seq<char>;

/// `str::to_uppercase`: the Unicode upper-case form of `s`, a function of
/// its characters alone.
#[verifier::external_body]
pub(crate) fn to_upper(s: &str) -> (r: String)
    ensures
        r@ == upper_of(s@),
{
    s.to_uppercase()
}

/// `str::to_lowercase`: the Unicode lower-case form of `s`, a function of
/// its characters alone.
#[verifier::external_body]
pub(crate) fn to_lower(s: &str) -> (r: String)
    ensures
        r@ == lower_of(s@),
{
    s.to_lowercase()
}

/// The upper-case form of an ASCII lower-case letter; any other character
/// unchanged.
pub open spec fn ascii_upper(c: char) -> char {
    if 'a' <= c && c <= 'z' {
        ((c as u32 - 32) as u8) as char
    } else {
        c
    }
}

fn ascii_upper_char(c: char) -> (r: char)
    ensures
        r == ascii_upper(c),
{
    if 'a' <= c && c <= 'z' {
        ((c as u32 - 32) as u8) as char
    } else {
        c
    }
}

/// The camel-case form of a snake-case name: every `_` is dropped, and a
/// character that directly follows a `_` is put in ASCII upper case.
pub open spec fn camel_text(s: Seq<char>) -> Seq<char>
    decreases s.len(),
{
    if s.len() == 0 {
        Seq::empty()
    } else {
        let head = camel_text(s.drop_last());
        let c = s.last();
        if c == '_' {
            head
        } else if s.len() >= 2 && s[s.len() - 2] == '_' {
            head.push(ascii_upper(c))
        } else {
            head.push(c)
        }
    }
}

/// The camel-case form of any name holds no `_`.
pub proof fn lemma_camel_text_has_no_underscore(s: Seq<char>)
    ensures
        !camel_text(s).contains('_'),
    decreases s.len(),
{
    if s.len() > 0 {
        lemma_camel_text_has_no_underscore(s.drop_last());
        let head = camel_text(s.drop_last());
        let c = s.last();
        if c != '_' {
            let pushed = if s.len() >= 2 && s[s.len() - 2] == '_' {
                ascii_upper(c)
            } else {
                c
            };
            assert(pushed != '_');
            assert(camel_text(s) == head.push(pushed));
            if camel_text(s).contains('_') {
                let i = choose|i: int| 0 <= i < camel_text(s).len() && camel_text(s)[i] == '_';
                if i < head.len() {
                    assert(head[i] == '_');
                }
            }
        }
    }
}

/// A name that holds no `_` is its own camel-case form.
pub proof fn lemma_camel_text_keeps_plain_names(s: Seq<char>)
    requires
        !s.contains('_'),
    ensures
        camel_text(s) == s,
    decreases s.len(),
{
    if s.len() > 0 {
        let head = s.drop_last();
        assert(!head.contains('_')) by {
            if head.contains('_') {
                let i = choose|i: int| 0 <= i < head.len() && head[i] == '_';
                assert(s[i] == '_');
            }
        }
        lemma_camel_text_keeps_plain_names(head);
        assert(s[s.len() - 1] != '_');
        if s.len() >= 2 {
            assert(s[s.len() - 2] != '_');
        }
        assert(head.push(s.last()) =~= s);
    } else {
        assert(camel_text(s) =~= s);
    }
}

/// Rewrites a snake-case name in camel case.
pub fn to_camel_case(snake_str: &str) -> (result: String)
    ensures
        result@ == camel_text(snake_str@),
{
    let chars = chars_of(snake_str);
    let mut result = String::new();
    let mut capitalize_next = false;
    let mut i: usize = 0;
    while i < chars.len()
        invariant
            i <= chars.len(),
            chars@ == snake_str@,
            result@ == camel_text(chars@.take(i as int)),
            capitalize_next == (i > 0 && chars@[i - 1] == '_'),
        decreases chars.len() - i,
    {
        let c = chars[i];
        assert(chars@.take(i + 1).drop_last() =~= chars@.take(i as int));
        if c == '_' {
            capitalize_next = true;
        } else if capitalize_next {
            result.push(ascii_upper_char(c));
            capitalize_next = false;
        } else {
            result.push(c);
        }
        i += 1;
    }
    assert(chars@.take(chars.len() as int) =~= chars@);
    result
}

/// One word with its first character in upper case and the rest in lower
/// case; the empty word stays empty.
pub open spec fn capitalized(word: Seq<char>) -> Seq<char> {
    if word.len() == 0 {
        Seq::empty()
    } else {
        upper_of(seq![word[0]]) + lower_of(word.skip(1))
    }
}

/// The position of the last `_` in `s`, or -1 when it holds none.
pub open spec fn last_underscore(s: Seq<char>) -> int
    decreases s.len(),
{
    if s.len() == 0 {
        -1
    } else if s.last() == '_' {
        s.len() - 1
    } else {
        last_underscore(s.drop_last())
    }
}

/// The Pascal-case form of a snake-case name: the name is cut at every `_`
/// and each word is capitalized.
pub open spec fn pascal_text(s: Seq<char>) -> Seq<char>
    decreases s.len(),
{
    let k = last_underscore(s);
    if 0 <= k < s.len() {
        pascal_text(s.take(k)) + capitalized(s.skip(k + 1))
    } else {
        capitalized(s)
    }
}

fn capitalize(word: &Vec<char>) -> (r: String)
    ensures
        r@ == capitalized(word@),
{
    if word.len() == 0 {
        return String::new();
    }
    let mut first: Vec<char> = Vec::new();
    first.push(word[0]);
    assert(first@ =~= seq![word@[0]]);
    let mut rest: Vec<char> = Vec::new();
    let mut i: usize = 1;
    while i < word.len()
        invariant
            1 <= i <= word.len(),
            rest@ == word@.subrange(1, i as int),
        decreases word.len() - i,
    {
        rest.push(word[i]);
        assert(rest@ =~= word@.subrange(1, i + 1));
        i += 1;
    }
    assert(rest@ =~= word@.skip(1));
    let mut r = to_upper(string_of(&first).as_str());
    let low = to_lower(string_of(&rest).as_str());
    r.append(low.as_str());
    r
}

/// Rewrites a snake-case name in Pascal case.
pub fn pascal_case(s: &str) -> (result: String)
    ensures
        result@ == pascal_text(s@),
{
    let chars = chars_of(s);
    let mut result = String::new();
    let mut word: Vec<char> = Vec::new();
    let ghost mut k: int = -1;
    let mut i: usize = 0;
    while i < chars.len()
        invariant
            i <= chars.len(),
            chars@ == s@,
            -1 <= k < i,
            k == last_underscore(chars@.take(i as int)),
            word@ == chars@.subrange(k + 1, i as int),
            k == -1 ==> result@ == Seq::<char>::empty(),
            k >= 0 ==> result@ == pascal_text(chars@.take(k)),
        decreases chars.len() - i,
    {
        let c = chars[i];
        assert(chars@.take(i + 1).drop_last() =~= chars@.take(i as int));
        if c == '_' {
            let cap = capitalize(&word);
            result.append(cap.as_str());
            proof {
                let prefix = chars@.take(i as int);
                assert(prefix.skip(k + 1) =~= word@);
                if k >= 0 {
                    assert(prefix.take(k) =~= chars@.take(k));
                }
                assert(result@ =~= pascal_text(prefix));
                k = i as int;
            }
            word = Vec::new();
            assert(word@ =~= chars@.subrange(k + 1, i + 1));
        } else {
            word.push(c);
            assert(word@ =~= chars@.subrange(k + 1, i + 1));
        }
        i += 1;
    }
    let cap = capitalize(&word);
    result.append(cap.as_str());
    proof {
        assert(chars@.take(chars.len() as int) =~= chars@);
        assert(chars@.skip(k + 1) =~= word@);
        assert(result@ =~= pascal_text(chars@));
    }
    result
}

/// The camel-case form used for field names: the Pascal-case form with its
/// first character in lower case.
pub open spec fn field_text(s: Seq<char>) -> Seq<char> {
    let pascal = pascal_text(s);
    if pascal.len() == 0 {
        pascal
    } else {
        lower_of(seq![pascal[0]]) + pascal.skip(1)
    }
}

/// Rewrites a snake-case name as a field name: Pascal case with a lower-case
/// first character. An empty name stays empty.
pub fn camel_case(s: &str) -> (result: String)
    ensures
        result@ == field_text(s@),
{
    let pascal = pascal_case(s);
    let chars = chars_of(pascal.as_str());
    if chars.len() == 0 {
        return pascal;
    }
    let mut first: Vec<char> = Vec::new();
    first.push(chars[0]);
    assert(first@ =~= seq![chars@[0]]);
    let mut result = to_lower(string_of(&first).as_str());
    let mut i: usize = 1;
    while i < chars.len()
        invariant
            1 <= i <= chars.len(),
            result@ == lower_of(seq![chars@[0]]) + chars@.subrange(1, i as int),
        decreases chars.len() - i,
    {
        result.push(chars[i]);
        assert(result@ =~= lower_of(seq![chars@[0]]) + chars@.subrange(1, i + 1));
        i += 1;
    }
    assert(chars@.subrange(1, chars.len() as int) =~= chars@.skip(1));
    result
}

} // verus!
