//! Text as sequences of characters: the string operations the rest of the library is stated over.

use vstd::prelude::*;

verus! {

/// `String::push` appends one character.
pub assume_specification[ String::push ](text: &mut String, character: char)
    ensures
        final(text)@ == old(text)@.push(character),
;

/// A character with the Unicode property `White_Space`.
pub open spec fn is_white(c: char) -> bool {
    ||| '\u{9}' <= c <= '\u{d}'
    ||| c == ' ' || c == '\u{85}' || c == '\u{a0}' || c == '\u{1680}'
    ||| '\u{2000}' <= c <= '\u{200a}'
    ||| c == '\u{2028}' || c == '\u{2029}' || c == '\u{202f}' || c == '\u{205f}' || c == '\u{3000}'
}

/// Whether `c` is a white-space character.
pub fn white(c: char) -> (yes: bool)
    ensures
        yes == is_white(c),
{
    ('\u{9}' <= c && c <= '\u{d}') || c == ' ' || c == '\u{85}' || c == '\u{a0}' || c == '\u{1680}'
        || ('\u{2000}' <= c && c <= '\u{200a}') || c == '\u{2028}' || c == '\u{2029}'
        || c == '\u{202f}' || c == '\u{205f}' || c == '\u{3000}'
}

/// An ASCII letter or digit.
pub open spec fn is_ascii_alnum(c: char) -> bool {
    '0' <= c <= '9' || 'a' <= c <= 'z' || 'A' <= c <= 'Z'
}

/// Whether `c` is an ASCII letter or digit.
pub fn ascii_alnum(c: char) -> (yes: bool)
    ensures
        yes == is_ascii_alnum(c),
{
    ('0' <= c && c <= '9') || ('a' <= c && c <= 'z') || ('A' <= c && c <= 'Z')
}

/// `s` without its longest prefix of characters that satisfy `p`.
pub open spec fn drop_while(s: Seq<char>, p: spec_fn(char) -> bool) -> Seq<char>
    decreases s.len(),
{
    if s.len() > 0 && p(s[0]) {
        drop_while(s.drop_first(), p)
    } else {
        s
    }
}

/// `s` without its longest suffix of characters that satisfy `p`.
pub open spec fn drop_end_while(s: Seq<char>, p: spec_fn(char) -> bool) -> Seq<char>
    decreases s.len(),
{
    if s.len() > 0 && p(s.last()) {
        drop_end_while(s.drop_last(), p)
    } else {
        s
    }
}

/// The predicate `is_white`, as a value.
pub open spec fn white_chars() -> spec_fn(char) -> bool {
    |c: char| is_white(c)
}

/// `s` without leading and trailing white space.
pub open spec fn trim(s: Seq<char>) -> Seq<char> {
    drop_end_while(drop_while(s, white_chars()), white_chars())
}

/// Only white space, or nothing at all.
pub open spec fn is_blank(s: Seq<char>) -> bool {
    trim(s).len() == 0
}

/// The characters of `text`.
pub fn chars_of(text: &str) -> (chars: Vec<char>)
    ensures
        chars@ == text@,
{
    let mut chars: Vec<char> = Vec::new();
    for c in it: text.chars()
        invariant
            it.seq() == text@,
            chars@ == it.seq().take(it.index() as int),
    {
        chars.push(c);
    }
    chars
}

/// The string that consists of `chars`.
pub fn string_of(chars: &[char]) -> (text: String)
    ensures
        text@ == chars@,
{
    let mut text = String::new();
    let mut i: usize = 0;
    while i < chars.len()
        invariant
            i <= chars@.len(),
            text@ == chars@.take(i as int),
        decreases chars@.len() - i,
    {
        text.push(chars[i]);
        i += 1;
    }
    text
}

/// Whether two texts hold the same characters.
pub fn same_text(left: &str, right: &str) -> (same: bool)
    ensures
        same == (left@ == right@),
{
    left.to_owned() == right.to_owned()
}

/// How many leading characters satisfy `p`.
pub fn leading<F: Fn(char) -> bool>(chars: &[char], p: F, Ghost(ps): Ghost<spec_fn(char) -> bool>) -> (count: usize)
    requires
        forall|c: char| call_requires(p, (c,)),
        forall|c: char, yes: bool| call_ensures(p, (c,), yes) ==> yes == ps(c),
    ensures
        count <= chars@.len(),
        drop_while(chars@, ps) == chars@.skip(count as int),
{
    let mut i: usize = 0;
    proof {
        assert(chars@.skip(0) == chars@);
    }
    while i < chars.len() && p(chars[i])
        invariant
            i <= chars@.len(),
            forall|c: char| call_requires(p, (c,)),
            forall|c: char, yes: bool| call_ensures(p, (c,), yes) ==> yes == ps(c),
            drop_while(chars@, ps) == drop_while(chars@.skip(i as int), ps),
        decreases chars@.len() - i,
    {
        assert(chars@.skip(i as int).drop_first() == chars@.skip(i + 1));
        i += 1;
    }
    i
}

/// How many characters are left when the trailing ones that satisfy `p` are taken off.
pub fn kept_before_trailing<F: Fn(char) -> bool>(
    chars: &[char],
    p: F,
    Ghost(ps): Ghost<spec_fn(char) -> bool>,
) -> (count: usize)
    requires
        forall|c: char| call_requires(p, (c,)),
        forall|c: char, yes: bool| call_ensures(p, (c,), yes) ==> yes == ps(c),
    ensures
        count <= chars@.len(),
        drop_end_while(chars@, ps) == chars@.take(count as int),
{
    let mut i: usize = chars.len();
    proof {
        assert(chars@.take(i as int) == chars@);
    }
    while i > 0 && p(chars[i - 1])
        invariant
            i <= chars@.len(),
            forall|c: char| call_requires(p, (c,)),
            forall|c: char, yes: bool| call_ensures(p, (c,), yes) ==> yes == ps(c),
            drop_end_while(chars@, ps) == drop_end_while(chars@.take(i as int), ps),
        decreases i,
    {
        assert(chars@.take(i as int).drop_last() == chars@.take(i - 1));
        i -= 1;
    }
    i
}

/// The characters of `chars` without leading and trailing white space.
pub fn trimmed_chars(chars: &[char]) -> (kept: Vec<char>)
    ensures
        kept@ == trim(chars@),
{
    let start: usize = leading(chars, white, Ghost(white_chars()));
    let tail = copied(chars, start, chars.len());
    let end: usize = kept_before_trailing(&tail, white, Ghost(white_chars()));
    assert(chars@.subrange(start as int, chars@.len() as int) == chars@.skip(start as int));
    let kept = copied(&tail, 0, end);
    assert(tail@.subrange(0, end as int) == tail@.take(end as int));
    kept
}

/// The items of `items` from index `start` up to `end`.
pub fn copied<T: Copy>(items: &[T], start: usize, end: usize) -> (part: Vec<T>)
    requires
        start <= end <= items@.len(),
    ensures
        part@ == items@.subrange(start as int, end as int),
{
    let mut part: Vec<T> = Vec::new();
    let mut i: usize = start;
    while i < end
        invariant
            start <= i <= end <= items@.len(),
            part@ == items@.subrange(start as int, i as int),
        decreases end - i,
    {
        part.push(items[i]);
        i += 1;
    }
    part
}

/// `text` without leading and trailing white space.
pub fn trimmed(text: &str) -> (kept: String)
    ensures
        kept@ == trim(text@),
{
    let chars = chars_of(text);
    let kept = trimmed_chars(&chars);
    string_of(&kept)
}

/// Whether `text` holds nothing but white space.
pub fn blank(text: &str) -> (yes: bool)
    ensures
        yes == is_blank(text@),
{
    trimmed(text).as_str().is_empty()
}

/// Trimming leaves a text that neither starts nor ends with white space, and that is a part of
/// the text it was taken from.
pub proof fn lemma_trim_ends(s: Seq<char>)
    ensures
        trim(s).len() > 0 ==> !is_white(trim(s)[0]) && !is_white(trim(s).last()),
        trim(s).len() <= s.len(),
        exists|i: int| 0 <= i && i + trim(s).len() <= s.len() && trim(s) == #[trigger] s.subrange(
            i,
            i + trim(s).len(),
        ),
{
    let front = drop_while(s, white_chars());
    lemma_drop_while(s, white_chars());
    lemma_drop_end_while(front, white_chars());
    let i = s.len() - front.len();
    assert(trim(s) == s.subrange(i, i + trim(s).len()));
}

/// Trimming twice is trimming once.
pub proof fn lemma_trim_idempotent(s: Seq<char>)
    ensures
        trim(trim(s)) == trim(s),
{
    lemma_trim_ends(s);
    lemma_trim_fixed(trim(s));
}

/// A text that starts and ends with other characters than white space is its own trimming.
pub proof fn lemma_trim_fixed(s: Seq<char>)
    requires
        s.len() > 0 ==> !is_white(s[0]) && !is_white(s.last()),
    ensures
        trim(s) == s,
{
}

/// What `drop_while` leaves is a suffix that does not start with a dropped character.
pub proof fn lemma_drop_while(s: Seq<char>, p: spec_fn(char) -> bool)
    ensures
        drop_while(s, p).len() <= s.len(),
        drop_while(s, p) == s.skip(s.len() - drop_while(s, p).len()),
        drop_while(s, p).len() > 0 ==> !p(drop_while(s, p)[0]),
        forall|i: int| 0 <= i < s.len() - drop_while(s, p).len() ==> p(#[trigger] s[i]),
    decreases s.len(),
{
    if s.len() > 0 && p(s[0]) {
        let rest = s.drop_first();
        lemma_drop_while(rest, p);
        let n = drop_while(s, p).len();
        assert(s.skip(s.len() - n) == rest.skip(rest.len() - n));
        assert forall|i: int| 0 <= i < s.len() - n implies p(#[trigger] s[i]) by {
            if i > 0 {
                assert(rest[i - 1] == s[i]);
            }
        }
    } else {
        assert(s.skip(0) == s);
    }
}

/// What `drop_end_while` leaves is a prefix that does not end with a dropped character.
pub proof fn lemma_drop_end_while(s: Seq<char>, p: spec_fn(char) -> bool)
    ensures
        drop_end_while(s, p).len() <= s.len(),
        drop_end_while(s, p) == s.take(drop_end_while(s, p).len() as int),
        drop_end_while(s, p).len() > 0 ==> !p(drop_end_while(s, p).last()),
        forall|i: int| drop_end_while(s, p).len() <= i < s.len() ==> p(#[trigger] s[i]),
    decreases s.len(),
{
    if s.len() > 0 && p(s.last()) {
        let rest = s.drop_last();
        lemma_drop_end_while(rest, p);
        let n = drop_end_while(s, p).len() as int;
        assert(s.take(n) == rest.take(n));
        assert forall|i: int| n <= i < s.len() implies p(#[trigger] s[i]) by {
            if i < s.len() - 1 {
                assert(rest[i] == s[i]);
            }
        }
    } else {
        assert(s.take(s.len() as int) == s);
    }
}

/// A prefix whose last character is kept, followed by dropped characters only, is what is left.
pub proof fn lemma_drop_end_while_exact(head: Seq<char>, tail: Seq<char>, p: spec_fn(char) -> bool)
    requires
        head.len() > 0 ==> !p(head.last()),
        forall|i: int| 0 <= i < tail.len() ==> p(#[trigger] tail[i]),
    ensures
        drop_end_while(head + tail, p) == head,
    decreases tail.len(),
{
    if tail.len() == 0 {
        assert(head + tail == head);
    } else {
        assert((head + tail).drop_last() == head + tail.drop_last());
        assert(p(tail[tail.len() - 1]));
        lemma_drop_end_while_exact(head, tail.drop_last(), p);
    }
}

/// A blank text holds white space only.
pub proof fn lemma_blank_is_white(s: Seq<char>)
    requires
        is_blank(s),
    ensures
        forall|i: int| 0 <= i < s.len() ==> is_white(#[trigger] s[i]),
{
    let front = drop_while(s, white_chars());
    lemma_drop_while(s, white_chars());
    lemma_drop_end_while(front, white_chars());
    assert(front.len() > 0 ==> white_chars()(front[0]));
    assert forall|i: int| 0 <= i < s.len() implies is_white(#[trigger] s[i]) by {
        assert(white_chars()(s[i]));
    }
}

/// White space in front of a text is dropped with its own.
pub proof fn lemma_drop_while_over(head: Seq<char>, tail: Seq<char>, p: spec_fn(char) -> bool)
    requires
        forall|i: int| 0 <= i < head.len() ==> p(#[trigger] head[i]),
    ensures
        drop_while(head + tail, p) == drop_while(tail, p),
    decreases head.len(),
{
    if head.len() == 0 {
        assert(head + tail =~= tail);
    } else {
        assert((head + tail).drop_first() =~= head.drop_first() + tail);
        assert((head + tail)[0] == head[0]);
        lemma_drop_while_over(head.drop_first(), tail, p);
    }
}

/// Where something is left of the first of two texts, the second stays.
pub proof fn lemma_drop_while_within(head: Seq<char>, tail: Seq<char>, p: spec_fn(char) -> bool)
    requires
        drop_while(head, p).len() > 0,
    ensures
        drop_while(head + tail, p) == drop_while(head, p) + tail,
    decreases head.len(),
{
    assert((head + tail)[0] == head[0]);
    if p(head[0]) {
        assert((head + tail).drop_first() =~= head.drop_first() + tail);
        lemma_drop_while_within(head.drop_first(), tail, p);
    }
}

/// What is dropped at the end of two texts is dropped of the second first.
pub proof fn lemma_drop_end_while_over(head: Seq<char>, tail: Seq<char>, p: spec_fn(char) -> bool)
    ensures
        drop_end_while(head + tail, p) == (if drop_end_while(tail, p).len() > 0 {
            head + drop_end_while(tail, p)
        } else {
            drop_end_while(head, p)
        }),
    decreases tail.len(),
{
    if tail.len() == 0 {
        assert(head + tail =~= head);
    } else if p(tail.last()) {
        assert((head + tail).drop_last() =~= head + tail.drop_last());
        lemma_drop_end_while_over(head, tail.drop_last(), p);
    }
}

/// `pat` occurs in `s`.
pub open spec fn occurs(pat: Seq<char>, s: Seq<char>) -> bool {
    exists|i: int| occurs_at(pat, s, i)
}

/// `pat` occurs in `s` at index `i`.
pub open spec fn occurs_at(pat: Seq<char>, s: Seq<char>, i: int) -> bool {
    0 <= i && i + pat.len() <= s.len() && s.subrange(i, i + pat.len()) == pat
}

/// `s` without the occurrences of `pat`, found from the left, none overlapping another.
pub open spec fn remove_all(s: Seq<char>, pat: Seq<char>) -> Seq<char>
    decreases s.len(),
{
    if s.len() == 0 || pat.len() == 0 {
        s
    } else if occurs_at(pat, s, 0) {
        remove_all(s.skip(pat.len() as int), pat)
    } else {
        seq![s[0]] + remove_all(s.drop_first(), pat)
    }
}

/// `s` with `by` in the place of each character `c`.
pub open spec fn replace_char(s: Seq<char>, c: char, by: Seq<char>) -> Seq<char>
    decreases s.len(),
{
    if s.len() == 0 {
        s
    } else {
        replace_char(s.drop_last(), c, by) + (if s.last() == c {
            by
        } else {
            seq![s.last()]
        })
    }
}

/// The maximal runs of characters other than white space in `run + s`, where `run` holds none.
pub open spec fn words_after(run: Seq<char>, s: Seq<char>) -> Seq<Seq<char>>
    decreases s.len(),
{
    let so_far = if run.len() == 0 {
        Seq::<Seq<char>>::empty()
    } else {
        seq![run]
    };
    if s.len() == 0 {
        so_far
    } else if is_white(s[0]) {
        so_far + words_after(Seq::empty(), s.drop_first())
    } else {
        words_after(run.push(s[0]), s.drop_first())
    }
}

/// The words of `s`: its maximal runs of characters other than white space.
pub open spec fn words(s: Seq<char>) -> Seq<Seq<char>> {
    words_after(Seq::empty(), s)
}

/// `parts` one after the other, with `separator` between each two.
pub open spec fn join(parts: Seq<Seq<char>>, separator: Seq<char>) -> Seq<char>
    decreases parts.len(),
{
    if parts.len() == 0 {
        Seq::empty()
    } else if parts.len() == 1 {
        parts[0]
    } else {
        join(parts.drop_last(), separator) + separator + parts.last()
    }
}

/// The index of the first `c` in `s`, or the length of `s` when there is none.
pub open spec fn index_of_char(s: Seq<char>, c: char) -> int
    decreases s.len(),
{
    if s.len() == 0 || s[0] == c {
        0
    } else {
        1 + index_of_char(s.drop_first(), c)
    }
}

/// A character that does not occur.
pub proof fn lemma_no_such_char(s: Seq<char>, c: char)
    requires
        forall|i: int| 0 <= i < s.len() ==> #[trigger] s[i] != c,
    ensures
        index_of_char(s, c) == s.len(),
    decreases s.len(),
{
    if s.len() > 0 {
        assert(s[0] != c);
        let rest = s.drop_first();
        assert forall|i: int| 0 <= i < rest.len() implies #[trigger] rest[i] != c by {
            assert(rest[i] == s[i + 1]);
        }
        lemma_no_such_char(rest, c);
    }
}

/// The first place of a character.
pub proof fn lemma_index_of_char(s: Seq<char>, c: char, at: int)
    requires
        0 <= at < s.len(),
        s[at] == c,
        forall|i: int| 0 <= i < at ==> #[trigger] s[i] != c,
    ensures
        index_of_char(s, c) == at,
    decreases s.len(),
{
    if at > 0 {
        assert(s[0] != c);
        let rest = s.drop_first();
        assert forall|i: int| 0 <= i < at - 1 implies #[trigger] rest[i] != c by {
            assert(rest[i] == s[i + 1]);
        }
        lemma_index_of_char(rest, c, at - 1);
    }
}

/// The lower-case form of an ASCII letter; any other character as it is.
pub open spec fn ascii_lower(c: char) -> char {
    if 'A' <= c <= 'Z' {
        ((c as u8) + 32) as char
    } else {
        c
    }
}

/// `s` with each ASCII letter in lower case.
pub open spec fn ascii_lowercase(s: Seq<char>) -> Seq<char> {
    s.map_values(|c: char| ascii_lower(c))
}

/// The Unicode lower-case form of `s`, as `str::to_lowercase` computes it.
pub uninterp spec fn lowercase(s: Seq<char>) -> Seq<char>;

/// Calls `str::to_lowercase`. The result is named `lowercase`; of a text in ASCII it is the text
/// with its letters in lower case.
#[verifier::external_body]
pub(crate) fn lowercased(text: &str) -> (lower: String)
    ensures
        lower@ == lowercase(text@),
        text.is_ascii() ==> lower@ == ascii_lowercase(text@),
{
    text.to_lowercase()
}

/// Whether `pat` stands in `chars` at index `at`.
pub fn stands_at(pat: &[char], chars: &[char], at: usize) -> (yes: bool)
    ensures
        yes == occurs_at(pat@, chars@, at as int),
{
    if chars.len() < pat.len() || chars.len() - pat.len() < at {
        return false;
    }
    let mut i: usize = 0;
    while i < pat.len()
        invariant
            i <= pat@.len(),
            at + pat@.len() <= chars@.len() <= usize::MAX,
            forall|j: int| 0 <= j < i ==> pat@[j] == chars@[at + j],
        decreases pat@.len() - i,
    {
        if pat[i] != chars[at + i] {
            proof {
                assert(chars@.subrange(at as int, at + pat@.len())[i as int] == chars@[at + i]);
            }
            return false;
        }
        i += 1;
    }
    assert(chars@.subrange(at as int, at + pat@.len()) == pat@);
    true
}

/// Whether `pat` occurs in `text`.
pub fn text_occurs(pat: &str, text: &str) -> (yes: bool)
    ensures
        yes == occurs(pat@, text@),
{
    let wanted = chars_of(pat);
    let chars = chars_of(text);
    let mut i: usize = 0;
    while i < chars.len()
        invariant
            i <= chars@.len(),
            wanted@ == pat@,
            chars@ == text@,
            forall|j: int| 0 <= j < i ==> !occurs_at(pat@, text@, j),
        decreases chars@.len() - i,
    {
        if stands_at(&wanted, &chars, i) {
            return true;
        }
        i += 1;
    }
    let at_end = stands_at(&wanted, &chars, i);
    assert forall|j: int| occurs_at(pat@, text@, j) implies at_end by {
        assert(j == i);
    }
    at_end
}

/// `chars` without the occurrences of `pat`.
pub fn without(chars: &[char], pat: &[char]) -> (kept: Vec<char>)
    requires
        pat@.len() > 0,
    ensures
        kept@ == remove_all(chars@, pat@),
{
    let mut kept: Vec<char> = Vec::new();
    let mut i: usize = 0;
    proof {
        assert(chars@.skip(0) == chars@);
    }
    while i < chars.len()
        invariant
            pat@.len() > 0,
            i <= chars@.len(),
            remove_all(chars@, pat@) == kept@ + remove_all(chars@.skip(i as int), pat@),
        decreases chars@.len() - i,
    {
        let ghost rest = chars@.skip(i as int);
        if stands_at(pat, chars, i) {
            proof {
                assert(rest.subrange(0, pat@.len() as int) == chars@.subrange(i as int, i + pat@.len()));
                assert(rest.skip(pat@.len() as int) == chars@.skip(i + pat@.len()));
            }
            i += pat.len();
        } else {
            proof {
                if occurs_at(pat@, rest, 0) {
                    assert(rest.subrange(0, pat@.len() as int) == chars@.subrange(
                        i as int,
                        i + pat@.len(),
                    ));
                }
                assert(rest.drop_first() == chars@.skip(i + 1));
            }
            kept.push(chars[i]);
            i += 1;
        }
    }
    kept
}

/// `text` with `by` in the place of each character `c`.
pub fn with_char_replaced(text: &str, c: char, by: &str) -> (replaced: String)
    ensures
        replaced@ == replace_char(text@, c, by@),
{
    let chars = chars_of(text);
    let mut replaced = String::new();
    let mut i: usize = 0;
    while i < chars.len()
        invariant
            i <= chars@.len(),
            chars@ == text@,
            replaced@ == replace_char(text@.take(i as int), c, by@),
        decreases chars@.len() - i,
    {
        assert(text@.take(i + 1).drop_last() == text@.take(i as int));
        if chars[i] == c {
            replaced.append(by);
        } else {
            replaced.push(chars[i]);
        }
        i += 1;
    }
    assert(text@.take(i as int) == text@);
    replaced
}

/// The index of the first `c` in `chars`, or their number when there is none.
pub fn position_of(chars: &[char], c: char) -> (at: usize)
    ensures
        at == index_of_char(chars@, c),
        at <= chars@.len(),
        at < chars@.len() ==> chars@[at as int] == c,
        forall|j: int| 0 <= j < at ==> chars@[j] != c,
{
    let mut i: usize = 0;
    proof {
        assert(chars@.skip(0) == chars@);
    }
    while i < chars.len() && chars[i] != c
        invariant
            i <= chars@.len(),
            forall|j: int| 0 <= j < i ==> chars@[j] != c,
            index_of_char(chars@, c) == i + index_of_char(chars@.skip(i as int), c),
        decreases chars@.len() - i,
    {
        assert(chars@.skip(i as int).drop_first() == chars@.skip(i + 1));
        i += 1;
    }
    i
}

/// `text` with each ASCII letter in lower case.
pub fn ascii_lowercased(text: &str) -> (lower: String)
    ensures
        lower@ == ascii_lowercase(text@),
{
    let chars = chars_of(text);
    let mut lower = String::new();
    let mut i: usize = 0;
    while i < chars.len()
        invariant
            i <= chars@.len(),
            lower@ == ascii_lowercase(chars@.take(i as int)),
        decreases chars@.len() - i,
    {
        let c = chars[i];
        assert(ascii_lowercase(chars@.take(i + 1)) == ascii_lowercase(chars@.take(i as int)).push(
            ascii_lower(c),
        ));
        if 'A' <= c && c <= 'Z' {
            lower.push(((c as u8) + 32) as char);
        } else {
            lower.push(c);
        }
        i += 1;
    }
    assert(chars@.take(i as int) == text@);
    lower
}

/// The views of a list of strings.
pub open spec fn views(texts: Seq<String>) -> Seq<Seq<char>> {
    texts.map_values(|text: String| text@)
}

/// The words of `chars`.
pub fn words_of(chars: &[char]) -> (found: Vec<String>)
    ensures
        views(found@) == words(chars@),
{
    let mut found: Vec<String> = Vec::new();
    let mut run = String::new();
    let mut i: usize = 0;
    proof {
        assert(chars@.skip(0) == chars@);
        assert(views(found@) + words_after(run@, chars@) == words(chars@));
    }
    while i < chars.len()
        invariant
            i <= chars@.len(),
            words(chars@) == views(found@) + words_after(run@, chars@.skip(i as int)),
        decreases chars@.len() - i,
    {
        let ghost rest = chars@.skip(i as int);
        let ghost before = found@;
        let ghost old_run = run@;
        assert(rest.drop_first() == chars@.skip(i + 1));
        if white(chars[i]) {
            if !run.as_str().is_empty() {
                found.push(run);
                run = String::new();
                assert(views(found@) == views(before).push(old_run));
                assert(views(found@) == views(before) + seq![old_run]);
            } else {
                assert(old_run == Seq::<char>::empty());
                assert(run@ == Seq::<char>::empty());
            }
        } else {
            run.push(chars[i]);
        }
        i += 1;
        assert(words(chars@) =~= views(found@) + words_after(run@, chars@.skip(i as int)));
    }
    let ghost before = found@;
    let ghost old_run = run@;
    if !run.as_str().is_empty() {
        found.push(run);
        assert(views(found@) == views(before).push(old_run));
    }
    assert(views(found@) =~= words(chars@));
    found
}

/// `parts` one after the other, with `separator` between each two.
pub fn joined(parts: &Vec<String>, separator: &str) -> (text: String)
    ensures
        text@ == join(views(parts@), separator@),
{
    let mut text = String::new();
    let mut i: usize = 0;
    while i < parts.len()
        invariant
            i <= parts@.len(),
            text@ == join(views(parts@).take(i as int), separator@),
        decreases parts@.len() - i,
    {
        assert(views(parts@).take(i + 1).drop_last() == views(parts@).take(i as int));
        if i > 0 {
            text.append(separator);
        }
        text.append(parts[i].as_str());
        i += 1;
    }
    assert(views(parts@).take(i as int) == views(parts@));
    text
}

/// Trimming takes nothing off a text but white space at its ends, and all that there is: a text
/// between white space, which neither starts nor ends with it, is what is left.
pub proof fn law_trimming_takes_off_white_space(before: Seq<char>, text: Seq<char>, after: Seq<char>)
    requires
        forall|i: int| 0 <= i < before.len() ==> is_white(#[trigger] before[i]),
        forall|i: int| 0 <= i < after.len() ==> is_white(#[trigger] after[i]),
        text.len() > 0 ==> !is_white(text[0]) && !is_white(text.last()),
    ensures
        trim(before + text + after) == text,
        is_blank(before + text + after) <==> text.len() == 0,
{
    let white = white_chars();
    let whole = before + text + after;
    assert(whole =~= before + (text + after));
    lemma_drop_while_over(before, text + after, white);
    if text.len() == 0 {
        assert(text + after =~= after + text);
        lemma_drop_while_over(after, text, white);
        assert(drop_while(whole, white) == text);
        assert(trim(whole) =~= text);
    } else {
        assert((text + after)[0] == text[0]);
        lemma_drop_end_while_exact(text, after, white);
    }
}

/// A text in which `pat` does not occur is left as it is when `pat` is taken out.
pub proof fn lemma_nothing_to_remove(s: Seq<char>, pat: Seq<char>)
    requires
        !occurs(pat, s),
    ensures
        remove_all(s, pat) == s,
    decreases s.len(),
{
    if s.len() > 0 && pat.len() > 0 {
        let rest = s.drop_first();
        assert(!occurs_at(pat, s, 0));
        assert forall|i: int| !occurs_at(pat, rest, i) by {
            if occurs_at(pat, rest, i) {
                assert(s.subrange(i + 1, i + 1 + pat.len()) =~= rest.subrange(i, i + pat.len()));
                assert(occurs_at(pat, s, i + 1));
            }
        }
        lemma_nothing_to_remove(rest, pat);
        assert(s =~= seq![s[0]] + rest);
    }
}

/// The characters of `s` other than white space.
pub open spec fn ink(s: Seq<char>) -> Seq<char>
    decreases s.len(),
{
    if s.len() == 0 {
        s
    } else if is_white(s.last()) {
        ink(s.drop_last())
    } else {
        ink(s.drop_last()).push(s.last())
    }
}

/// The characters of two texts, one after the other.
pub proof fn lemma_ink_over(left: Seq<char>, right: Seq<char>)
    ensures
        ink(left + right) == ink(left) + ink(right),
    decreases right.len(),
{
    if right.len() == 0 {
        assert(left + right =~= left);
        assert(ink(left) + ink(right) =~= ink(left));
    } else {
        assert((left + right).drop_last() =~= left + right.drop_last());
        lemma_ink_over(left, right.drop_last());
        assert(ink(left + right) =~= ink(left) + ink(right));
    }
}

/// A text without white space.
pub proof fn lemma_ink_whole(s: Seq<char>)
    requires
        forall|i: int| 0 <= i < s.len() ==> !is_white(#[trigger] s[i]),
    ensures
        ink(s) == s,
    decreases s.len(),
{
    if s.len() > 0 {
        let rest = s.drop_last();
        assert forall|i: int| 0 <= i < rest.len() implies !is_white(#[trigger] rest[i]) by {
            assert(rest[i] == s[i]);
        }
        lemma_ink_whole(rest);
        assert(!is_white(s[s.len() - 1]));
        assert(ink(s) =~= s);
    }
}

/// All of `parts` one after the other, without anything between them.
pub open spec fn concatenation(parts: Seq<Seq<char>>) -> Seq<char>
    decreases parts.len(),
{
    if parts.len() == 0 {
        Seq::empty()
    } else {
        concatenation(parts.drop_last()) + parts.last()
    }
}

/// The words of a text hold its characters other than white space, in their order.
pub proof fn law_words_hold_the_text(run: Seq<char>, s: Seq<char>)
    requires
        forall|i: int| 0 <= i < run.len() ==> !is_white(#[trigger] run[i]),
    ensures
        concatenation(words_after(run, s)) == run + ink(s),
        concatenation(words(s)) == ink(s),
    decreases s.len(),
{
    lemma_words_hold(run, s);
    lemma_words_hold(Seq::empty(), s);
    assert(Seq::<char>::empty() + ink(s) =~= ink(s));
}

/// The words of a text hold its characters other than white space.
proof fn lemma_words_hold(run: Seq<char>, s: Seq<char>)
    requires
        forall|i: int| 0 <= i < run.len() ==> !is_white(#[trigger] run[i]),
    ensures
        concatenation(words_after(run, s)) == run + ink(s),
    decreases s.len(),
{
    let so_far = if run.len() == 0 {
        Seq::<Seq<char>>::empty()
    } else {
        seq![run]
    };
    assert(concatenation(so_far) =~= run) by {
        if run.len() > 0 {
            assert(so_far.drop_last() =~= Seq::<Seq<char>>::empty());
            reveal_with_fuel(concatenation, 2);
        }
    }
    if s.len() == 0 {
        assert(run + ink(s) =~= run);
    } else {
        let rest = s.drop_first();
        assert(s =~= seq![s[0]] + rest);
        lemma_ink_over(seq![s[0]], rest);
        assert(seq![s[0]].drop_last() =~= Seq::<char>::empty());
        reveal_with_fuel(ink, 2);
        if is_white(s[0]) {
            assert(ink(seq![s[0]]) =~= Seq::<char>::empty());
            lemma_words_hold(Seq::empty(), rest);
            lemma_concatenation_over(so_far, words_after(Seq::empty(), rest));
            assert(concatenation(words_after(run, s)) =~= run + ink(s));
        } else {
            assert(ink(seq![s[0]]) =~= seq![s[0]]);
            lemma_words_hold(run.push(s[0]), rest);
            assert(run.push(s[0]) + ink(rest) =~= run + ink(s));
        }
    }
}

/// The parts of two lists, one after the other.
pub proof fn lemma_concatenation_over(left: Seq<Seq<char>>, right: Seq<Seq<char>>)
    ensures
        concatenation(left + right) == concatenation(left) + concatenation(right),
    decreases right.len(),
{
    if right.len() == 0 {
        assert(left + right =~= left);
        assert(concatenation(left) + concatenation(right) =~= concatenation(left));
    } else {
        assert((left + right).drop_last() =~= left + right.drop_last());
        lemma_concatenation_over(left, right.drop_last());
        assert(concatenation(left + right) =~= concatenation(left) + concatenation(right));
    }
}

/// A replacement takes each occurrence of the character, and nothing else.
pub proof fn law_replacing_changes_one_character(left: Seq<char>, right: Seq<char>, c: char, by: Seq<char>)
    ensures
        replace_char(left + seq![c] + right, c, by) == replace_char(left, c, by) + by + replace_char(right, c, by),
        replace_char(left + right, c, by) == replace_char(left, c, by) + replace_char(right, c, by),
        !left.contains(c) ==> replace_char(left, c, by) == left,
        !by.contains(c) ==> !replace_char(left, c, by).contains(c),
{
    lemma_replace_over(left, right, c, by);
    lemma_replace_over(left, seq![c], c, by);
    lemma_replace_over(left + seq![c], right, c, by);
    assert(seq![c].drop_last() =~= Seq::<char>::empty());
    reveal_with_fuel(replace_char, 2);
    assert(replace_char(seq![c], c, by) =~= by);
    lemma_replaced(left, c, by);
}

/// A replacement in two texts, one behind the other.
proof fn lemma_replace_over(left: Seq<char>, right: Seq<char>, c: char, by: Seq<char>)
    ensures
        replace_char(left + right, c, by) == replace_char(left, c, by) + replace_char(right, c, by),
    decreases right.len(),
{
    if right.len() == 0 {
        assert(left + right =~= left);
        assert(replace_char(left + right, c, by) =~= replace_char(left, c, by) + replace_char(right, c, by));
    } else {
        lemma_replace_over(left, right.drop_last(), c, by);
        assert((left + right).drop_last() =~= left + right.drop_last());
        assert((left + right).last() == right.last());
        assert(replace_char(left + right, c, by) =~= replace_char(left, c, by) + replace_char(right, c, by));
    }
}

/// What is replaced is gone, and a text without it stays.
proof fn lemma_replaced(s: Seq<char>, c: char, by: Seq<char>)
    ensures
        !s.contains(c) ==> replace_char(s, c, by) == s,
        !by.contains(c) ==> !replace_char(s, c, by).contains(c),
    decreases s.len(),
{
    if s.len() > 0 {
        let rest = s.drop_last();
        lemma_replaced(rest, c, by);
        let before = replace_char(rest, c, by);
        let all = replace_char(s, c, by);
        if !s.contains(c) {
            assert forall|i: int| 0 <= i < rest.len() implies #[trigger] rest[i] != c by {
                assert(s.contains(s[i]));
            }
            assert(s.contains(s.last()));
            assert(all =~= s);
        }
        if !by.contains(c) {
            assert forall|i: int| 0 <= i < all.len() implies #[trigger] all[i] != c by {
                if i < before.len() {
                    assert(before.contains(before[i]));
                } else if s.last() == c {
                    assert(by.contains(by[i - before.len()]));
                }
            }
        }
    }
}

/// White space are the characters that Unicode counts as such, and no letter or digit is one.
pub proof fn law_white_space_is_that_of_unicode(c: char)
    ensures
        is_white(c) <==> "\u{9}\u{a}\u{b}\u{c}\u{d}\u{20}\u{85}\u{a0}\u{1680}\u{2000}\u{2001}\u{2002}\u{2003}\u{2004}\u{2005}\u{2006}\u{2007}\u{2008}\u{2009}\u{200a}\u{2028}\u{2029}\u{202f}\u{205f}\u{3000}"@.contains(
            c,
        ),
        is_ascii_alnum(c) ==> !is_white(c),
{
    reveal_strlit(
        "\u{9}\u{a}\u{b}\u{c}\u{d}\u{20}\u{85}\u{a0}\u{1680}\u{2000}\u{2001}\u{2002}\u{2003}\u{2004}\u{2005}\u{2006}\u{2007}\u{2008}\u{2009}\u{200a}\u{2028}\u{2029}\u{202f}\u{205f}\u{3000}",
    );
    let all =
        "\u{9}\u{a}\u{b}\u{c}\u{d}\u{20}\u{85}\u{a0}\u{1680}\u{2000}\u{2001}\u{2002}\u{2003}\u{2004}\u{2005}\u{2006}\u{2007}\u{2008}\u{2009}\u{200a}\u{2028}\u{2029}\u{202f}\u{205f}\u{3000}"@;
    assert(all.len() == 25);
    assert(all[0] == '\u{9}'
        && all[1] == '\u{a}'
        && all[2] == '\u{b}'
        && all[3] == '\u{c}'
        && all[4] == '\u{d}'
        && all[5] == '\u{20}'
        && all[6] == '\u{85}'
        && all[7] == '\u{a0}'
        && all[8] == '\u{1680}'
        && all[9] == '\u{2000}'
        && all[10] == '\u{2001}'
        && all[11] == '\u{2002}'
        && all[12] == '\u{2003}'
        && all[13] == '\u{2004}'
        && all[14] == '\u{2005}'
        && all[15] == '\u{2006}'
        && all[16] == '\u{2007}'
        && all[17] == '\u{2008}'
        && all[18] == '\u{2009}'
        && all[19] == '\u{200a}'
        && all[20] == '\u{2028}'
        && all[21] == '\u{2029}'
        && all[22] == '\u{202f}'
        && all[23] == '\u{205f}'
        && all[24] == '\u{3000}');
}

/// Letters of ASCII become their small forms, the rest stays, and doing so again changes nothing.
pub proof fn law_small_letters_stay(c: char, s: Seq<char>)
    ensures
        'A' <= c <= 'Z' ==> ascii_lower(c) as int == c as int + ('a' as int - 'A' as int),
        !('A' <= c <= 'Z') ==> ascii_lower(c) == c,
        ascii_lowercase(s).len() == s.len(),
        ascii_lowercase(ascii_lowercase(s)) == ascii_lowercase(s),
{
    assert forall|i: int| 0 <= i < s.len() implies ascii_lower(#[trigger] ascii_lowercase(s)[i]) == ascii_lowercase(
        s,
    )[i] by {
        let d = s[i];
        if 'A' <= d <= 'Z' {
            assert(ascii_lower(d) as int == d as int + 32);
        }
    }
    assert(ascii_lowercase(ascii_lowercase(s)) =~= ascii_lowercase(s));
}

/// A text occurs in another exactly when that one is something before it, the text, and something
/// behind it.
pub proof fn law_what_occurs_stands_between(pat: Seq<char>, before: Seq<char>, after: Seq<char>, s: Seq<char>)
    ensures
        occurs(pat, before + pat + after),
        occurs(pat, s) ==> exists|head: Seq<char>, tail: Seq<char>| s == #[trigger] (head + pat + tail),
        occurs(pat, s) ==> pat.len() <= s.len(),
{
    let whole = before + pat + after;
    assert(whole.subrange(before.len() as int, (before.len() + pat.len()) as int) =~= pat);
    assert(occurs_at(pat, whole, before.len() as int));
    if occurs(pat, s) {
        let i = choose|i: int| occurs_at(pat, s, i);
        assert(s =~= s.take(i) + pat + s.skip(i + pat.len())) by {
            assert(s.subrange(i, i + pat.len()) == pat);
            assert forall|k: int| 0 <= k < pat.len() implies #[trigger] pat[k] == s[i + k] by {
                assert(s.subrange(i, i + pat.len())[k] == s[i + k]);
            }
        }
    }
}

/// A part stands behind those before it, with the separator between them; a single part stands alone,
/// and of no parts nothing is made.
pub proof fn law_parts_are_joined(parts: Seq<Seq<char>>, part: Seq<char>, separator: Seq<char>)
    ensures
        join(Seq::empty(), separator).len() == 0,
        join(seq![part], separator) == part,
        parts.len() > 0 ==> join(parts.push(part), separator) == join(parts, separator) + separator + part,
{
    assert(parts.push(part).drop_last() =~= parts);
}

/// The letters and digits of ASCII.
pub proof fn law_letters_and_digits(c: char)
    ensures
        is_ascii_alnum(c) <==> "0123456789abcdefghijklmnopqrstuvwxyzABCDEFGHIJKLMNOPQRSTUVWXYZ"@.contains(c),
{
    reveal_strlit("0123456789abcdefghijklmnopqrstuvwxyzABCDEFGHIJKLMNOPQRSTUVWXYZ");
    let all = "0123456789abcdefghijklmnopqrstuvwxyzABCDEFGHIJKLMNOPQRSTUVWXYZ"@;
    assert(all.len() == 62);
    if '0' <= c <= '9' {
        assert(all[c as int - '0' as int] == c);
    } else if 'a' <= c <= 'z' {
        assert(all[10 + c as int - 'a' as int] == c);
    } else if 'A' <= c <= 'Z' {
        assert(all[36 + c as int - 'A' as int] == c);
    }
    if all.contains(c) {
        let i = choose|i: int| 0 <= i < all.len() && all[i] == c;
        assert(0 <= i < 62);
        assert(is_ascii_alnum(all[i]));
    }
}

} // verus!
