//! Recognised speech as readable text.

use vstd::prelude::*;

use crate::text::{
    ascii_alnum, blank, chars_of, copied, drop_end_while, is_ascii_alnum, is_blank, is_white, join, joined,
    kept_before_trailing, string_of, trim, trimmed, trimmed_chars, views, without, words, words_of,
};

verus! {

/// What a recogniser hands back for one stretch of audio.
pub struct LocalTranscriptResult {
    pub text: String,
    pub is_final: bool,
}

impl Default for LocalTranscriptResult {
    fn default() -> (result: Self)
        ensures
            result.text@ == Seq::<char>::empty(),
            !result.is_final,
    {
        LocalTranscriptResult { text: String::new(), is_final: false }
    }
}

/// `s` without the tokens for unknown words, and with single spaces between its words.
pub open spec fn cleaned(s: Seq<char>) -> Seq<char> {
    join(
        words(crate::text::remove_all(crate::text::remove_all(s, "<unk>"@), "<UNK>"@)),
        " "@,
    )
}

/// Takes the recogniser's tokens for unknown words out of `text`, lower-case tokens first, and
/// puts single spaces between the words that are left.
pub fn clean_transcript_text(text: &str) -> (kept: String)
    ensures
        kept@ == cleaned(text@),
{
    proof {
        reveal_strlit("<unk>");
        reveal_strlit("<UNK>");
    }
    let chars = chars_of(text);
    let without_lower = without(&chars, &chars_of("<unk>"));
    let without_both = without(&without_lower, &chars_of("<UNK>"));
    joined(&words_of(&without_both), " ")
}

/// White space stands in `s` only as single spaces between other characters.
pub open spec fn is_tidy(s: Seq<char>) -> bool {
    forall|i: int|
        0 <= i < s.len() && is_white(#[trigger] s[i]) ==> s[i] == ' ' && 0 < i < s.len() - 1 && !is_white(s[i - 1])
            && !is_white(s[i + 1])
}

/// A cleaned-up text is trimmed, and holds no white space but single spaces.
pub proof fn law_cleaned_text_is_tidy(s: Seq<char>)
    ensures
        is_tidy(cleaned(s)),
        trim(cleaned(s)) == cleaned(s),
{
    let kept = crate::text::remove_all(crate::text::remove_all(s, "<unk>"@), "<UNK>"@);
    lemma_words(Seq::empty(), kept);
    lemma_join_is_tidy(words(kept));
    crate::text::lemma_trim_fixed(cleaned(s));
}

/// A part of a text without white space.
pub open spec fn is_word(s: Seq<char>) -> bool {
    s.len() > 0 && forall|i: int| 0 <= i < s.len() ==> !is_white(#[trigger] s[i])
}

/// What a text is split into are words.
proof fn lemma_words(run: Seq<char>, s: Seq<char>)
    requires
        run.len() > 0 ==> is_word(run),
    ensures
        forall|k: int| 0 <= k < crate::text::words_after(run, s).len() ==> is_word(
            #[trigger] crate::text::words_after(run, s)[k],
        ),
    decreases s.len(),
{
    let found = crate::text::words_after(run, s);
    if s.len() > 0 {
        if is_white(s[0]) {
            lemma_words(Seq::empty(), s.drop_first());
            let rest = crate::text::words_after(Seq::empty(), s.drop_first());
            assert forall|k: int| 0 <= k < found.len() implies is_word(#[trigger] found[k]) by {
                if run.len() == 0 {
                    assert(found[k] == rest[k]);
                } else if k > 0 {
                    assert(found[k] == rest[k - 1]);
                } else {
                    assert(found[0] == run);
                }
            }
        } else {
            lemma_words(run.push(s[0]), s.drop_first());
            assert(found == crate::text::words_after(run.push(s[0]), s.drop_first()));
        }
    } else if run.len() > 0 {
        assert(found == seq![run]);
    }
}

/// Words with single spaces between them are tidy, and start and end with a word.
proof fn lemma_join_is_tidy(parts: Seq<Seq<char>>)
    requires
        forall|k: int| 0 <= k < parts.len() ==> is_word(#[trigger] parts[k]),
    ensures
        is_tidy(join(parts, " "@)),
        parts.len() > 0 ==> join(parts, " "@).len() > 0 && !is_white(join(parts, " "@)[0]) && !is_white(
            join(parts, " "@).last(),
        ),
        parts.len() == 0 ==> join(parts, " "@).len() == 0,
    decreases parts.len(),
{
    reveal_strlit(" ");
    if parts.len() == 1 {
        assert(is_word(parts[0]));
    } else if parts.len() > 1 {
        let rest = parts.drop_last();
        assert forall|k: int| 0 <= k < rest.len() implies is_word(#[trigger] rest[k]) by {
            assert(rest[k] == parts[k]);
        }
        lemma_join_is_tidy(rest);
        let before = join(rest, " "@);
        let last = parts.last();
        let all = join(parts, " "@);
        assert(is_word(parts[parts.len() - 1]));
        assert(all == before + " "@ + last);
        let n = before.len() as int;
        assert forall|i: int| 0 <= i < all.len() && is_white(#[trigger] all[i]) implies all[i] == ' ' && 0 < i
            < all.len() - 1 && !is_white(all[i - 1]) && !is_white(all[i + 1]) by {
            if i < n {
                assert(before[i] == all[i]);
                assert(before[i - 1] == all[i - 1]);
                assert(before[i + 1] == all[i + 1]);
            } else if i == n {
                assert(all[i - 1] == before.last());
                assert(all[i + 1] == last[0]);
            } else {
                assert(all[i] == last[i - n - 1]);
            }
        }
        assert(all[0] == before[0]);
        assert(all.last() == last.last());
    }
}

/// A closing quotation mark or bracket.
pub open spec fn is_closing(c: char) -> bool {
    c == '"' || c == '\'' || c == ')' || c == ']' || c == '}' || c == '”' || c == '’' || c == '）'
        || c == '】' || c == '》'
}

/// Whether `c` is a closing quotation mark or bracket.
fn closing(c: char) -> (yes: bool)
    ensures
        yes == is_closing(c),
{
    c == '"' || c == '\'' || c == ')' || c == ']' || c == '}' || c == '”' || c == '’' || c == '）'
        || c == '】' || c == '》'
}

/// The predicate `is_closing`, as a value.
pub open spec fn closing_chars() -> spec_fn(char) -> bool {
    |c: char| is_closing(c)
}

/// A mark that ends a clause.
pub open spec fn is_clause_mark(c: char) -> bool {
    c == '.' || c == '!' || c == '?' || c == ',' || c == ';' || c == ':' || c == '。' || c == '！'
        || c == '？' || c == '，' || c == '；' || c == '：' || c == '、'
}

/// Whether `c` ends a clause.
fn clause_mark(c: char) -> (yes: bool)
    ensures
        yes == is_clause_mark(c),
{
    c == '.' || c == '!' || c == '?' || c == ',' || c == ';' || c == ':' || c == '。' || c == '！'
        || c == '？' || c == '，' || c == '；' || c == '：' || c == '、'
}

/// A Chinese character.
pub open spec fn is_han(c: char) -> bool {
    '\u{3400}' <= c <= '\u{4dbf}' || '\u{4e00}' <= c <= '\u{9fff}'
}

/// `s` holds a Chinese character.
pub open spec fn has_han(s: Seq<char>) -> bool {
    exists|i: int| 0 <= i < s.len() && is_han(#[trigger] s[i])
}

/// Whether `chars` hold a Chinese character.
fn some_han(chars: &[char]) -> (yes: bool)
    ensures
        yes == has_han(chars@),
{
    let mut i: usize = 0;
    while i < chars.len()
        invariant
            i <= chars@.len(),
            forall|j: int| 0 <= j < i ==> !is_han(#[trigger] chars@[j]),
        decreases chars@.len() - i,
    {
        let c = chars[i];
        if ('\u{3400}' <= c && c <= '\u{4dbf}') || ('\u{4e00}' <= c && c <= '\u{9fff}') {
            assert(is_han(chars@[i as int]));
            return true;
        }
        i += 1;
    }
    false
}

/// The mark that ends a sentence in the script of `s`.
pub open spec fn full_stop(s: Seq<char>) -> char {
    if has_han(s) {
        '。'
    } else {
        '.'
    }
}

/// `s`, trimmed, with a full stop in front of its closing quotation marks and brackets unless a
/// clause mark already stands there.
pub open spec fn punctuated(s: Seq<char>) -> Seq<char> {
    let t = trim(s);
    let body = drop_end_while(t, closing_chars());
    if t.len() == 0 || (body.len() > 0 && is_clause_mark(body.last())) {
        t
    } else {
        body.push(full_stop(body)) + t.skip(body.len() as int)
    }
}

/// Trims `text` and makes it end with a clause mark, in front of its closing quotation marks and
/// brackets.
pub fn ensure_terminal_punctuation(text: String) -> (ended: String)
    ensures
        ended@ == punctuated(text@),
{
    let chars = trimmed_chars(&chars_of(text.as_str()));
    if chars.len() == 0 {
        return String::new();
    }
    let end: usize = kept_before_trailing(&chars, closing, Ghost(closing_chars()));
    let body = copied(&chars, 0, end);
    assert(chars@.subrange(0, end as int) == chars@.take(end as int));
    if end > 0 && clause_mark(body[end - 1]) {
        return string_of(&chars);
    }
    let mut ended = string_of(&body);
    if some_han(&body) {
        ended.push('。');
    } else {
        ended.push('.');
    }
    let rest = string_of(&copied(&chars, end, chars.len()));
    assert(chars@.subrange(end as int, chars@.len() as int) == chars@.skip(end as int));
    ended.append(rest.as_str());
    ended
}

/// A text that is not blank ends, in front of its closing marks, with a clause mark.
pub proof fn law_punctuation_is_present(s: Seq<char>)
    requires
        !is_blank(s),
    ensures
        drop_end_while(punctuated(s), closing_chars()).len() > 0,
        is_clause_mark(drop_end_while(punctuated(s), closing_chars()).last()),
{
    lemma_body_of_punctuated(s);
}

/// Putting the punctuation in twice changes nothing more.
pub proof fn law_punctuation_is_idempotent(s: Seq<char>)
    ensures
        punctuated(punctuated(s)) == punctuated(s),
{
    crate::text::lemma_trim_ends(s);
    let t = trim(s);
    let r = punctuated(s);
    if t.len() == 0 {
        crate::text::lemma_trim_fixed(t);
    } else {
        lemma_body_of_punctuated(s);
        let body = drop_end_while(t, closing_chars());
        crate::text::lemma_drop_end_while(t, closing_chars());
        if body.len() > 0 {
            assert(body[0] == t[0]);
            assert(r[0] == t[0]);
        }
        if body.len() < t.len() {
            assert(t.skip(body.len() as int).last() == t.last());
            assert(r.last() == t.last());
        }
        crate::text::lemma_trim_fixed(r);
    }
}

/// What stands in front of the closing marks once the punctuation is in.
proof fn lemma_body_of_punctuated(s: Seq<char>)
    requires
        !is_blank(s),
    ensures
        ({
            let t = trim(s);
            let body = drop_end_while(t, closing_chars());
            let ended = body.len() > 0 && is_clause_mark(body.last());
            drop_end_while(punctuated(s), closing_chars()) == (if ended {
                body
            } else {
                body.push(full_stop(body))
            })
        }),
{
    let t = trim(s);
    let body = drop_end_while(t, closing_chars());
    crate::text::lemma_drop_end_while(t, closing_chars());
    if !(body.len() > 0 && is_clause_mark(body.last())) {
        let tail = t.skip(body.len() as int);
        assert forall|i: int| 0 <= i < tail.len() implies closing_chars()(#[trigger] tail[i]) by {
            assert(tail[i] == t[body.len() + i]);
        }
        crate::text::lemma_drop_end_while_exact(body.push(full_stop(body)), tail, closing_chars());
    }
}

/// A space goes between two parts when a letter or digit ends the one and starts the other.
pub open spec fn needs_space(left: Seq<char>, right: Seq<char>) -> bool {
    left.len() > 0 && right.len() > 0 && is_ascii_alnum(left.last()) && is_ascii_alnum(right[0])
}

/// The parts of a transcript one after the other.
pub open spec fn joined_parts(parts: Seq<Seq<char>>) -> Seq<char>
    decreases parts.len(),
{
    if parts.len() == 0 {
        Seq::empty()
    } else {
        let before = joined_parts(parts.drop_last());
        if needs_space(before, parts.last()) {
            before.push(' ') + parts.last()
        } else {
            before + parts.last()
        }
    }
}

/// Puts the parts of a transcript one after the other, with a space only where two words in
/// letters or digits meet.
pub fn join_transcript_parts(parts: Vec<String>) -> (text: String)
    ensures
        text@ == joined_parts(views(parts@)),
{
    let mut text = String::new();
    let mut last: Option<char> = None;
    let mut i: usize = 0;
    while i < parts.len()
        invariant
            i <= parts@.len(),
            text@ == joined_parts(views(parts@).take(i as int)),
            match last {
                Some(c) => text@.len() > 0 && text@.last() == c,
                None => text@.len() == 0,
            },
        decreases parts@.len() - i,
    {
        assert(views(parts@).take(i + 1).drop_last() == views(parts@).take(i as int));
        let part = chars_of(parts[i].as_str());
        if part.len() > 0 {
            match last {
                Some(c) => {
                    if ascii_alnum(c) && ascii_alnum(part[0]) {
                        text.push(' ');
                    }
                },
                None => {},
            }
            last = Some(part[part.len() - 1]);
        }
        text.append(parts[i].as_str());
        i += 1;
    }
    assert(views(parts@).take(i as int) == views(parts@));
    text
}

/// The text of a recogniser's result; nothing where it gave none.
pub open spec fn recognized(raw: Option<Seq<char>>) -> Seq<char> {
    match raw {
        Some(text) => cleaned(trim(text)),
        None => Seq::empty(),
    }
}

/// The view of an optional string.
pub open spec fn option_view(text: Option<String>) -> Option<Seq<char>> {
    match text {
        Some(text) => Some(text@),
        None => None,
    }
}

/// Cleans up what a recogniser returned, if it returned anything.
pub fn recognized_text(raw: Option<String>) -> (text: String)
    ensures
        text@ == recognized(option_view(raw)),
{
    match raw {
        Some(raw) => clean_transcript_text(trimmed(raw.as_str()).as_str()),
        None => String::new(),
    }
}

/// The final form of `text`, given what the punctuation model made of it.
pub open spec fn finalized(text: Seq<char>, restored: Option<Seq<char>>) -> Seq<char> {
    if text.len() == 0 {
        text
    } else {
        match restored {
            Some(restored) if !is_blank(restored) => punctuated(restored),
            _ => punctuated(text),
        }
    }
}

/// Makes the final form of `text`: with the punctuation model's version where there is one that
/// is not blank, and always with a clause mark at the end.
pub fn finalize_text(text: String, restored: Option<String>) -> (ended: String)
    ensures
        ended@ == finalized(text@, option_view(restored)),
{
    if text.as_str().is_empty() {
        return text;
    }
    match restored {
        Some(restored) => {
            if blank(restored.as_str()) {
                ensure_terminal_punctuation(text)
            } else {
                ensure_terminal_punctuation(restored)
            }
        },
        None => ensure_terminal_punctuation(text),
    }
}

/// The texts that are not empty.
pub open spec fn nonempty_texts(texts: Seq<Seq<char>>) -> Seq<Seq<char>> {
    texts.filter(|text: Seq<char>| text.len() > 0)
}

/// Joins the final texts of several speech segments, leaving out the empty ones.
pub fn decode_final_segments(texts: Vec<String>) -> (text: String)
    ensures
        text@ == joined_parts(nonempty_texts(views(texts@))),
{
    let ghost keep = |text: Seq<char>| text.len() > 0;
    let mut parts: Vec<String> = Vec::new();
    let mut i: usize = 0;
    while i < texts.len()
        invariant
            i <= texts@.len(),
            keep == (|text: Seq<char>| text.len() > 0),
            views(parts@) == views(texts@).take(i as int).filter(keep),
        decreases texts@.len() - i,
    {
        reveal(Seq::filter);
        let ghost before = parts@;
        assert(views(texts@).take(i + 1).drop_last() == views(texts@).take(i as int));
        if !texts[i].as_str().is_empty() {
            parts.push(texts[i].clone());
            assert(views(parts@) == views(before).push(texts@[i as int]@));
        }
        i += 1;
    }
    assert(views(texts@).take(i as int) == views(texts@));
    join_transcript_parts(parts)
}

/// `last` is `text` with its end marked: nothing of it is lost or changed, and at most one mark is put
/// in, behind which only closing marks follow. Where it already ends with a clause mark, it stays as it
/// is; where it ends with a word, the full stop of its script stands behind it.
pub open spec fn is_ended_form(text: Seq<char>, last: Seq<char>) -> bool {
    &&& last == text || exists|at: int, mark: char| #[trigger] is_marked(text, last, at, mark)
    &&& text.len() > 0 && is_clause_mark(text.last()) ==> last == text
    &&& text.len() > 0 && !is_clause_mark(text.last()) && !is_closing(text.last()) && has_han(text) ==> last
        == text.push('。')
    &&& text.len() > 0 && !is_clause_mark(text.last()) && !is_closing(text.last()) && !has_han(text) ==> last
        == text.push('.')
}

/// The final form of a text that was recognised, in whatever script: where the punctuation model
/// made a version of it that is not blank, that version and not the text itself is what is shown, with
/// its end marked; otherwise the text is. Of no text nothing is made.
pub proof fn law_final_texts_come_from_the_punctuation_model(text: Seq<char>, version: Seq<char>)
    requires
        text.len() > 0,
    ensures
        !is_blank(version) ==> is_ended_form(trim(version), finalized(text, Some(version))),
        is_blank(version) ==> is_ended_form(trim(text), finalized(text, Some(version))),
        is_ended_form(trim(text), finalized(text, None)),
        finalized(Seq::empty(), Some(version)) == Seq::<char>::empty(),
        finalized(Seq::empty(), None) == Seq::<char>::empty(),
{
    law_punctuation_adds_one_mark(version);
    law_punctuation_adds_one_mark(text);
}

/// Putting the punctuation in takes nothing out of a trimmed text: it only marks its end.
pub proof fn law_punctuation_adds_one_mark(s: Seq<char>)
    ensures
        is_ended_form(trim(s), punctuated(s)),
{
    let taken = trim(s);
    let last = punctuated(s);
    let body = drop_end_while(taken, closing_chars());
    crate::text::lemma_drop_end_while(taken, closing_chars());
    if taken.len() > 0 && !is_closing(taken.last()) {
        assert(body.len() == taken.len()) by {
            if body.len() < taken.len() {
                assert(closing_chars()(taken[taken.len() - 1]));
            }
        }
        assert(body =~= taken);
        assert(taken.skip(taken.len() as int) =~= Seq::<char>::empty());
        assert(body.push(full_stop(body)) + taken.skip(body.len() as int) =~= taken.push(full_stop(taken)));
    }
    if last != taken {
        let at = body.len() as int;
        let mark = full_stop(body);
        assert(body =~= taken.take(at));
        assert forall|i: int| at <= i < taken.len() implies is_closing(#[trigger] taken[i]) by {
            assert(closing_chars()(taken[i]));
        }
        assert(has_han(taken) <==> has_han(body)) by {
            if has_han(taken) {
                let i = choose|i: int| 0 <= i < taken.len() && is_han(#[trigger] taken[i]);
                assert(i < at);
                assert(is_han(body[i]));
            }
            if has_han(body) {
                let i = choose|i: int| 0 <= i < body.len() && is_han(#[trigger] body[i]);
                assert(is_han(taken[i]));
            }
        }
        assert(is_marked(taken, last, at, mark));
    }
}

/// `marked` is `text` with the full stop of its script, `mark`, put in at `at`, in front of closing
/// marks only and not behind a clause mark.
pub open spec fn is_marked(text: Seq<char>, marked: Seq<char>, at: int, mark: char) -> bool {
    &&& 0 <= at <= text.len()
    &&& marked == text.take(at).push(mark) + text.skip(at)
    &&& mark == '。' <==> has_han(text)
    &&& mark == '.' <==> !has_han(text)
    &&& forall|i: int| at <= i < text.len() ==> is_closing(#[trigger] text[i])
    &&& at > 0 ==> !is_clause_mark(text[at - 1]) && !is_closing(text[at - 1])
}

/// Cleaning up a text loses none of its words: the characters other than white space stay, in their
/// order, but for the tokens for unknown words. A text that is tidy and holds no such token stays as
/// it is.
pub proof fn law_cleaning_keeps_the_words(s: Seq<char>)
    ensures
        !crate::text::occurs("<unk>"@, s) && !crate::text::occurs("<UNK>"@, s) ==> crate::text::ink(cleaned(s))
            == crate::text::ink(s),
        !crate::text::occurs("<unk>"@, s) && !crate::text::occurs("<UNK>"@, s) && is_tidy(s) ==> cleaned(s) == s,
        cleaned("<unk>"@ + s) == cleaned(s),
{
    reveal_strlit("<unk>");
    reveal_strlit("<UNK>");
    let token = "<unk>"@;
    assert(crate::text::occurs_at(token, token + s, 0)) by {
        assert((token + s).subrange(0, token.len() as int) =~= token);
    }
    assert((token + s).skip(token.len() as int) =~= s);
    if !crate::text::occurs("<unk>"@, s) && !crate::text::occurs("<UNK>"@, s) {
        crate::text::lemma_nothing_to_remove(s, "<unk>"@);
        crate::text::lemma_nothing_to_remove(s, "<UNK>"@);
        lemma_words(Seq::empty(), s);
        crate::text::law_words_hold_the_text(Seq::empty(), s);
        lemma_ink_of_joined(words(s));
        if is_tidy(s) {
            lemma_tidy_words(Seq::empty(), s);
            assert(Seq::<char>::empty() + s =~= s);
        }
    }
}

/// Spaces between words add no other characters.
proof fn lemma_ink_of_joined(parts: Seq<Seq<char>>)
    requires
        forall|k: int| 0 <= k < parts.len() ==> is_word(#[trigger] parts[k]),
    ensures
        crate::text::ink(join(parts, " "@)) == crate::text::concatenation(parts),
    decreases parts.len(),
{
    reveal_strlit(" ");
    if parts.len() > 0 {
        let rest = parts.drop_last();
        assert forall|k: int| 0 <= k < rest.len() implies is_word(#[trigger] rest[k]) by {
            assert(rest[k] == parts[k]);
        }
        lemma_ink_of_joined(rest);
        assert(is_word(parts[parts.len() - 1]));
        crate::text::lemma_ink_whole(parts.last());
        if parts.len() == 1 {
            assert(rest =~= Seq::<Seq<char>>::empty());
            assert(crate::text::concatenation(parts) =~= parts[0]);
        } else {
            let before = join(rest, " "@);
            crate::text::lemma_ink_over(before, " "@);
            crate::text::lemma_ink_over(before + " "@, parts.last());
            assert(" "@.drop_last() =~= Seq::<char>::empty());
            reveal_with_fuel(crate::text::ink, 2);
            assert(crate::text::ink(" "@) =~= Seq::<char>::empty());
            assert(crate::text::ink(join(parts, " "@)) =~= crate::text::concatenation(parts));
        }
    }
}

/// A tidy text is its words with single spaces between them.
proof fn lemma_tidy_words(run: Seq<char>, s: Seq<char>)
    requires
        is_tidy(run + s),
        forall|i: int| 0 <= i < run.len() ==> !is_white(#[trigger] run[i]),
    ensures
        join(crate::text::words_after(run, s), " "@) == run + s,
        run.len() + s.len() > 0 ==> crate::text::words_after(run, s).len() > 0,
    decreases s.len(),
{
    reveal_strlit(" ");
    let whole = run + s;
    let found = crate::text::words_after(run, s);
    if s.len() == 0 {
        assert(whole =~= run);
        if run.len() > 0 {
            assert(found == seq![run]);
        }
    } else {
        let rest = s.drop_first();
        if is_white(s[0]) {
            assert(whole[run.len() as int] == s[0]);
            assert(run.len() > 0 && rest.len() > 0 && s[0] == ' ');
            assert(whole[(run.len() + 1) as int] == rest[0]);
            let after = Seq::<char>::empty() + rest;
            assert(after =~= rest);
            assert forall|i: int| 0 <= i < after.len() && is_white(#[trigger] after[i]) implies after[i] == ' ' && 0
                < i < after.len() - 1 && !is_white(after[i - 1]) && !is_white(after[i + 1]) by {
                assert(whole[run.len() as int + 1 + i] == after[i]);
                if i > 0 {
                    assert(whole[run.len() as int + i] == after[i - 1]);
                }
                if i < after.len() - 1 {
                    assert(whole[run.len() as int + 2 + i] == after[i + 1]);
                }
            }
            lemma_tidy_words(Seq::empty(), rest);
            let others = crate::text::words_after(Seq::empty(), rest);
            assert(found == seq![run] + others);
            lemma_join_from_the_start(run, others);
            assert(run + " "@ + rest =~= whole);
        } else {
            assert(run.push(s[0]) + rest =~= whole);
            lemma_tidy_words(run.push(s[0]), rest);
        }
    }
}

/// Parts with spaces between them, from the first on.
proof fn lemma_join_from_the_start(first: Seq<char>, others: Seq<Seq<char>>)
    requires
        others.len() > 0,
    ensures
        join(seq![first] + others, " "@) == first + " "@ + join(others, " "@),
    decreases others.len(),
{
    let all = seq![first] + others;
    let rest = others.drop_last();
    assert(all.drop_last() =~= seq![first] + rest);
    if others.len() == 1 {
        assert(all.drop_last() =~= seq![first]);
        assert(join(seq![first], " "@) == first);
        assert(join(others, " "@) == others[0]);
        assert(all.last() == others[0]);
    } else {
        lemma_join_from_the_start(first, rest);
        assert(join(all, " "@) =~= first + " "@ + join(others, " "@));
    }
}

/// A further part goes behind the parts before it: they stay as they are, and it stands at the end,
/// unchanged. A space comes between exactly when letters or digits of ASCII would meet.
pub proof fn law_parts_follow_each_other(parts: Seq<Seq<char>>, part: Seq<char>)
    ensures
        ({
            let before = joined_parts(parts);
            let after = joined_parts(parts.push(part));
            let spaced = before.len() > 0 && part.len() > 0 && is_ascii_alnum(before.last()) && is_ascii_alnum(part[0]);
            &&& spaced ==> after == before + seq![' '] + part
            &&& !spaced ==> after == before + part
        }),
        joined_parts(Seq::empty()) == Seq::<char>::empty(),
        joined_parts(seq![part]) == part,
{
    assert(parts.push(part).drop_last() =~= parts);
    assert(seq![part].drop_last() =~= Seq::<Seq<char>>::empty());
    reveal_with_fuel(joined_parts, 2);
    let before = joined_parts(parts);
    assert(before.push(' ') =~= before + seq![' ']);
    assert(joined_parts(seq![part]) =~= part);
}

/// What a recogniser returned is shown with all its words, tidied up; where it returned nothing,
/// nothing is shown.
pub proof fn law_recognised_words_are_shown(raw: Seq<char>)
    requires
        !crate::text::occurs("<unk>"@, trim(raw)),
        !crate::text::occurs("<UNK>"@, trim(raw)),
    ensures
        recognized(None) == Seq::<char>::empty(),
        crate::text::ink(recognized(Some(raw))) == crate::text::ink(trim(raw)),
        is_tidy(trim(raw)) ==> recognized(Some(raw)) == trim(raw),
        recognized(Some(raw)).len() == 0 <==> is_blank(raw),
{
    law_cleaning_keeps_the_words(trim(raw));
    law_cleaned_text_is_tidy(trim(raw));
    let shown = recognized(Some(raw));
    crate::text::lemma_trim_ends(raw);
    if trim(raw).len() > 0 {
        let t = trim(raw);
        assert(crate::text::ink(t).len() > 0) by {
            assert(!is_white(t.last()));
        }
        if shown.len() == 0 {
            assert(crate::text::ink(shown).len() == 0);
        }
    } else {
        assert(crate::text::ink(trim(raw)).len() == 0);
        if shown.len() > 0 {
            assert(!is_white(shown.last())) by {
                if is_white(shown[shown.len() - 1]) {
                }
            }
        }
    }
}

/// Texts of segments that are empty leave no trace among the others.
pub proof fn law_empty_texts_are_left_out(left: Seq<Seq<char>>, right: Seq<Seq<char>>, text: Seq<char>)
    ensures
        nonempty_texts(left + right) == nonempty_texts(left) + nonempty_texts(right),
        nonempty_texts(seq![text]) == (if text.len() > 0 {
            seq![text]
        } else {
            Seq::<Seq<char>>::empty()
        }),
    decreases right.len(),
{
    reveal(Seq::filter);
    reveal_with_fuel(Seq::filter, 2);
    assert(seq![text].drop_last() =~= Seq::<Seq<char>>::empty());
    assert(nonempty_texts(seq![text]) =~= (if text.len() > 0 {
        seq![text]
    } else {
        Seq::<Seq<char>>::empty()
    }));
    if right.len() == 0 {
        assert(left + right =~= left);
        assert(nonempty_texts(left) + nonempty_texts(right) =~= nonempty_texts(left));
    } else {
        let rest = right.drop_last();
        assert((left + right).drop_last() =~= left + rest);
        law_empty_texts_are_left_out(left, rest, text);
        assert(nonempty_texts(left + right) =~= nonempty_texts(left) + nonempty_texts(right));
    }
}

/// The marks that end a clause and those that close a quotation or a bracket, and no character is
/// both.
pub proof fn law_marks_are_told_apart(c: char)
    ensures
        is_clause_mark(c) <==> ".!?,;:。！？，；：、"@.contains(c),
        is_closing(c) <==> "\"')]}”’）】》"@.contains(c),
        !(is_clause_mark(c) && is_closing(c)),
        is_han(c) ==> !is_clause_mark(c) && !is_closing(c) && !is_white(c),
{
    reveal_strlit(".!?,;:。！？，；：、");
    reveal_strlit("\"')]}”’）】》");
    let marks = ".!?,;:。！？，；：、"@;
    let closings = "\"')]}”’）】》"@;
    assert(marks.len() == 13 && closings.len() == 10);
    assert(marks[0] == '.' && marks[1] == '!' && marks[2] == '?' && marks[3] == ',' && marks[4] == ';' && marks[5]
        == ':' && marks[6] == '。' && marks[7] == '！' && marks[8] == '？' && marks[9] == '，' && marks[10] == '；'
        && marks[11] == '：' && marks[12] == '、');
    assert(closings[0] == '"' && closings[1] == '\'' && closings[2] == ')' && closings[3] == ']' && closings[4] == '}'
        && closings[5] == '”' && closings[6] == '’' && closings[7] == '）' && closings[8] == '】' && closings[9]
        == '》');
}

/// A token for an unknown word leaves no trace, wherever it stands; the words around it stay.
pub proof fn law_unknown_words_leave_no_trace(left: Seq<char>, right: Seq<char>)
    requires
        !left.contains('<'),
        !right.contains('<'),
    ensures
        crate::text::ink(cleaned(left + "<unk>"@ + right)) == crate::text::ink(left) + crate::text::ink(right),
        crate::text::ink(cleaned(left + "<UNK>"@ + right)) == crate::text::ink(left) + crate::text::ink(right),
        cleaned(left + "<unk>"@ + right) == cleaned(left + "<UNK>"@ + right),
{
    reveal_strlit("<unk>");
    reveal_strlit("<UNK>");
    let lower = "<unk>"@;
    let upper = "<UNK>"@;
    let rest = left + right;
    assert(!rest.contains('<')) by {
        assert forall|i: int| 0 <= i < rest.len() implies #[trigger] rest[i] != '<' by {
            if i < left.len() {
                assert(left.contains(left[i]));
            } else {
                assert(right.contains(right[i - left.len()]));
            }
        }
    }
    lemma_no_token(rest, lower);
    lemma_no_token(rest, upper);
    lemma_token_removed(left, right, lower);
    lemma_token_removed(left, right, upper);
    lemma_other_token_stays(left, right);
    law_cleaning_keeps_the_words(rest);
    crate::text::lemma_ink_over(left, right);
}

/// A token does not occur in a text without its first character.
proof fn lemma_no_token(s: Seq<char>, token: Seq<char>)
    requires
        token.len() > 0,
        token[0] == '<',
        !s.contains('<'),
    ensures
        !crate::text::occurs(token, s),
        crate::text::remove_all(s, token) == s,
{
    assert forall|i: int| !crate::text::occurs_at(token, s, i) by {
        if crate::text::occurs_at(token, s, i) {
            assert(s.subrange(i, i + token.len())[0] == s[i]);
            assert(s.contains(s[i]));
        }
    }
    crate::text::lemma_nothing_to_remove(s, token);
}

/// A token is taken out of a text that holds no other.
proof fn lemma_token_removed(left: Seq<char>, right: Seq<char>, token: Seq<char>)
    requires
        token.len() > 0,
        token[0] == '<',
        !left.contains('<'),
        !right.contains('<'),
    ensures
        crate::text::remove_all(left + token + right, token) == left + right,
    decreases left.len(),
{
    let whole = left + token + right;
    if left.len() == 0 {
        assert(whole.subrange(0, token.len() as int) =~= token);
        assert(whole.skip(token.len() as int) =~= right);
        lemma_no_token(right, token);
        assert(left + right =~= right);
    } else {
        let rest = left.drop_first();
        assert(left.contains(left[0]));
        assert forall|i: int| 0 <= i < rest.len() implies #[trigger] rest[i] != '<' by {
            assert(left.contains(left[i + 1]));
        }
        lemma_token_removed(rest, right, token);
        if crate::text::occurs_at(token, whole, 0) {
            assert(whole.subrange(0, token.len() as int)[0] == whole[0]);
        }
        assert(whole.drop_first() =~= rest + token + right);
        assert(seq![whole[0]] + (rest + right) =~= left + right);
    }
}

/// Taking out the lower-case token leaves the upper-case one where it is.
proof fn lemma_other_token_stays(left: Seq<char>, right: Seq<char>)
    requires
        !left.contains('<'),
        !right.contains('<'),
    ensures
        crate::text::remove_all(left + "<UNK>"@ + right, "<unk>"@) == left + "<UNK>"@ + right,
{
    reveal_strlit("<unk>");
    reveal_strlit("<UNK>");
    let whole = left + "<UNK>"@ + right;
    let lower = "<unk>"@;
    assert forall|i: int| !crate::text::occurs_at(lower, whole, i) by {
        if crate::text::occurs_at(lower, whole, i) {
            let part = whole.subrange(i, i + lower.len());
            assert(part[0] == whole[i] && part[1] == whole[i + 1]);
            assert(lower[0] == '<' && lower[1] == 'u');
            if i < left.len() {
                assert(left.contains(left[i]));
            } else if i >= left.len() + 5 {
                assert(whole[i] == right[i - left.len() - 5]);
                assert(right.contains(right[i - left.len() - 5]));
            } else {
                assert(whole[i] == "<UNK>"@[i - left.len()]);
                assert(whole[i + 1] == "<UNK>"@[i + 1 - left.len()]);
            }
        }
    }
    crate::text::lemma_nothing_to_remove(whole, lower);
}

/// A final text that was recognised is the punctuation model's version of it wherever that is not
/// blank: as it is, trimmed, where it ends with a clause mark already.
pub proof fn law_the_version_with_marks_is_shown(text: String, restored: Option<String>, ended: String)
    requires
        call_ensures(finalize_text, (text, restored), ended),
        text@.len() > 0,
    ensures
        restored is Some && !is_blank(restored->0@) ==> is_ended_form(trim(restored->0@), ended@),
        restored is None || is_blank(restored->0@) ==> is_ended_form(trim(text@), ended@),
        restored is Some && !is_blank(restored->0@) && is_clause_mark(trim(restored->0@).last()) ==> ended@ == trim(
            restored->0@,
        ),
{
    if restored is Some {
        law_final_texts_come_from_the_punctuation_model(text@, restored->0@);
    } else {
        law_final_texts_come_from_the_punctuation_model(text@, Seq::empty());
    }
}

/// Chinese characters are those of the two blocks of unified ideographs: the basic one and the first
/// extension.
pub proof fn law_chinese_characters(c: char)
    ensures
        is_han(c) <==> 0x4e00 <= c as u32 && (c as u32) < 0xa000 || 0x3400 <= c as u32 && (c as u32) < 0x4dc0,
        has_han(seq![c]) <==> is_han(c),
        cleaned(Seq::empty()).len() == 0,
        punctuated(Seq::empty()).len() == 0,
{
    if is_han(c) {
        assert(is_han(seq![c][0]));
    }
    reveal_with_fuel(crate::text::remove_all, 1);
    assert(words(Seq::empty()) =~= Seq::<Seq<char>>::empty());
    crate::text::lemma_trim_fixed(Seq::empty());
}

} // verus!
