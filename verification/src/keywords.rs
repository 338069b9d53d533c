//! Keyword exclusion: does a release title contain one of the unwanted words?

use vstd::prelude::*;

verus! {

/// The lower-case form of a text under Unicode's case mapping, as
/// `str::to_lowercase` gives it.
pub uninterp spec fn lowercase(text: Seq<char>) -> Seq<char>;

/// Whether a character has Unicode's `White_Space` property, as
/// `char::is_whitespace` tells it.
pub uninterp spec fn is_white_space(c: char) -> bool;

/// `needle` stands in `haystack` at position `at`.
pub open spec fn occurs_at(needle: Seq<char>, haystack: Seq<char>, at: int) -> bool {
    &&& 0 <= at
    &&& at + needle.len() <= haystack.len()
    &&& haystack.subrange(at, at + needle.len()) == needle
}

/// `needle` is a contiguous part of `haystack`.
pub open spec fn is_substring(needle: Seq<char>, haystack: Seq<char>) -> bool {
    exists|at: int| occurs_at(needle, haystack, at)
}

/// `needle` is a part of `haystack` when letter case is ignored.
pub open spec fn contains_ignoring_case(haystack: Seq<char>, needle: Seq<char>) -> bool {
    is_substring(lowercase(needle), lowercase(haystack))
}

/// How many characters stand at the front of `text` before its first white
/// space, or before its end.
pub open spec fn token_len(text: Seq<char>) -> nat
    decreases text.len(),
{
    if text.len() > 0 && !is_white_space(text[0]) {
        1 + token_len(text.drop_first())
    } else {
        0
    }
}

/// The maximal runs of characters without white space in `text`, from left
/// to right.
pub open spec fn whitespace_tokens(text: Seq<char>) -> Seq<Seq<char>>
    decreases text.len(),
    via whitespace_tokens_terminates
{
    if text.len() == 0 {
        Seq::empty()
    } else if is_white_space(text[0]) {
        whitespace_tokens(text.drop_first())
    } else {
        let n = token_len(text) as int;
        seq![text.take(n)] + whitespace_tokens(text.skip(n))
    }
}

#[via_fn]
proof fn whitespace_tokens_terminates(text: Seq<char>) {
    lemma_token_len_bound(text);
}

/// A word: at least one character, and none of them white space.
pub open spec fn is_word(token: Seq<char>) -> bool {
    &&& token.len() > 0
    &&& forall|j: int| 0 <= j < token.len() ==> !is_white_space(#[trigger] token[j])
}

/// One of `needles` is a contiguous part of `haystack`.
pub open spec fn holds_any(haystack: Seq<char>, needles: Seq<Seq<char>>) -> bool {
    exists|i: int| 0 <= i < needles.len() && is_substring(#[trigger] needles[i], haystack)
}

/// Some token of `exclude_keywords` is a part of `title`, letter case ignored.
pub open spec fn matches_exclude_keywords(title: Seq<char>, exclude_keywords: Seq<char>) -> bool {
    exists|i: int|
        0 <= i < whitespace_tokens(exclude_keywords).len() && contains_ignoring_case(
            title,
            #[trigger] whitespace_tokens(exclude_keywords)[i],
        )
}

/// `char::is_whitespace` tells whether the character has the `White_Space`
/// property. Which characters have it is left to Unicode's tables.
pub assume_specification[ char::is_whitespace ](c: char) -> (white: bool)
    ensures
        white == is_white_space(c),
;

/// Calls `str::to_lowercase`. The result is the text's lower-case form, which
/// is named and not spelled out here.
#[verifier::external_body]
fn to_lowercase(text: &str) -> (lower: String)
    ensures
        lower@ == lowercase(text@),
{
    text.to_lowercase()
}

/// A token never reaches past the end of the text.
proof fn lemma_token_len_bound(text: Seq<char>)
    ensures
        token_len(text) <= text.len(),
    decreases text.len(),
{
    if text.len() > 0 && !is_white_space(text[0]) {
        lemma_token_len_bound(text.drop_first());
    }
}

/// Where `text[from..to]` holds no white space and the token ends at `to`,
/// the token that starts at `from` has `to - from` characters.
proof fn lemma_token_len_between(text: Seq<char>, from: int, to: int)
    requires
        0 <= from <= to <= text.len(),
        forall|k: int| from <= k < to ==> !is_white_space(#[trigger] text[k]),
        to < text.len() ==> is_white_space(text[to]),
    ensures
        token_len(text.skip(from)) == to - from,
    decreases to - from,
{
    if from < to {
        assert(text.skip(from)[0] == text[from]);
        assert(text.skip(from).drop_first() =~= text.skip(from + 1));
        lemma_token_len_between(text, from + 1, to);
    } else if to < text.len() {
        assert(text.skip(to)[0] == text[to]);
    }
}

/// White space in front of a text adds no token.
proof fn lemma_skip_white_space(text: Seq<char>, from: int, to: int)
    requires
        0 <= from <= to <= text.len(),
        forall|k: int| from <= k < to ==> is_white_space(#[trigger] text[k]),
    ensures
        whitespace_tokens(text.skip(from)) == whitespace_tokens(text.skip(to)),
    decreases to - from,
{
    if from < to {
        assert(text.skip(from)[0] == text[from]);
        assert(text.skip(from).drop_first() =~= text.skip(from + 1));
        lemma_skip_white_space(text, from + 1, to);
    }
}

/// The characters of the token at the front of a text are not white space.
proof fn lemma_token_holds_no_white_space(text: Seq<char>)
    ensures
        forall|j: int| 0 <= j < token_len(text) ==> !is_white_space(#[trigger] text[j]),
    decreases text.len(),
{
    if text.len() > 0 && !is_white_space(text[0]) {
        let rest = text.drop_first();
        lemma_token_len_bound(text);
        lemma_token_holds_no_white_space(rest);
        assert forall|j: int| 0 <= j < token_len(text) implies !is_white_space(
            #[trigger] text[j],
        ) by {
            if j > 0 {
                assert(rest[j - 1] == text[j]);
            }
        }
    }
}

/// What stands in the back of a text stands in the text, further on.
proof fn lemma_occurs_further_on(needle: Seq<char>, text: Seq<char>, skipped: int, at: int)
    requires
        0 <= skipped <= text.len(),
        occurs_at(needle, text.skip(skipped), at),
    ensures
        occurs_at(needle, text, skipped + at),
{
    assert(text.subrange(skipped + at, skipped + at + needle.len()) =~= text.skip(
        skipped,
    ).subrange(at, at + needle.len()));
}

/// Every token is a word, and a contiguous part of the text that it was
/// taken from.
pub proof fn lemma_tokens_are_words(text: Seq<char>)
    ensures
        forall|i: int|
            0 <= i < whitespace_tokens(text).len() ==> {
                &&& is_word(#[trigger] whitespace_tokens(text)[i])
                &&& is_substring(whitespace_tokens(text)[i], text)
            },
    decreases text.len(),
{
    if text.len() == 0 {
    } else if is_white_space(text[0]) {
        let rest = text.drop_first();
        lemma_tokens_are_words(rest);
        assert forall|i: int| 0 <= i < whitespace_tokens(text).len() implies is_substring(
            #[trigger] whitespace_tokens(text)[i],
            text,
        ) by {
            let token = whitespace_tokens(rest)[i];
            let at = choose|at: int| occurs_at(token, rest, at);
            assert(rest =~= text.skip(1));
            lemma_occurs_further_on(token, text, 1, at);
        }
    } else {
        let n = token_len(text) as int;
        let rest = text.skip(n);
        lemma_token_len_bound(text);
        lemma_token_holds_no_white_space(text);
        lemma_tokens_are_words(rest);
        assert forall|i: int| 0 <= i < whitespace_tokens(text).len() implies is_word(
            #[trigger] whitespace_tokens(text)[i],
        ) && is_substring(whitespace_tokens(text)[i], text) by {
            if i == 0 {
                assert(text.subrange(0, n) =~= text.take(n));
                assert(occurs_at(text.take(n), text, 0));
            } else {
                let token = whitespace_tokens(rest)[i - 1];
                let at = choose|at: int| occurs_at(token, rest, at);
                lemma_occurs_further_on(token, text, n, at);
            }
        }
    }
}

/// A text without characters has no tokens.
pub proof fn lemma_empty_text_has_no_tokens(text: Seq<char>)
    requires
        text.len() == 0,
    ensures
        whitespace_tokens(text).len() == 0,
        forall|title: Seq<char>| !matches_exclude_keywords(title, text),
{
}

/// The characters of a text, one element each.
fn chars_of(text: &str) -> (chars: Vec<char>)
    ensures
        chars@ == text@,
{
    let mut chars: Vec<char> = Vec::new();
    for c in it: text.chars()
        invariant
            chars@ == it.seq().take(it.index()),
    {
        chars.push(c);
    }
    chars
}

/// Splits a text at white space. The pieces are the maximal runs of
/// characters without white space, in the order in which they stand in the
/// text; a text of white space alone has none.
pub fn split_whitespace(text: &str) -> (tokens: Vec<String>)
    ensures
        tokens.deep_view() == whitespace_tokens(text@),
{
    let chars = chars_of(text);
    let n = chars.len();
    let mut tokens: Vec<String> = Vec::new();
    let mut pos: usize = 0;
    assert(text@.skip(0) =~= text@);
    assert(tokens.deep_view() + whitespace_tokens(text@) =~= whitespace_tokens(text@));
    loop
        invariant
            n == chars.len(),
            chars@ == text@,
            pos <= n,
            whitespace_tokens(text@) == tokens.deep_view() + whitespace_tokens(
                text@.skip(pos as int),
            ),
        ensures
            tokens.deep_view() == whitespace_tokens(text@),
        decreases n - pos,
    {
        let mut start = pos;
        while start < n && chars[start].is_whitespace()
            invariant
                n == chars.len(),
                chars@ == text@,
                pos <= start <= n,
                forall|k: int| pos <= k < start ==> is_white_space(#[trigger] text@[k]),
            decreases n - start,
        {
            start += 1;
        }
        let ghost rest = text@.skip(start as int);
        proof {
            lemma_skip_white_space(text@, pos as int, start as int);
        }
        if start == n {
            assert(tokens.deep_view() + whitespace_tokens(rest) =~= tokens.deep_view());
            break;
        }
        let mut end = start + 1;
        while end < n && !chars[end].is_whitespace()
            invariant
                n == chars.len(),
                chars@ == text@,
                start < end <= n,
                forall|k: int| start <= k < end ==> !is_white_space(#[trigger] text@[k]),
            decreases n - end,
        {
            end += 1;
        }
        let token = text.substring_char(start, end).to_owned();
        let ghost before = tokens.deep_view();
        proof {
            lemma_token_len_between(text@, start as int, end as int);
            assert(rest[0] == text@[start as int]);
            assert(rest.take(end - start) =~= token@);
            assert(rest.skip(end - start) =~= text@.skip(end as int));
            assert(before.push(token@) + whitespace_tokens(text@.skip(end as int)) =~= before
                + whitespace_tokens(rest));
        }
        tokens.push(token);
        assert(tokens.deep_view() =~= before.push(token@));
        pos = end;
    }
    tokens
}

/// Tells whether `needle` stands in `haystack` at position `at`.
fn stands_at(needle: &Vec<char>, haystack: &Vec<char>, at: usize) -> (found: bool)
    requires
        at + needle.len() <= haystack.len(),
    ensures
        found == occurs_at(needle@, haystack@, at as int),
{
    let ghost part = haystack@.subrange(at as int, at + needle.len());
    let mut k: usize = 0;
    while k < needle.len()
        invariant
            k <= needle.len(),
            at + needle.len() <= haystack.len(),
            part == haystack@.subrange(at as int, at + needle.len()),
            forall|j: int| 0 <= j < k ==> haystack[at + j] == needle[j],
        decreases needle.len() - k,
    {
        if haystack[at + k] != needle[k] {
            assert(part[k as int] != needle[k as int]);
            return false;
        }
        k += 1;
    }
    assert(part =~= needle@);
    true
}

/// Tells whether `needle` is a contiguous part of `haystack`. The empty
/// `needle` is a part of every text.
fn is_part_of(needle: &Vec<char>, haystack: &Vec<char>) -> (found: bool)
    ensures
        found == is_substring(needle@, haystack@),
{
    if needle.len() > haystack.len() {
        return false;
    }
    let last = haystack.len() - needle.len();
    let mut at: usize = 0;
    loop
        invariant
            at <= last,
            last == haystack.len() - needle.len(),
            forall|earlier: int| 0 <= earlier < at ==> !occurs_at(needle@, haystack@, earlier),
        decreases last - at,
    {
        if stands_at(needle, haystack, at) {
            return true;
        }
        if at == last {
            return false;
        }
        at += 1;
    }
}

/// Tells whether one of `needles` is a contiguous part of `haystack`. Letter
/// case counts here.
pub fn contains_any(haystack: &str, needles: &Vec<String>) -> (found: bool)
    ensures
        found == holds_any(haystack@, needles.deep_view()),
{
    let text = chars_of(haystack);
    let mut i: usize = 0;
    while i < needles.len()
        invariant
            i <= needles.len(),
            text@ == haystack@,
            forall|j: int|
                0 <= j < i ==> !is_substring(#[trigger] needles.deep_view()[j], haystack@),
        decreases needles.len() - i,
    {
        assert(needles.deep_view()[i as int] == needles[i as int]@);
        if is_part_of(&chars_of(needles[i].as_str()), &text) {
            return true;
        }
        i += 1;
    }
    false
}

/// The lower-case form of each of `texts`, in their order.
fn lowercase_each(texts: &Vec<String>) -> (lowered: Vec<String>)
    ensures
        lowered.len() == texts.len(),
        forall|i: int|
            0 <= i < texts.len() ==> #[trigger] lowered.deep_view()[i] == lowercase(
                texts.deep_view()[i],
            ),
{
    let mut lowered: Vec<String> = Vec::new();
    let mut i: usize = 0;
    while i < texts.len()
        invariant
            i <= texts.len(),
            lowered.len() == i,
            forall|j: int|
                0 <= j < i ==> #[trigger] lowered.deep_view()[j] == lowercase(
                    texts.deep_view()[j],
                ),
        decreases texts.len() - i,
    {
        let ghost before = lowered.deep_view();
        let text = to_lowercase(texts[i].as_str());
        assert(texts.deep_view()[i as int] == texts[i as int]@);
        lowered.push(text);
        assert(lowered.deep_view() =~= before.push(text@));
        i += 1;
    }
    lowered
}

/// Tells whether `title` holds one of the white-space separated words of
/// `exclude_keywords`, compared without regard to letter case. An empty
/// `exclude_keywords` excludes nothing.
pub fn match_exclude_keywords(title: &str, exclude_keywords: &str) -> (excluded: bool)
    ensures
        excluded == matches_exclude_keywords(title@, exclude_keywords@),
        exclude_keywords@.len() == 0 ==> !excluded,
{
    if exclude_keywords.is_empty() {
        proof {
            lemma_empty_text_has_no_tokens(exclude_keywords@);
        }
        return false;
    }
    let keywords = lowercase_each(&split_whitespace(exclude_keywords));
    let excluded = contains_any(to_lowercase(title).as_str(), &keywords);
    proof {
        let words = whitespace_tokens(exclude_keywords@);
        if excluded {
            let k = choose|k: int|
                0 <= k < keywords.len() && is_substring(
                    #[trigger] keywords.deep_view()[k],
                    lowercase(title@),
                );
            assert(contains_ignoring_case(title@, words[k]));
        }
        if matches_exclude_keywords(title@, exclude_keywords@) {
            let k = choose|k: int|
                0 <= k < words.len() && contains_ignoring_case(title@, #[trigger] words[k]);
            assert(is_substring(keywords.deep_view()[k], lowercase(title@)));
        }
    }
    excluded
}

} // verus!
