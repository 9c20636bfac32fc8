use vstd::prelude::*;
use vstd::string::*;

verus! {

/// Whether `c` is white space in the sense of Unicode's `White_Space` property.
pub open spec fn is_space(c: char) -> bool {
    let u = c as u32;
    ||| 0x09 <= u <= 0x0D
    ||| u == 0x20
    ||| u == 0x85
    ||| u == 0xA0
    ||| u == 0x1680
    ||| 0x2000 <= u <= 0x200A
    ||| u == 0x2028
    ||| u == 0x2029
    ||| u == 0x202F
    ||| u == 0x205F
    ||| u == 0x3000
}

/// The end of the run of non-space characters of `s` that begins at `from`:
/// the first position at or after `from` that holds a space, or the length of `s`.
pub open spec fn word_end(s: Seq<char>, from: int) -> int
    decreases s.len() - from,
{
    if from < 0 || from >= s.len() || is_space(s[from]) {
        from
    } else {
        word_end(s, from + 1)
    }
}

/// A run of non-space characters ends after it begins and inside the text,
/// holds no space, and is followed by a space or by the end of the text.
pub proof fn lemma_word_end(s: Seq<char>, from: int)
    requires
        0 <= from <= s.len(),
    ensures
        from <= word_end(s, from) <= s.len(),
        forall|k: int| from <= k < word_end(s, from) ==> !is_space(#[trigger] s[k]),
        word_end(s, from) < s.len() ==> is_space(s[word_end(s, from)]),
        from < s.len() && !is_space(s[from]) ==> from < word_end(s, from),
    decreases s.len() - from,
{
    if from < s.len() && !is_space(s[from]) {
        lemma_word_end(s, from + 1);
    }
}

/// The words of `s` from position `from` on, in order: its maximal runs of
/// non-space characters.
pub open spec fn words_from(s: Seq<char>, from: int) -> Seq<Seq<char>>
    decreases s.len() - from,
{
    if from < 0 || from >= s.len() {
        Seq::empty()
    } else if is_space(s[from]) {
        words_from(s, from + 1)
    } else {
        proof {
            lemma_word_end(s, from);
        }
        seq![s.subrange(from, word_end(s, from))] + words_from(s, word_end(s, from))
    }
}

/// The words of `s`: what is left when `s` is cut at every white space and the
/// empty pieces are dropped.
pub open spec fn words(s: Seq<char>) -> Seq<Seq<char>> {
    words_from(s, 0)
}

/// Whether `word` could be a word: it holds a character, and no space.
pub open spec fn is_word(word: Seq<char>) -> bool {
    &&& word.len() > 0
    &&& forall|j: int| 0 <= j < word.len() ==> !is_space(#[trigger] word[j])
}

/// Every word of a text holds at least one character and no space.
pub proof fn lemma_words_are_words(s: Seq<char>, from: int)
    requires
        0 <= from <= s.len(),
    ensures
        forall|k: int| 0 <= k < words_from(s, from).len() ==> is_word(#[trigger] words_from(s, from)[k]),
    decreases s.len() - from,
{
    if from < s.len() {
        if is_space(s[from]) {
            lemma_words_are_words(s, from + 1);
            assert(words_from(s, from) == words_from(s, from + 1));
        } else {
            lemma_word_end(s, from);
            let end = word_end(s, from);
            let first = s.subrange(from, end);
            let rest = words_from(s, end);
            lemma_words_are_words(s, end);
            assert(is_word(first));
            assert forall|k: int| 0 <= k < words_from(s, from).len() implies is_word(
                #[trigger] words_from(s, from)[k],
            ) by {
                if k > 0 {
                    assert(words_from(s, from)[k] == rest[k - 1]);
                }
            }
        }
    }
}

/// A run of non-space characters ends where it ends in the text after
/// `prefix`, moved by the length of `prefix`.
pub proof fn lemma_word_end_after_prefix(prefix: Seq<char>, s: Seq<char>, from: int)
    requires
        0 <= from <= s.len(),
    ensures
        word_end(prefix + s, prefix.len() + from) == prefix.len() + word_end(s, from),
    decreases s.len() - from,
{
    if from < s.len() {
        assert((prefix + s)[prefix.len() + from] == s[from]);
        if !is_space(s[from]) {
            lemma_word_end_after_prefix(prefix, s, from + 1);
        }
    }
}

/// The words of a text from some position on do not depend on what stands
/// before that position.
pub proof fn lemma_words_after_prefix(prefix: Seq<char>, s: Seq<char>, from: int)
    requires
        0 <= from <= s.len(),
    ensures
        words_from(prefix + s, prefix.len() + from) == words_from(s, from),
    decreases s.len() - from,
{
    let whole = prefix + s;
    if from < s.len() {
        assert(whole[prefix.len() + from] == s[from]);
        if is_space(s[from]) {
            lemma_words_after_prefix(prefix, s, from + 1);
        } else {
            lemma_word_end(s, from);
            lemma_word_end_after_prefix(prefix, s, from);
            let end = word_end(s, from);
            lemma_words_after_prefix(prefix, s, end);
            assert(whole.subrange(prefix.len() + from, prefix.len() + end) =~= s.subrange(
                from,
                end,
            ));
        }
    }
}

/// A run of non-space characters that begins before a space ends at or before
/// that space, and so ends at the same place in the text cut before the space.
pub proof fn lemma_word_end_before_space(s: Seq<char>, from: int, space: int)
    requires
        0 <= from <= space < s.len(),
        is_space(s[space]),
    ensures
        word_end(s, from) <= space,
        word_end(s.take(space), from) == word_end(s, from),
    decreases space - from,
{
    if from < space {
        assert(s.take(space)[from] == s[from]);
        if !is_space(s[from]) {
            lemma_word_end_before_space(s, from + 1, space);
        }
    }
}

/// The words of a text are those before one of its spaces, followed by those
/// after it.
pub proof fn lemma_words_split_at_space(s: Seq<char>, from: int, space: int)
    requires
        0 <= from <= space < s.len(),
        is_space(s[space]),
    ensures
        words_from(s, from) == words_from(s.take(space), from) + words_from(s, space + 1),
    decreases space - from,
{
    let front = s.take(space);
    if from == space {
        assert(words_from(front, from) =~= Seq::<Seq<char>>::empty());
        assert(words_from(s, from) =~= words_from(front, from) + words_from(s, space + 1));
    } else {
        assert(front[from] == s[from]);
        if is_space(s[from]) {
            lemma_words_split_at_space(s, from + 1, space);
        } else {
            lemma_word_end(s, from);
            lemma_word_end_before_space(s, from, space);
            let end = word_end(s, from);
            lemma_words_split_at_space(s, end, space);
            assert(front.subrange(from, end) =~= s.subrange(from, end));
            assert(words_from(s, from) =~= words_from(front, from) + words_from(s, space + 1));
        }
    }
}

/// A text without any character has no word.
pub proof fn lemma_words_of_nothing()
    ensures
        words(Seq::<char>::empty()) == Seq::<Seq<char>>::empty(),
{
}

/// A text that holds a character and no space is one word: itself.
pub proof fn lemma_words_of_one_word(s: Seq<char>)
    requires
        is_word(s),
    ensures
        words(s) == seq![s],
{
    lemma_word_end(s, 0);
    assert(word_end(s, 0) == s.len());
    assert(s.subrange(0, s.len() as int) =~= s);
    assert(words_from(s, s.len() as int) =~= Seq::<Seq<char>>::empty());
    assert(words(s) =~= seq![s]);
}

/// The words of two texts joined by a space are the words of the first,
/// followed by the words of the second. With the two laws above this says what
/// the words of every text are.
pub proof fn lemma_words_around_space(before: Seq<char>, space: char, after: Seq<char>)
    requires
        is_space(space),
    ensures
        words(before.push(space) + after) == words(before) + words(after),
{
    let front = before.push(space);
    let whole = front + after;
    let at = before.len() as int;
    assert(whole[at] == space);
    lemma_words_split_at_space(whole, 0, at);
    assert(whole.take(at) =~= before);
    lemma_words_after_prefix(front, after, 0);
}

/// Whether `c` is white space.
pub fn is_whitespace(c: char) -> (b: bool)
    ensures
        b == is_space(c),
{
    let u: u32 = c as u32;
    (0x09 <= u && u <= 0x0D) || u == 0x20 || u == 0x85 || u == 0xA0 || u == 0x1680 || (0x2000 <= u
        && u <= 0x200A) || u == 0x2028 || u == 0x2029 || u == 0x202F || u == 0x205F || u == 0x3000
}

/// The characters of `s`, one by one.
pub fn chars_of(s: &str) -> (v: Vec<char>)
    ensures
        v@ == s@,
{
    broadcast use vstd::string::axiom_spec_iter;

    let mut v: Vec<char> = Vec::new();
    for c in it: s.chars()
        invariant
            it.seq() == s@,
            v@ == s@.take(it.index()),
    {
        v.push(c);
    }
    assert(s@.take(s@.len() as int) == s@);
    v
}

/// Cuts `line` at white space, as `str::split_whitespace` does, and returns
/// the pieces that are not empty.
pub fn split_whitespace(line: &str) -> (tokens: Vec<String>)
    ensures
        tokens.deep_view() == words(line@),
{
    let chars = chars_of(line);
    let n = chars.len();
    let mut tokens: Vec<String> = Vec::new();
    let mut i: usize = 0;
    while i < n
        invariant
            n == chars@.len(),
            chars@ == line@,
            i <= n,
            words(line@) == tokens.deep_view() + words_from(line@, i as int),
        decreases n - i,
    {
        if is_whitespace(chars[i]) {
            i = i + 1;
        } else {
            let start = i;
            while i < n && !is_whitespace(chars[i])
                invariant
                    n == chars@.len(),
                    chars@ == line@,
                    start <= i <= n,
                    word_end(line@, start as int) == word_end(line@, i as int),
                decreases n - i,
            {
                i = i + 1;
            }
            proof {
                lemma_word_end(line@, start as int);
            }
            let ghost before = tokens.deep_view();
            let token = String::from_str(line.substring_char(start, i));
            tokens.push(token);
            assert(tokens.deep_view() == before.push(line@.subrange(start as int, i as int)));
        }
    }
    tokens
}

} // verus!
