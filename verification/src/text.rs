//! Words of a text, and texts put together from parts.

use vstd::prelude::*;

verus! {

/// The characters that Unicode gives the property `White_Space`.
pub open spec fn white_space(c: char) -> bool {
    ||| '\u{9}' <= c <= '\u{d}'
    ||| c == '\u{20}'
    ||| c == '\u{85}'
    ||| c == '\u{a0}'
    ||| c == '\u{1680}'
    ||| '\u{2000}' <= c <= '\u{200a}'
    ||| c == '\u{2028}'
    ||| c == '\u{2029}'
    ||| c == '\u{202f}'
    ||| c == '\u{205f}'
    ||| c == '\u{3000}'
}

/// Whether a character is white space.
pub fn is_white_space(c: char) -> (yes: bool)
    ensures
        yes == white_space(c),
{
    ('\u{9}' <= c && c <= '\u{d}') || c == '\u{20}' || c == '\u{85}' || c == '\u{a0}' || c
        == '\u{1680}' || ('\u{2000}' <= c && c <= '\u{200a}') || c == '\u{2028}' || c == '\u{2029}'
        || c == '\u{202f}' || c == '\u{205f}' || c == '\u{3000}'
}

/// How many characters stand before the first white space.
pub open spec fn word_length(text: Seq<char>) -> nat
    decreases text.len(),
{
    if text.len() == 0 || white_space(text[0]) {
        0
    } else {
        1 + word_length(text.skip(1))
    }
}

/// The maximal runs of characters that are not white space, in order.
pub open spec fn words(text: Seq<char>) -> Seq<Seq<char>>
    decreases text.len(),
{
    if text.len() == 0 {
        Seq::empty()
    } else if white_space(text[0]) {
        words(text.skip(1))
    } else {
        let length = word_length(text);
        proof {
            lemma_word_length(text);
        }
        seq![text.take(length as int)] + words(text.skip(length as int))
    }
}

/// The contents of each of a sequence of strings.
pub open spec fn contents(strings: Seq<String>) -> Seq<Seq<char>> {
    Seq::new(strings.len(), |i: int| strings[i]@)
}

/// A word ends at the first white space or at the end of the text.
pub proof fn lemma_word_length(text: Seq<char>)
    ensures
        word_length(text) <= text.len(),
        text.len() > 0 && !white_space(text[0]) ==> word_length(text) > 0,
        forall|i: int| 0 <= i < word_length(text) ==> !white_space(#[trigger] text[i]),
        word_length(text) < text.len() ==> white_space(text[word_length(text) as int]),
    decreases text.len(),
{
    if text.len() > 0 && !white_space(text[0]) {
        let rest = text.skip(1);
        lemma_word_length(rest);
        assert forall|i: int| 0 <= i < word_length(text) implies !white_space(
            #[trigger] text[i],
        ) by {
            if i > 0 {
                assert(rest[i - 1] == text[i]);
            }
        }
    }
}

/// The length of a word is fixed by where the first white space stands.
proof fn lemma_word_length_is(text: Seq<char>, length: int)
    requires
        0 <= length <= text.len(),
        forall|i: int| 0 <= i < length ==> !white_space(#[trigger] text[i]),
        length < text.len() ==> white_space(text[length]),
    ensures
        word_length(text) == length,
{
    lemma_word_length(text);
    let found = word_length(text) as int;
    if found < length {
        assert(white_space(text[found]));
    }
    if length < found {
        assert(!white_space(text[length]));
    }
}

/// A class of characters.
pub enum Class {
    /// The characters that words of a service description are made of.
    Word,
    /// White space.
    Space,
    /// Every character but one.
    Not(char),
}

/// A character belongs to a class.
pub open spec fn class_has(class: Class, c: char) -> bool {
    match class {
        Class::Word => crate::pattern::word_character(c),
        Class::Space => white_space(c),
        Class::Not(other) => c != other,
    }
}

/// How many characters of a class a text begins with.
pub open spec fn run_length(text: Seq<char>, class: Class) -> nat
    decreases text.len(),
{
    if text.len() == 0 || !class_has(class, text[0]) {
        0
    } else {
        1 + run_length(text.skip(1), class)
    }
}

/// A run ends at the first character that is not of the class, or at the end of
/// the text.
pub proof fn lemma_run_length(text: Seq<char>, class: Class)
    ensures
        run_length(text, class) <= text.len(),
        forall|i: int| 0 <= i < run_length(text, class) ==> class_has(class, #[trigger] text[i]),
        run_length(text, class) < text.len() ==> !class_has(
            class,
            text[run_length(text, class) as int],
        ),
    decreases text.len(),
{
    if text.len() > 0 && class_has(class, text[0]) {
        let rest = text.skip(1);
        lemma_run_length(rest, class);
        assert forall|i: int| 0 <= i < run_length(text, class) implies class_has(
            class,
            #[trigger] text[i],
        ) by {
            if i > 0 {
                assert(rest[i - 1] == text[i]);
            }
        }
    }
}

/// The length of a run is fixed by where the first character stands that is not of
/// the class.
pub proof fn lemma_run_length_is(text: Seq<char>, class: Class, length: int)
    requires
        0 <= length <= text.len(),
        forall|i: int| 0 <= i < length ==> class_has(class, #[trigger] text[i]),
        length < text.len() ==> !class_has(class, text[length]),
    ensures
        run_length(text, class) == length,
{
    lemma_run_length(text, class);
    let found = run_length(text, class) as int;
    if found < length {
        assert(class_has(class, text[found]));
    }
    if length < found {
        assert(class_has(class, text[length]));
    }
}

/// A run ends in the front of two joined texts, or goes on into the back.
pub proof fn lemma_run_length_joined(front: Seq<char>, back: Seq<char>, class: Class)
    ensures
        run_length(front + back, class) == if run_length(front, class) < front.len() {
            run_length(front, class)
        } else {
            front.len() + run_length(back, class)
        },
{
    let text = front + back;
    lemma_run_length(front, class);
    lemma_run_length(back, class);
    let length = if run_length(front, class) < front.len() {
        run_length(front, class) as int
    } else {
        (front.len() + run_length(back, class)) as int
    };
    assert forall|i: int| 0 <= i < length implies class_has(class, #[trigger] text[i]) by {
        if i < front.len() {
            assert(text[i] == front[i]);
        } else {
            assert(text[i] == back[i - front.len()]);
        }
    }
    if length < text.len() {
        if length < front.len() {
            assert(text[length] == front[length]);
        } else {
            assert(text[length] == back[length - front.len()]);
        }
    }
    lemma_run_length_is(text, class, length);
}

/// The words of a text.
pub fn split_whitespace(text: &str) -> (found: Vec<String>)
    ensures
        contents(found@) == words(text@),
{
    let end: usize = text.unicode_len();
    let mut found: Vec<String> = Vec::new();
    let mut at: usize = 0;
    assert(text@.skip(0) =~= text@);
    assert(contents(found@) + words(text@) =~= words(text@));
    while at < end
        invariant
            end == text@.len(),
            at <= end,
            contents(found@) + words(text@.skip(at as int)) == words(text@),
        decreases end - at,
    {
        let ghost left = text@.skip(at as int);
        if is_white_space(text.get_char(at)) {
            assert(left.skip(1) =~= text@.skip(at + 1));
            at = at + 1;
        } else {
            let mut stop: usize = at + 1;
            while stop < end && !is_white_space(text.get_char(stop))
                invariant
                    end == text@.len(),
                    at < stop <= end,
                    forall|i: int| at <= i < stop ==> !white_space(#[trigger] text@[i]),
                decreases end - stop,
            {
                stop = stop + 1;
            }
            let word: String = text.substring_char(at, stop).to_owned();
            proof {
                lemma_word_length_is(left, stop - at);
                assert(left.take(stop - at) =~= word@);
                assert(left.skip(stop - at) =~= text@.skip(stop as int));
                assert(contents(found@.push(word)) =~= contents(found@).push(word@));
                assert(contents(found@) + (seq![word@] + words(text@.skip(stop as int)))
                    =~= contents(found@).push(word@) + words(text@.skip(stop as int)));
            }
            found.push(word);
            at = stop;
        }
    }
    assert(text@.skip(end as int) =~= Seq::<char>::empty());
    assert(contents(found@) + words(Seq::<char>::empty()) =~= contents(found@));
    found
}

/// The three parts, one behind the other.
pub fn join3(first: &str, second: &str, third: &str) -> (joined: String)
    ensures
        joined@ == first@ + second@ + third@,
{
    let mut joined: String = first.to_owned();
    joined.append(second);
    joined.append(third);
    joined
}

/// Words are not empty and hold no white space.
pub proof fn law_words_are_words(text: Seq<char>)
    ensures
        forall|i: int, j: int|
            0 <= i < words(text).len() && 0 <= j < words(text)[i].len() ==> !white_space(
                #[trigger] words(text)[i][j],
            ),
        forall|i: int| 0 <= i < words(text).len() ==> (#[trigger] words(text)[i]).len() > 0,
    decreases text.len(),
{
    if text.len() > 0 {
        if white_space(text[0]) {
            law_words_are_words(text.skip(1));
            assert(words(text) == words(text.skip(1)));
        } else {
            lemma_word_length(text);
            let length = word_length(text) as int;
            let rest = text.skip(length);
            law_words_are_words(rest);
            assert forall|i: int| 0 <= i < words(text).len() implies (#[trigger] words(
                text,
            )[i]).len() > 0 by {
                if i > 0 {
                    assert(words(text)[i] == words(rest)[i - 1]);
                }
            }
            assert forall|i: int, j: int|
                0 <= i < words(text).len() && 0 <= j < words(text)[i].len() implies !white_space(
                #[trigger] words(text)[i][j],
            ) by {
                if i > 0 {
                    assert(words(text)[i] == words(rest)[i - 1]);
                    assert(!white_space(words(rest)[i - 1][j]));
                }
            }
        }
    }
}

/// A text that ends in white space followed by a word has that word last.
pub proof fn law_last_word(front: Seq<char>, gap: char, word: Seq<char>)
    requires
        white_space(gap),
        word.len() > 0,
        forall|i: int| 0 <= i < word.len() ==> !white_space(#[trigger] word[i]),
    ensures
        words(front + seq![gap] + word).len() > 0,
        words(front + seq![gap] + word).last() == word,
    decreases front.len(),
{
    let text = front + seq![gap] + word;
    if front.len() == 0 {
        assert(text[0] == gap);
        assert(text.skip(1) =~= word);
        lemma_word_length_is(word, word.len() as int);
        assert(word.take(word.len() as int) =~= word);
        assert(words(word.skip(word.len() as int)) =~= Seq::empty());
        assert(words(word) =~= seq![word]);
    } else if white_space(text[0]) {
        assert(text.skip(1) =~= front.skip(1) + seq![gap] + word);
        law_last_word(front.skip(1), gap, word);
    } else {
        lemma_word_length(text);
        let length = word_length(text) as int;
        if length > front.len() {
            assert(text[front.len() as int] == gap);
        }
        assert(text.skip(length) =~= front.skip(length) + seq![gap] + word);
        law_last_word(front.skip(length), gap, word);
        assert(words(text).last() == words(text.skip(length)).last());
    }
}

/// White space parts a text: the words of two texts with white space between them
/// are those of the first, all of them, and then those of the second.
pub proof fn law_every_word_counts(front: Seq<char>, gap: char, back: Seq<char>)
    requires
        white_space(gap),
    ensures
        words(front + seq![gap] + back) == words(front) + words(back),
    decreases front.len(),
{
    let text = front + seq![gap] + back;
    if front.len() == 0 {
        assert(text[0] == gap);
        assert(text.skip(1) =~= back);
        assert(words(front).len() == 0);
        assert(words(text) =~= words(front) + words(back));
    } else {
        assert(text[0] == front[0]);
        if white_space(front[0]) {
            assert(text.skip(1) =~= front.skip(1) + seq![gap] + back);
            law_every_word_counts(front.skip(1), gap, back);
        } else {
            lemma_word_length(text);
            let length = word_length(text) as int;
            assert(text[front.len() as int] == gap);
            assert forall|i: int| 0 <= i < length implies !white_space(#[trigger] front[i]) by {
                assert(text[i] == front[i]);
            }
            if length < front.len() {
                assert(text[length] == front[length]);
            }
            lemma_word_length_is(front, length);
            assert(text.skip(length) =~= front.skip(length) + seq![gap] + back);
            assert(text.take(length) =~= front.take(length));
            law_every_word_counts(front.skip(length), gap, back);
            assert(words(text) =~= words(front) + words(back));
        }
    }
}

/// A text without white space, unless it is empty, is one word: itself.
pub proof fn law_one_word_is_itself(word: Seq<char>)
    requires
        word.len() > 0,
        forall|i: int| 0 <= i < word.len() ==> !white_space(#[trigger] word[i]),
    ensures
        words(word) == seq![word],
{
    lemma_word_length_is(word, word.len() as int);
    assert(word.take(word.len() as int) =~= word);
    assert(words(word.skip(word.len() as int)).len() == 0);
    assert(words(word) =~= seq![word]);
}

/// White space alone has no words.
pub proof fn law_white_space_has_no_words(text: Seq<char>)
    requires
        forall|i: int| 0 <= i < text.len() ==> white_space(#[trigger] text[i]),
    ensures
        words(text).len() == 0,
    decreases text.len(),
{
    if text.len() > 0 {
        assert(white_space(text[0]));
        assert forall|i: int| 0 <= i < text.skip(1).len() implies white_space(
            #[trigger] text.skip(1)[i],
        ) by {
            assert(text.skip(1)[i] == text[i + 1]);
        }
        law_white_space_has_no_words(text.skip(1));
    }
}

/// Some texts one behind the other, a character between two of them.
pub open spec fn joined(parts: Seq<Seq<char>>, gap: char) -> Seq<char>
    decreases parts.len(),
{
    if parts.len() == 0 {
        Seq::empty()
    } else if parts.len() == 1 {
        parts[0]
    } else {
        parts[0] + seq![gap] + joined(parts.skip(1), gap)
    }
}

/// Splitting undoes joining: the words of words joined by white space are these
/// words, each of them, as often as it stands there, and in order.
pub proof fn law_splitting_undoes_joining(parts: Seq<Seq<char>>, gap: char)
    requires
        white_space(gap),
        forall|i: int| 0 <= i < parts.len() ==> (#[trigger] parts[i]).len() > 0,
        forall|i: int, j: int|
            0 <= i < parts.len() && 0 <= j < parts[i].len() ==> !white_space(
                #[trigger] parts[i][j],
            ),
    ensures
        words(joined(parts, gap)) == parts,
    decreases parts.len(),
{
    if parts.len() == 0 {
        assert(words(joined(parts, gap)) =~= parts);
    } else {
        let first = parts[0];
        let rest = parts.skip(1);
        assert forall|i: int| 0 <= i < first.len() implies !white_space(#[trigger] first[i]) by {
            assert(first[i] == parts[0][i]);
        }
        law_one_word_is_itself(first);
        if parts.len() == 1 {
            assert(parts =~= seq![first]);
        } else {
            assert forall|i: int| 0 <= i < rest.len() implies (#[trigger] rest[i]).len() > 0 by {
                assert(rest[i] == parts[i + 1]);
            }
            assert forall|i: int, j: int|
                0 <= i < rest.len() && 0 <= j < rest[i].len() implies !white_space(
                #[trigger] rest[i][j],
            ) by {
                assert(rest[i][j] == parts[i + 1][j]);
            }
            law_splitting_undoes_joining(rest, gap);
            law_every_word_counts(first, gap, joined(rest, gap));
            assert(seq![first] + rest =~= parts);
        }
    }
}

/// White space is what has one of these code points, and nothing else.
pub proof fn law_white_space_code_points(c: char)
    ensures
        white_space(c) <==> ({
            let point = c as u32;
            ||| 9 <= point <= 13 || point == 32 || point == 133 || point == 160
            ||| point == 5760 || 8192 <= point <= 8202 || point == 8232 || point == 8233
            ||| point == 8239 || point == 8287 || point == 12288
        }),
{
}

/// The contents of strings are those of each of them, in order.
pub proof fn law_contents_of_each(strings: Seq<String>)
    ensures
        contents(strings).len() == strings.len(),
        forall|i: int| 0 <= i < strings.len() ==> #[trigger] contents(strings)[i] == strings[i]@,
{
}

} // verus!
