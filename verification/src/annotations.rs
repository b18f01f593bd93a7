//! Annotations in a text: a key, an equals sign and a quoted value.

use vstd::prelude::*;

verus! {

/// The annotation that a text begins with, if there is one: its key, its value and
/// its length.
///
/// The key is made of word characters, and of all that stand there. White space may
/// stand on both sides of the equals sign. The value stands between double quotes.
pub open spec fn annotation_at(text: Seq<char>) -> Option<(Seq<char>, Seq<char>, int)> {
    let key = crate::text::run_length(text, crate::text::Class::Word) as int;
    let sign = key + crate::text::run_length(text.skip(key), crate::text::Class::Space);
    let open = sign + 1 + crate::text::run_length(text.skip(sign + 1), crate::text::Class::Space);
    let close = open + 1 + crate::text::run_length(
        text.skip(open + 1),
        crate::text::Class::Not('"'),
    );
    if key > 0 && sign < text.len() && text[sign] == '=' && open < text.len() && text[open] == '"'
        && close < text.len() {
        Some((text.take(key), text.subrange(open + 1, close), close + 1))
    } else {
        None
    }
}

/// The annotations in a text, each as its key and its value, in order.
pub open spec fn annotation_matches(text: Seq<char>) -> Seq<Seq<Option<Seq<char>>>>
    decreases text.len(),
{
    if text.len() == 0 {
        Seq::empty()
    } else {
        match annotation_at(text) {
            Some((key, value, length)) => seq![seq![Some(key), Some(value)]] + annotation_matches(
                text.skip(length),
            ),
            None => annotation_matches(text.skip(1)),
        }
    }
}

/// A text is nothing but white space.
pub open spec fn blank(text: Seq<char>) -> bool {
    forall|i: int| 0 <= i < text.len() ==> crate::text::white_space(#[trigger] text[i])
}

/// A text can be a key: it has word characters, and nothing else.
pub open spec fn is_key(text: Seq<char>) -> bool {
    &&& text.len() > 0
    &&& forall|i: int|
        0 <= i < text.len() ==> crate::pattern::word_character(#[trigger] text[i])
}

/// A text can be a value: it has no double quote.
pub open spec fn is_value(text: Seq<char>) -> bool {
    crate::comments::lacks(text, '"')
}

/// An annotation as it is written, with what stands on both sides of the equals
/// sign.
pub open spec fn written(
    key: Seq<char>,
    before: Seq<char>,
    after: Seq<char>,
    value: Seq<char>,
) -> Seq<char> {
    key + before + seq!['='] + after + seq!['"'] + value + seq!['"']
}

/// A text is an annotation: the key, the equals sign between white space or none,
/// and the value between double quotes.
pub open spec fn is_annotation(text: Seq<char>, key: Seq<char>, value: Seq<char>) -> bool {
    &&& is_key(key)
    &&& is_value(value)
    &&& exists|before: Seq<char>, after: Seq<char>|
        blank(before) && blank(after) && text == #[trigger] written(key, before, after, value)
}

/// An annotation stands in a text, from one place up to another.
pub open spec fn stands_in(
    text: Seq<char>,
    from: int,
    to: int,
    key: Seq<char>,
    value: Seq<char>,
) -> bool {
    0 <= from <= to <= text.len() && is_annotation(text.subrange(from, to), key, value)
}

/// Keys and values as annotations, one space between two of them.
pub open spec fn rendered(pairs: Seq<(Seq<char>, Seq<char>)>) -> Seq<char>
    decreases pairs.len(),
{
    if pairs.len() == 0 {
        Seq::empty()
    } else {
        let first = written(pairs[0].0, Seq::empty(), Seq::empty(), pairs[0].1);
        if pairs.len() == 1 {
            first
        } else {
            first + seq![' '] + rendered(pairs.skip(1))
        }
    }
}

/// Keys and values that can be written as annotations.
pub open spec fn renderable(pairs: Seq<(Seq<char>, Seq<char>)>) -> bool {
    forall|i: int|
        0 <= i < pairs.len() ==> is_key((#[trigger] pairs[i]).0) && is_value(pairs[i].1)
}

/// Keys and values as matches.
pub open spec fn as_matches(pairs: Seq<(Seq<char>, Seq<char>)>) -> Seq<Seq<Option<Seq<char>>>> {
    Seq::new(pairs.len(), |i: int| seq![Some(pairs[i].0), Some(pairs[i].1)])
}

// ---------------------------------------------------------------------------
// Lemmas
// ---------------------------------------------------------------------------
/// An annotation is read as it is written, whatever follows it.
proof fn lemma_written_is_read(
    key: Seq<char>,
    before: Seq<char>,
    after: Seq<char>,
    value: Seq<char>,
    rest: Seq<char>,
)
    requires
        is_key(key),
        is_value(value),
        blank(before),
        blank(after),
    ensures
        annotation_at(written(key, before, after, value) + rest) == Some(
            (key, value, written(key, before, after, value).len() as int),
        ),
{
    let text = written(key, before, after, value) + rest;
    let sign: int = (key.len() + before.len()) as int;
    let open = sign + 1 + after.len();
    let close = open + 1 + value.len();
    assert forall|i: int| 0 <= i < key.len() implies #[trigger] text[i] == key[i] by {}
    assert(text[key.len() as int] == if before.len() > 0 {
        before[0]
    } else {
        '='
    });
    crate::text::lemma_run_length_is(text, crate::text::Class::Word, key.len() as int);
    let behind_key = text.skip(key.len() as int);
    assert forall|i: int| 0 <= i < before.len() implies #[trigger] behind_key[i] == before[i] by {}
    assert(behind_key[before.len() as int] == '=');
    crate::text::lemma_run_length_is(
        behind_key,
        crate::text::Class::Space,
        before.len() as int,
    );
    let behind_sign = text.skip(sign + 1);
    assert forall|i: int| 0 <= i < after.len() implies #[trigger] behind_sign[i] == after[i] by {}
    assert(behind_sign[after.len() as int] == '"');
    crate::text::lemma_run_length_is(
        behind_sign,
        crate::text::Class::Space,
        after.len() as int,
    );
    let behind_quote = text.skip(open + 1);
    assert forall|i: int| 0 <= i < value.len() implies #[trigger] behind_quote[i] == value[i] by {}
    assert(behind_quote[value.len() as int] == '"');
    crate::text::lemma_run_length_is(
        behind_quote,
        crate::text::Class::Not('"'),
        value.len() as int,
    );
    assert(text.take(key.len() as int) =~= key);
    assert(text.subrange(open + 1, close) =~= value);
}

/// What is read as an annotation is one.
proof fn lemma_read_is_annotation(text: Seq<char>)
    ensures
        annotation_at(text) matches Some((key, value, length)) ==> is_annotation(
            text.take(length),
            key,
            value,
        ),
{
    if let Some((key, value, length)) = annotation_at(text) {
        crate::text::lemma_run_length(text, crate::text::Class::Word);
        let sign: int = key.len() as int + crate::text::run_length(
            text.skip(key.len() as int),
            crate::text::Class::Space,
        );
        crate::text::lemma_run_length(text.skip(key.len() as int), crate::text::Class::Space);
        let open = sign + 1 + crate::text::run_length(
            text.skip(sign + 1),
            crate::text::Class::Space,
        );
        crate::text::lemma_run_length(text.skip(sign + 1), crate::text::Class::Space);
        crate::text::lemma_run_length(text.skip(open + 1), crate::text::Class::Not('"'));
        let before = text.subrange(key.len() as int, sign);
        let after = text.subrange(sign + 1, open);
        assert forall|i: int| 0 <= i < key.len() implies crate::pattern::word_character(
            #[trigger] key[i],
        ) by {
            assert(crate::text::class_has(crate::text::Class::Word, text[i]));
        }
        assert forall|i: int| 0 <= i < before.len() implies crate::text::white_space(
            #[trigger] before[i],
        ) by {
            assert(crate::text::class_has(
                crate::text::Class::Space,
                text.skip(key.len() as int)[i],
            ));
        }
        assert forall|i: int| 0 <= i < after.len() implies crate::text::white_space(
            #[trigger] after[i],
        ) by {
            assert(crate::text::class_has(crate::text::Class::Space, text.skip(sign + 1)[i]));
        }
        assert forall|i: int| 0 <= i < value.len() implies #[trigger] value[i] != '"' by {
            assert(crate::text::class_has(
                crate::text::Class::Not('"'),
                text.skip(open + 1)[i],
            ));
        }
        let close = open + 1 + value.len();
        let behind = text.skip(open + 1);
        assert(behind[value.len() as int] == text[close]);
        assert(text.take(length) =~= written(key, before, after, value));
    }
}

/// Each match in a text is an annotation that stands in it.
proof fn lemma_matches_stand(text: Seq<char>, i: int)
    requires
        0 <= i < annotation_matches(text).len(),
    ensures
        exists|from: int, to: int, key: Seq<char>, value: Seq<char>|
            annotation_matches(text)[i] == seq![Some(key), Some(value)] && #[trigger] stands_in(
                text,
                from,
                to,
                key,
                value,
            ),
    decreases text.len(),
{
    assert(text.len() > 0);
    let skipped = match annotation_at(text) {
        Some((_, _, length)) => length,
        None => 1,
    };
    let rest = text.skip(skipped);
    let before: int = if annotation_at(text) is Some {
        1
    } else {
        0
    };
    if i < before {
        lemma_read_is_annotation(text);
        let (key, value, length) = annotation_at(text)->Some_0;
        assert(text.subrange(0, length) =~= text.take(length));
        assert(stands_in(text, 0, length, key, value));
    } else {
        assert(annotation_matches(text)[i] == annotation_matches(rest)[i - before]);
        lemma_matches_stand(rest, i - before);
        let (from, to, key, value) = choose|from: int, to: int, key: Seq<char>, value: Seq<char>|
            annotation_matches(rest)[i - before] == seq![Some(key), Some(value)]
                && #[trigger] stands_in(rest, from, to, key, value);
        assert(rest.subrange(from, to) =~= text.subrange(from + skipped, to + skipped));
        assert(stands_in(text, from + skipped, to + skipped, key, value));
    }
}

/// Where an annotation stands in a text, there is a match.
proof fn lemma_standing_is_matched(
    text: Seq<char>,
    from: int,
    to: int,
    key: Seq<char>,
    value: Seq<char>,
)
    requires
        stands_in(text, from, to, key, value),
    ensures
        annotation_matches(text).len() > 0,
    decreases text.len(),
{
    let (before, after) = choose|before: Seq<char>, after: Seq<char>|
        blank(before) && blank(after) && text.subrange(from, to) == #[trigger] written(
            key,
            before,
            after,
            value,
        );
    if from == 0 {
        assert(text =~= written(key, before, after, value) + text.skip(to));
        lemma_written_is_read(key, before, after, value, text.skip(to));
    } else if annotation_at(text) is None {
        let rest = text.skip(1);
        assert(rest.subrange(from - 1, to - 1) =~= text.subrange(from, to));
        lemma_standing_is_matched(rest, from - 1, to - 1, key, value);
    }
}

/// What a dictionary of annotations holds comes from a match.
proof fn lemma_held_is_matched(found: Seq<Seq<Option<Seq<char>>>>, key: Seq<char>)
    requires
        crate::parse::annotations_of(found).contains_key(key),
    ensures
        exists|i: int|
            0 <= i < found.len() && (#[trigger] found[i])[0] == Some(key) && found[i][1] == Some(
                crate::parse::annotations_of(found)[key],
            ),
    decreases found.len(),
{
    if found.len() > 0 {
        let last = found.last();
        if last[0] == Some(key) && last[1] is Some {
            assert(found[found.len() - 1] == last);
        } else {
            lemma_held_is_matched(found.drop_last(), key);
            let i = choose|i: int|
                0 <= i < found.drop_last().len() && (#[trigger] found.drop_last()[i])[0] == Some(
                    key,
                ) && found.drop_last()[i][1] == Some(
                    crate::parse::annotations_of(found.drop_last())[key],
                );
            assert(found[i] == found.drop_last()[i]);
        }
    }
}

/// The annotations of joined matches are those of the parts, the later preferred.
proof fn lemma_joined_matches(
    front: Seq<Seq<Option<Seq<char>>>>,
    back: Seq<Seq<Option<Seq<char>>>>,
)
    ensures
        crate::parse::annotations_of(front + back) == crate::parse::annotations_of(
            front,
        ).union_prefer_right(crate::parse::annotations_of(back)),
    decreases back.len(),
{
    if back.len() == 0 {
        assert(front + back =~= front);
        assert(crate::parse::annotations_of(back) =~= Map::empty());
        assert(crate::parse::annotations_of(front + back) =~= crate::parse::annotations_of(
            front,
        ).union_prefer_right(crate::parse::annotations_of(back)));
    } else {
        assert((front + back).drop_last() =~= front + back.drop_last());
        assert((front + back).last() == back.last());
        lemma_joined_matches(front, back.drop_last());
        assert(crate::parse::annotations_of(front + back) =~= crate::parse::annotations_of(
            front,
        ).union_prefer_right(crate::parse::annotations_of(back)));
    }
}

/// Rendered keys and values are matched one by one, and then what follows them.
proof fn lemma_rendered_is_matched(pairs: Seq<(Seq<char>, Seq<char>)>, rest: Seq<char>)
    requires
        renderable(pairs),
    ensures
        annotation_matches(rendered(pairs) + rest) == as_matches(pairs) + annotation_matches(rest),
    decreases pairs.len(),
{
    if pairs.len() == 0 {
        assert(rendered(pairs) + rest =~= rest);
        assert(as_matches(pairs) + annotation_matches(rest) =~= annotation_matches(rest));
    } else {
        let (key, value) = pairs[0];
        let none = Seq::<char>::empty();
        let first = written(key, none, none, value);
        let tail = pairs.skip(1);
        let behind = if pairs.len() == 1 {
            rest
        } else {
            seq![' '] + rendered(tail) + rest
        };
        let text = rendered(pairs) + rest;
        assert(text =~= first + behind);
        lemma_written_is_read(key, none, none, value, behind);
        assert(text.skip(first.len() as int) =~= behind);
        assert forall|i: int| 0 <= i < tail.len() implies is_key((#[trigger] tail[i]).0)
            && is_value(tail[i].1) by {
            assert(tail[i] == pairs[i + 1]);
        }
        lemma_rendered_is_matched(tail, rest);
        if pairs.len() == 1 {
            assert(rendered(tail) + rest =~= rest);
        } else {
            assert(behind =~= seq![' '] + (rendered(tail) + rest));
            lemma_space_in_front(rendered(tail) + rest);
        }
        assert(annotation_matches(text) == seq![seq![Some(key), Some(value)]]
            + annotation_matches(behind));
        assert(as_matches(pairs) =~= seq![seq![Some(key), Some(value)]] + as_matches(tail));
        assert(annotation_matches(text) =~= as_matches(pairs) + annotation_matches(rest));
    }
}

/// A space in front changes nothing.
proof fn lemma_space_in_front(text: Seq<char>)
    ensures
        annotation_matches(seq![' '] + text) == annotation_matches(text),
{
    let spaced = seq![' '] + text;
    assert(spaced[0] == ' ');
    assert(annotation_at(spaced) is None);
    assert(spaced.skip(1) =~= text);
}

// ---------------------------------------------------------------------------
// Laws
// ---------------------------------------------------------------------------
/// Each annotation that is read from a text stands in it: its key is made of word
/// characters, its value has no double quote, and the text has the one and the other
/// as an annotation.
pub proof fn law_annotations_stand_in_text(text: Seq<char>, key: Seq<char>)
    requires
        crate::parse::annotations_in(text).contains_key(key),
    ensures
        is_key(key),
        is_value(crate::parse::annotations_in(text)[key]),
        exists|from: int, to: int| #[trigger]
            stands_in(text, from, to, key, crate::parse::annotations_in(text)[key]),
{
    let found = annotation_matches(text);
    lemma_held_is_matched(found, key);
    let value = crate::parse::annotations_in(text)[key];
    let i = choose|i: int|
        0 <= i < found.len() && (#[trigger] found[i])[0] == Some(key) && found[i][1] == Some(value);
    lemma_matches_stand(text, i);
    let (from, to, k, v) = choose|from: int, to: int, k: Seq<char>, v: Seq<char>|
        found[i] == seq![Some(k), Some(v)] && #[trigger] stands_in(text, from, to, k, v);
    assert(found[i][0] == Some(k) && found[i][1] == Some(v));
    assert(stands_in(text, from, to, key, value));
}

/// No annotations are read from a text exactly if none stands in it.
pub proof fn law_no_annotations_iff_none_stands(text: Seq<char>)
    ensures
        crate::parse::annotations_in(text) == Map::<Seq<char>, Seq<char>>::empty()
            <==> forall|from: int, to: int, key: Seq<char>, value: Seq<char>|
            !stands_in(text, from, to, key, value),
{
    let read = crate::parse::annotations_in(text);
    let found = annotation_matches(text);
    if read == Map::<Seq<char>, Seq<char>>::empty() {
        assert forall|from: int, to: int, key: Seq<char>, value: Seq<char>|
            !stands_in(text, from, to, key, value) by {
            if stands_in(text, from, to, key, value) {
                lemma_standing_is_matched(text, from, to, key, value);
                let last = found.len() - 1;
                lemma_matches_stand(text, last);
                let (f, t, k, v) = choose|f: int, t: int, k: Seq<char>, v: Seq<char>|
                    found[last] == seq![Some(k), Some(v)] && #[trigger] stands_in(text, f, t, k, v);
                assert(found.last()[0] == Some(k) && found.last()[1] == Some(v));
                assert(read.contains_key(k));
            }
        }
    } else if forall|from: int, to: int, key: Seq<char>, value: Seq<char>|
        !stands_in(text, from, to, key, value) {
        assert forall|key: Seq<char>| !read.contains_key(key) by {
            if read.contains_key(key) {
                law_annotations_stand_in_text(text, key);
            }
        }
        assert(read =~= Map::<Seq<char>, Seq<char>>::empty());
    }
}

/// Reading undoes rendering: the keys that come out are those that went in, and for
/// each of them the value is that of the last pair with this key.
pub proof fn law_reading_undoes_rendering(pairs: Seq<(Seq<char>, Seq<char>)>)
    requires
        renderable(pairs),
    ensures
        forall|key: Seq<char>| #[trigger]
            crate::parse::annotations_in(rendered(pairs)).contains_key(key) <==> exists|i: int|
                0 <= i < pairs.len() && (#[trigger] pairs[i]).0 == key,
        forall|i: int|
            0 <= i < pairs.len() && (forall|j: int|
                i < j < pairs.len() ==> (#[trigger] pairs[j]).0 != pairs[i].0)
                ==> crate::parse::annotations_in(rendered(pairs))[(#[trigger] pairs[i]).0]
                == pairs[i].1,
{
    lemma_rendered_is_matched(pairs, Seq::empty());
    assert(rendered(pairs) + Seq::<char>::empty() =~= rendered(pairs));
    assert(annotation_matches(Seq::<char>::empty()) =~= Seq::empty());
    assert(annotation_matches(rendered(pairs)) =~= as_matches(pairs));
    lemma_last_pair_counts(pairs);
}

/// Of the matches that keys and values make, the last with a key counts.
proof fn lemma_last_pair_counts(pairs: Seq<(Seq<char>, Seq<char>)>)
    ensures
        forall|key: Seq<char>| #[trigger]
            crate::parse::annotations_of(as_matches(pairs)).contains_key(key) <==> exists|i: int|
                0 <= i < pairs.len() && (#[trigger] pairs[i]).0 == key,
        forall|i: int|
            0 <= i < pairs.len() && (forall|j: int|
                i < j < pairs.len() ==> (#[trigger] pairs[j]).0 != pairs[i].0)
                ==> crate::parse::annotations_of(as_matches(pairs))[(#[trigger] pairs[i]).0]
                == pairs[i].1,
    decreases pairs.len(),
{
    if pairs.len() > 0 {
        let front = pairs.drop_last();
        let last = pairs.last();
        assert(as_matches(pairs).drop_last() =~= as_matches(front));
        assert(as_matches(pairs).last() == seq![Some(last.0), Some(last.1)]);
        lemma_last_pair_counts(front);
        let held = crate::parse::annotations_of(as_matches(pairs));
        let before = crate::parse::annotations_of(as_matches(front));
        assert(held == before.insert(last.0, last.1));
        assert forall|key: Seq<char>| #[trigger] held.contains_key(key) <==> exists|i: int|
            0 <= i < pairs.len() && (#[trigger] pairs[i]).0 == key by {
            if held.contains_key(key) {
                if key == last.0 {
                    assert(pairs[pairs.len() - 1].0 == key);
                } else {
                    assert(before.contains_key(key));
                    let i = choose|i: int| 0 <= i < front.len() && (#[trigger] front[i]).0 == key;
                    assert(pairs[i].0 == key);
                }
            }
            if exists|i: int| 0 <= i < pairs.len() && (#[trigger] pairs[i]).0 == key {
                let i = choose|i: int| 0 <= i < pairs.len() && (#[trigger] pairs[i]).0 == key;
                if i < front.len() {
                    assert(front[i].0 == key);
                    assert(before.contains_key(key));
                }
            }
        }
        assert forall|i: int|
            0 <= i < pairs.len() && (forall|j: int|
                i < j < pairs.len() ==> (#[trigger] pairs[j]).0
                    != pairs[i].0) implies held[(#[trigger] pairs[i]).0] == pairs[i].1 by {
            if i < front.len() {
                assert(pairs[pairs.len() - 1].0 != pairs[i].0);
                assert(front[i] == pairs[i]);
                assert forall|j: int| i < j < front.len() implies (#[trigger] front[j]).0
                    != front[i].0 by {
                    assert(front[j] == pairs[j]);
                }
            }
        }
    }
}

/// The annotations of rendered pairs, a space and any text are those of the pairs
/// and of the text, the latter preferred.
pub proof fn law_joined_annotations(pairs: Seq<(Seq<char>, Seq<char>)>, rest: Seq<char>)
    requires
        renderable(pairs),
    ensures
        crate::parse::annotations_in(rendered(pairs) + seq![' '] + rest)
            == crate::parse::annotations_in(rendered(pairs)).union_prefer_right(
            crate::parse::annotations_in(rest),
        ),
{
    let spaced = seq![' '] + rest;
    assert(rendered(pairs) + seq![' '] + rest =~= rendered(pairs) + spaced);
    lemma_rendered_is_matched(pairs, spaced);
    lemma_space_in_front(rest);
    lemma_rendered_is_matched(pairs, Seq::empty());
    assert(rendered(pairs) + Seq::<char>::empty() =~= rendered(pairs));
    assert(annotation_matches(Seq::<char>::empty()) =~= Seq::empty());
    assert(annotation_matches(rendered(pairs)) =~= as_matches(pairs));
    lemma_joined_matches(as_matches(pairs), annotation_matches(rest));
}

/// An annotation at the front of a text is read, with all of its key and all of its
/// value, whatever white space stands around its equals sign; what is read behind it
/// is preferred.
pub proof fn law_annotation_in_front_is_read(
    key: Seq<char>,
    before: Seq<char>,
    after: Seq<char>,
    value: Seq<char>,
    rest: Seq<char>,
)
    requires
        key.len() > 0,
        forall|i: int| 0 <= i < key.len() ==> crate::pattern::word_character(#[trigger] key[i]),
        forall|i: int| 0 <= i < before.len() ==> crate::text::white_space(#[trigger] before[i]),
        forall|i: int| 0 <= i < after.len() ==> crate::text::white_space(#[trigger] after[i]),
        forall|i: int| 0 <= i < value.len() ==> #[trigger] value[i] != '"',
    ensures
        crate::parse::annotations_in(
            key + before + seq!['='] + after + seq!['"'] + value + seq!['"'] + rest,
        ) == Map::<Seq<char>, Seq<char>>::empty().insert(key, value).union_prefer_right(
            crate::parse::annotations_in(rest),
        ),
{
    lemma_written_is_read(key, before, after, value, rest);
    let first = written(key, before, after, value);
    let text = first + rest;
    assert(text =~= key + before + seq!['='] + after + seq!['"'] + value + seq!['"'] + rest);
    assert(text.skip(first.len() as int) =~= rest);
    let found = seq![seq![Some(key), Some(value)]];
    assert(annotation_matches(text) == found + annotation_matches(rest));
    lemma_joined_matches(found, annotation_matches(rest));
    assert(crate::parse::annotations_of(found.drop_last()) =~= Map::empty());
    assert(found.last()[0] == Some(key) && found.last()[1] == Some(value));
    assert(crate::parse::annotations_of(found) =~= Map::<Seq<char>, Seq<char>>::empty().insert(
        key,
        value,
    ));
}

/// A character with which no annotation begins adds nothing to what is read behind it,
/// and takes nothing from it; an empty text has no annotations.
pub proof fn law_other_characters_are_passed_over(c: char, rest: Seq<char>)
    requires
        forall|to: int, key: Seq<char>, value: Seq<char>|
            !stands_in(seq![c] + rest, 0, to, key, value),
    ensures
        crate::parse::annotations_in(seq![c] + rest) == crate::parse::annotations_in(rest),
        crate::parse::annotations_in(Seq::empty()) == Map::<Seq<char>, Seq<char>>::empty(),
{
    let text = seq![c] + rest;
    if annotation_at(text) is Some {
        let (key, value, length) = annotation_at(text)->Some_0;
        lemma_read_is_annotation(text);
        assert(text.subrange(0, length) =~= text.take(length));
        assert(stands_in(text, 0, length, key, value));
    }
    assert(text.skip(1) =~= rest);
    assert(annotation_matches(Seq::<char>::empty()).len() == 0);
}

/// What stands in a text as an annotation is a key of word characters, an equals sign
/// with white space or nothing on its sides, and a value without double quotes between
/// two of them; and all of that is an annotation.
pub proof fn law_what_an_annotation_is(
    text: Seq<char>,
    key: Seq<char>,
    value: Seq<char>,
    before: Seq<char>,
    after: Seq<char>,
)
    requires
        key.len() > 0,
        forall|i: int| 0 <= i < key.len() ==> crate::pattern::word_character(#[trigger] key[i]),
        forall|i: int| 0 <= i < before.len() ==> crate::text::white_space(#[trigger] before[i]),
        forall|i: int| 0 <= i < after.len() ==> crate::text::white_space(#[trigger] after[i]),
        forall|i: int| 0 <= i < value.len() ==> #[trigger] value[i] != '"',
        text == key + before + seq!['='] + after + seq!['"'] + value + seq!['"'],
    ensures
        is_annotation(text, key, value),
        stands_in(text, 0, text.len() as int, key, value),
{
    assert(text == written(key, before, after, value));
    assert(text.subrange(0, text.len() as int) =~= text);
}

/// Whatever is called an annotation is one: word characters, white space or none, an
/// equals sign, white space or none, and a value without double quotes between two of
/// them, and it stands where it is said to stand.
pub proof fn law_nothing_else_is_an_annotation(
    text: Seq<char>,
    from: int,
    to: int,
    key: Seq<char>,
    value: Seq<char>,
)
    requires
        stands_in(text, from, to, key, value),
    ensures
        0 <= from <= to <= text.len(),
        key.len() > 0,
        forall|i: int| 0 <= i < key.len() ==> crate::pattern::word_character(#[trigger] key[i]),
        forall|i: int| 0 <= i < value.len() ==> #[trigger] value[i] != '"',
        exists|before: Seq<char>, after: Seq<char>|
            {
                &&& text.subrange(from, to) == #[trigger] (key + before + seq!['='] + after)
                    + seq!['"'] + value + seq!['"']
                &&& forall|i: int|
                    0 <= i < before.len() ==> crate::text::white_space(#[trigger] before[i])
                &&& forall|i: int|
                    0 <= i < after.len() ==> crate::text::white_space(#[trigger] after[i])
            },
{
    let piece = text.subrange(from, to);
    let (before, after) = choose|before: Seq<char>, after: Seq<char>|
        blank(before) && blank(after) && piece == #[trigger] written(key, before, after, value);
    assert(piece == (key + before + seq!['='] + after) + seq!['"'] + value + seq!['"']);
}

} // verus!
