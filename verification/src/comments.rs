//! What stays of a service description when its comments are left out.

use vstd::prelude::*;

verus! {

/// A text begins with a comment: with two slashes.
pub open spec fn comment_begins(text: Seq<char>) -> bool {
    &&& text.len() >= 2
    &&& text[0] == '/'
    &&& text[1] == '/'
}

/// How many characters stand before the first line feed.
pub open spec fn line_length(text: Seq<char>) -> nat {
    crate::text::run_length(text, crate::text::Class::Not('\n'))
}

/// A character that literals stand between.
pub open spec fn quote(c: char) -> bool {
    c == '"' || c == '\''
}

/// The length of the literal that a text begins with, and 0 if there is none.
///
/// A literal stands between two double quotes, or between two single quotes of one
/// line. A quote that nothing closes begins no literal.
pub open spec fn literal_length(text: Seq<char>) -> nat {
    if text.len() == 0 || !quote(text[0]) {
        0
    } else {
        let inside = text.skip(1);
        let length = crate::text::run_length(inside, crate::text::Class::Not(text[0]));
        if length < inside.len() && (text[0] == '"' || length < line_length(inside)) {
            length + 2
        } else {
            0
        }
    }
}

/// The length of the literal or of the comment that a text begins with, and 1 if
/// it begins with neither.
pub open spec fn piece_length(text: Seq<char>) -> nat {
    if literal_length(text) > 0 {
        literal_length(text)
    } else if comment_begins(text) {
        line_length(text)
    } else {
        1
    }
}

/// A piece is not empty and is part of the text.
pub proof fn lemma_piece_length(text: Seq<char>)
    requires
        text.len() > 0,
    ensures
        0 < piece_length(text) <= text.len(),
{
    crate::text::lemma_run_length(text.skip(1), crate::text::Class::Not(text[0]));
    crate::text::lemma_run_length(text, crate::text::Class::Not('\n'));
}

/// A text without its comments: each `//` that does not stand in a literal is left
/// out with all that follows it in its line, but for the line feed.
pub open spec fn without_comments(text: Seq<char>) -> Seq<char>
    decreases text.len(),
{
    if text.len() == 0 {
        Seq::empty()
    } else {
        proof {
            lemma_piece_length(text);
        }
        let length = piece_length(text) as int;
        (if comment_begins(text) {
            Seq::empty()
        } else {
            text.take(length)
        }) + without_comments(text.skip(length))
    }
}

/// A text has no comment: every `//` in it stands in a literal.
pub open spec fn comment_free(text: Seq<char>) -> bool
    decreases text.len(),
{
    if text.len() == 0 {
        true
    } else {
        proof {
            lemma_piece_length(text);
        }
        !comment_begins(text) && comment_free(text.skip(piece_length(text) as int))
    }
}

/// A text begins with a quote that nothing in the text closes, but that what
/// follows the text may close.
pub open spec fn literal_left_open(text: Seq<char>) -> bool {
    &&& text.len() > 0
    &&& quote(text[0])
    &&& literal_length(text) == 0
    &&& text[0] == '\'' ==> line_length(text.skip(1)) == text.skip(1).len()
}

/// No literal of a text between such quotes is left open.
pub open spec fn literals_closed(text: Seq<char>, mark: char) -> bool
    decreases text.len(),
{
    if text.len() == 0 {
        true
    } else {
        proof {
            lemma_piece_length(text);
        }
        &&& !(text[0] == mark && literal_left_open(text))
        &&& literals_closed(text.skip(piece_length(text) as int), mark)
    }
}

/// The character does not occur in the text.
pub open spec fn lacks(text: Seq<char>, c: char) -> bool {
    forall|i: int| 0 <= i < text.len() ==> #[trigger] text[i] != c
}

// ---------------------------------------------------------------------------
// Lemmas
// ---------------------------------------------------------------------------
/// The character does not occur in the first line of the text.
spec fn first_line_lacks(text: Seq<char>, c: char) -> bool {
    forall|i: int| 0 <= i < line_length(text) ==> #[trigger] text[i] != c
}

/// What follows a text changes nothing about the literal that it begins with, unless
/// it closes one that was left open.
proof fn lemma_literal_joined(text: Seq<char>, more: Seq<char>)
    requires
        text.len() > 0,
        literal_left_open(text) ==> if text[0] == '"' {
            lacks(more, '"')
        } else {
            first_line_lacks(more, '\'')
        },
    ensures
        literal_length(text + more) == literal_length(text),
{
    let joined = text + more;
    assert(joined[0] == text[0]);
    if quote(text[0]) {
        let inside = text.skip(1);
        assert(joined.skip(1) =~= inside + more);
        let closing = crate::text::Class::Not(text[0]);
        let feed = crate::text::Class::Not('\n');
        crate::text::lemma_run_length_joined(inside, more, closing);
        crate::text::lemma_run_length_joined(inside, more, feed);
        crate::text::lemma_run_length(inside, closing);
        crate::text::lemma_run_length(inside, feed);
        crate::text::lemma_run_length(more, closing);
        crate::text::lemma_run_length(more, feed);
        let behind = crate::text::run_length(more, closing) as int;
        if literal_length(text) == 0 && crate::text::run_length(inside, closing) == inside.len()
            && behind < more.len() {
            assert(more[behind] == text[0]);
            if text[0] == '"' {
                assert(literal_left_open(text));
                assert(false);
            } else if line_length(inside) == inside.len() {
                assert(literal_left_open(text));
                if behind < line_length(more) {
                    assert(false);
                }
            }
        }
    }
}

/// A literal is one whatever follows it.
proof fn lemma_literal_alone(text: Seq<char>, more: Seq<char>)
    requires
        literal_length(text) > 0,
    ensures
        literal_length(text.take(literal_length(text) as int) + more) == literal_length(text),
{
    let length = literal_length(text) as int;
    let inside = text.skip(1);
    let closing = crate::text::Class::Not(text[0]);
    crate::text::lemma_run_length(inside, closing);
    crate::text::lemma_run_length(inside, crate::text::Class::Not('\n'));
    let other = text.take(length) + more;
    assert(other[0] == text[0]);
    let within = other.skip(1);
    assert forall|i: int| 0 <= i < length - 1 implies #[trigger] within[i] == inside[i] by {
        assert(within[i] == other[i + 1]);
    }
    crate::text::lemma_run_length_is(within, closing, length - 2);
    if text[0] == '\'' {
        crate::text::lemma_run_length(within, crate::text::Class::Not('\n'));
        if line_length(within) <= length - 2 {
            assert(within[line_length(within) as int] == '\n');
            assert(inside[line_length(within) as int] != '\n');
        }
    }
}

/// What stays of a text begins as the text does, unless the text begins with a
/// comment: what stays is then empty or begins with the line feed behind it.
proof fn lemma_first_kept(text: Seq<char>)
    ensures
        without_comments(text).len() > 0 ==> ({
            let first = without_comments(text)[0];
            if comment_begins(text) {
                first == '\n'
            } else {
                text.len() > 0 && first == text[0]
            }
        }),
{
    if text.len() > 0 {
        lemma_piece_length(text);
        if comment_begins(text) {
            crate::text::lemma_run_length(text, crate::text::Class::Not('\n'));
            let rest = text.skip(piece_length(text) as int);
            assert(without_comments(text) =~= without_comments(rest));
            if rest.len() > 0 {
                assert(rest[0] == '\n');
                lemma_piece_length(rest);
                assert(without_comments(rest)[0] == rest.take(piece_length(rest) as int)[0]);
            }
        } else {
            assert(without_comments(text)[0] == text.take(piece_length(text) as int)[0]);
        }
    }
}

/// What a text lacks, what stays of it lacks.
proof fn lemma_kept_lacks(text: Seq<char>, c: char)
    requires
        lacks(text, c),
    ensures
        lacks(without_comments(text), c),
    decreases text.len(),
{
    if text.len() > 0 {
        lemma_piece_length(text);
        let length = piece_length(text) as int;
        let rest = text.skip(length);
        assert forall|i: int| 0 <= i < rest.len() implies #[trigger] rest[i] != c by {
            assert(rest[i] == text[i + length]);
        }
        lemma_kept_lacks(rest, c);
        let kept = without_comments(text);
        assert forall|i: int| 0 <= i < kept.len() implies #[trigger] kept[i] != c by {
            let front = if comment_begins(text) {
                Seq::empty()
            } else {
                text.take(length)
            };
            if i < front.len() {
                assert(kept[i] == text[i]);
            } else {
                assert(kept[i] == without_comments(rest)[i - front.len()]);
            }
        }
    } else {
        assert(without_comments(text).len() == 0);
    }
}

/// What the first line of a text lacks, the first line of what stays lacks.
proof fn lemma_kept_line_lacks(text: Seq<char>, c: char)
    requires
        first_line_lacks(text, c),
    ensures
        first_line_lacks(without_comments(text), c),
    decreases text.len(),
{
    if text.len() > 0 {
        lemma_piece_length(text);
        let feed = crate::text::Class::Not('\n');
        let length = piece_length(text) as int;
        let front = text.take(length);
        let rest = text.skip(length);
        assert(front + rest =~= text);
        crate::text::lemma_run_length(text, feed);
        crate::text::lemma_run_length_joined(front, rest, feed);
        let kept = without_comments(text);
        if comment_begins(text) {
            lemma_first_kept(text);
            crate::text::lemma_run_length(kept, feed);
            if kept.len() > 0 && line_length(kept) > 0 {
                assert(kept[0] == '\n');
            }
        } else {
            let behind = without_comments(rest);
            assert(kept == front + behind);
            crate::text::lemma_run_length_joined(front, behind, feed);
            crate::text::lemma_run_length(front, feed);
            crate::text::lemma_run_length(behind, feed);
            if line_length(front) == length {
                assert forall|i: int| 0 <= i < line_length(rest) implies #[trigger] rest[i]
                    != c by {
                    assert(rest[i] == text[i + length]);
                }
                lemma_kept_line_lacks(rest, c);
            }
            assert forall|i: int| 0 <= i < line_length(kept) implies #[trigger] kept[i] != c by {
                if i < length {
                    assert(kept[i] == text[i]);
                } else {
                    assert(kept[i] == behind[i - length]);
                }
            }
        }
    } else {
        assert(without_comments(text).len() == 0);
    }
}

// ---------------------------------------------------------------------------
// Laws
// ---------------------------------------------------------------------------
/// No comment stays.
pub proof fn law_no_comment_stays(text: Seq<char>)
    ensures
        comment_free(without_comments(text)),
    decreases text.len(),
{
    if text.len() == 0 {
        assert(without_comments(text).len() == 0);
    } else {
        lemma_piece_length(text);
        let length = piece_length(text) as int;
        let rest = text.skip(length);
        let behind = without_comments(rest);
        law_no_comment_stays(rest);
        let kept = without_comments(text);
        if comment_begins(text) {
            assert(kept =~= behind);
        } else {
            assert(kept == text.take(length) + behind);
            assert(kept[0] == text[0]);
            if literal_length(text) > 0 {
                lemma_literal_alone(text, behind);
            } else {
                assert(kept.skip(1) =~= behind);
                assert(text.skip(1) == rest);
                lemma_first_kept(rest);
                if comment_begins(kept) {
                    assert(kept[1] == behind[0]);
                    assert(rest[0] == text[1]);
                }
                if quote(text[0]) {
                    let closing = crate::text::Class::Not(text[0]);
                    let feed = crate::text::Class::Not('\n');
                    crate::text::lemma_run_length(rest, closing);
                    crate::text::lemma_run_length(rest, feed);
                    crate::text::lemma_run_length(behind, closing);
                    crate::text::lemma_run_length(behind, feed);
                    let found = crate::text::run_length(behind, closing) as int;
                    if text[0] == '"' {
                        assert(lacks(rest, '"'));
                        lemma_kept_lacks(rest, '"');
                    } else {
                        assert(first_line_lacks(rest, '\''));
                        lemma_kept_line_lacks(rest, '\'');
                    }
                    if found < behind.len() {
                        assert(behind[found] == text[0]);
                    }
                    assert(literal_length(kept) == 0);
                }
            }
            assert(piece_length(kept) == length);
            assert(kept.skip(length) =~= behind);
        }
    }
}

/// A text that has no comment stays as it is.
pub proof fn law_text_without_comments_stays(text: Seq<char>)
    requires
        comment_free(text),
    ensures
        without_comments(text) == text,
    decreases text.len(),
{
    if text.len() > 0 {
        lemma_piece_length(text);
        let length = piece_length(text) as int;
        law_text_without_comments_stays(text.skip(length));
        assert(text.take(length) + text.skip(length) =~= text);
    }
    assert(without_comments(text) =~= text);
}

/// Without two slashes there is no comment.
pub proof fn law_no_slashes_no_comment(text: Seq<char>)
    requires
        forall|i: int| 0 <= i < text.len() - 1 ==> !(#[trigger] text[i] == '/' && text[i + 1] == '/'),
    ensures
        comment_free(text),
    decreases text.len(),
{
    if text.len() > 0 {
        lemma_piece_length(text);
        let length = piece_length(text) as int;
        let rest = text.skip(length);
        assert forall|i: int| 0 <= i < rest.len() - 1 implies !(#[trigger] rest[i] == '/'
            && rest[i + 1] == '/') by {
            assert(rest[i] == text[i + length] && rest[i + 1] == text[i + length + 1]);
        }
        law_no_slashes_no_comment(rest);
        assert(comment_begins(text) ==> text[0] == '/' && text[0int + 1] == '/');
    }
}

/// Comments end with their lines: each part of a text that ends with a line loses
/// its own comments and nothing else. Left out is a part whose last literal is
/// closed only in what follows.
pub proof fn law_lines_lose_their_own_comments(lines: Seq<char>, rest: Seq<char>)
    requires
        literals_closed(lines, '"') || lacks(rest, '"'),
    ensures
        without_comments(lines + seq!['\n'] + rest) == without_comments(lines) + seq!['\n']
            + without_comments(rest),
    decreases lines.len(),
{
    let more = seq!['\n'] + rest;
    let text = lines + seq!['\n'] + rest;
    assert(text =~= lines + more);
    if lines.len() == 0 {
        assert(text[0] == '\n');
        assert(text.skip(1) =~= rest);
        assert(text.take(1) =~= seq!['\n']);
        assert(without_comments(lines).len() == 0);
        assert(without_comments(text) =~= without_comments(lines) + seq!['\n'] + without_comments(
            rest,
        ));
    } else {
        lemma_piece_length(lines);
        let length = piece_length(lines) as int;
        assert(text[0] == lines[0]);
        assert(text[1] == if lines.len() > 1 {
            lines[1]
        } else {
            '\n'
        });
        assert(comment_begins(text) <==> comment_begins(lines));
        let feed = crate::text::Class::Not('\n');
        crate::text::lemma_run_length_is(more, feed, 0);
        assert(first_line_lacks(more, '\''));
        if literal_left_open(lines) && lines[0] == '"' {
            assert forall|i: int| 0 <= i < more.len() implies #[trigger] more[i] != '"' by {
                if i > 0 {
                    assert(more[i] == rest[i - 1]);
                }
            }
        }
        lemma_literal_joined(lines, more);
        crate::text::lemma_run_length_joined(lines, more, feed);
        crate::text::lemma_run_length(lines, feed);
        assert(piece_length(text) == length);
        assert(text.take(length) =~= lines.take(length));
        assert(text.skip(length) =~= lines.skip(length) + seq!['\n'] + rest);
        law_lines_lose_their_own_comments(lines.skip(length), rest);
        assert(without_comments(text) =~= without_comments(lines) + seq!['\n']
            + without_comments(rest));
    }
}

/// Of a line with a comment there stays what stands in front of it, whatever the
/// comment says. Left out is a front whose last literal is closed only in what the
/// comment says.
pub proof fn law_comment_is_cut_off(front: Seq<char>, remark: Seq<char>)
    requires
        comment_free(front.push('/')),
        literals_closed(front, '"') || lacks(remark, '"'),
        literals_closed(front, '\'') || lacks(remark, '\''),
        lacks(remark, '\n'),
    ensures
        without_comments(front + seq!['/', '/'] + remark) == front,
    decreases front.len(),
{
    let more = seq!['/', '/'] + remark;
    let text = front + seq!['/', '/'] + remark;
    assert(text =~= front + more);
    let feed = crate::text::Class::Not('\n');
    if front.len() == 0 {
        assert(comment_begins(text));
        assert forall|i: int| 0 <= i < text.len() implies crate::text::class_has(
            feed,
            #[trigger] text[i],
        ) by {
            if i >= 2 {
                assert(text[i] == remark[i - 2]);
            }
        }
        crate::text::lemma_run_length_is(text, feed, text.len() as int);
        assert(text.skip(text.len() as int).len() == 0);
        assert(without_comments(text.skip(text.len() as int)).len() == 0);
        assert(without_comments(text) =~= front);
    } else {
        let slashed = front.push('/');
        assert(slashed =~= front + seq!['/']);
        assert(text[0] == slashed[0] && text[1] == slashed[1]);
        assert(text[0] == front[0]);
        assert(front.len() > 1 ==> front[1] == slashed[1]);
        assert(!comment_begins(text) && !comment_begins(front));
        if literal_left_open(front) {
            assert forall|i: int| 0 <= i < more.len() implies #[trigger] more[i] != front[0] by {
                if i >= 2 {
                    assert(more[i] == remark[i - 2]);
                }
            }
            crate::text::lemma_run_length(more, feed);
            crate::text::lemma_run_length(seq!['/'], feed);
        }
        lemma_literal_joined(front, more);
        lemma_literal_joined(front, seq!['/']);
        lemma_piece_length(front);
        let length = piece_length(front) as int;
        let rest = front.skip(length);
        assert(piece_length(text) == length && piece_length(slashed) == length);
        assert(slashed.skip(length) =~= rest.push('/'));
        assert(text.skip(length) =~= rest + seq!['/', '/'] + remark);
        assert(text.take(length) =~= front.take(length));
        law_comment_is_cut_off(rest, remark);
        assert(front.take(length) + rest =~= front);
    }
}

/// A literal stays, whatever it says, where no comment stands in front of it and no
/// literal there is left open.
pub proof fn law_literal_stays(front: Seq<char>, literal: Seq<char>, rest: Seq<char>)
    requires
        comment_free(front),
        literals_closed(front, '"'),
        literals_closed(front, '\''),
        literal.len() > 0,
        literal_length(literal) == literal.len(),
    ensures
        without_comments(front + literal + rest) == front + literal + without_comments(rest),
    decreases front.len(),
{
    let text = front + literal + rest;
    if front.len() == 0 {
        assert(text =~= literal + rest);
        assert(literal.take(literal.len() as int) =~= literal);
        lemma_literal_alone(literal, rest);
        assert(text[0] == literal[0]);
        assert(text.take(literal.len() as int) =~= literal);
        assert(text.skip(literal.len() as int) =~= rest);
        assert(without_comments(text) =~= front + literal + without_comments(rest));
    } else {
        let more = literal + rest;
        assert(text =~= front + more);
        assert(text[0] == front[0]);
        assert(text[1] == if front.len() > 1 {
            front[1]
        } else {
            literal[0]
        });
        assert(!comment_begins(text));
        lemma_literal_joined(front, more);
        lemma_piece_length(front);
        let length = piece_length(front) as int;
        assert(piece_length(text) == length);
        assert(text.skip(length) =~= front.skip(length) + literal + rest);
        assert(text.take(length) =~= front.take(length));
        law_literal_stays(front.skip(length), literal, rest);
        assert(without_comments(text) =~= front + literal + without_comments(rest));
    }
}

/// A text with neither quotes nor two slashes in a row.
pub open spec fn plain(text: Seq<char>) -> bool {
    &&& lacks(text, '"')
    &&& lacks(text, '\'')
    &&& forall|i: int|
        0 <= i < text.len() - 1 ==> !(#[trigger] text[i] == '/' && text[i + 1] == '/')
}

/// A plain text stays as it is, unless its last slash and the next character begin a
/// comment.
proof fn lemma_plain_front_stays(front: Seq<char>, back: Seq<char>)
    requires
        plain(front),
        front.len() > 0 && back.len() > 0 ==> front.last() != '/' || back[0] != '/',
    ensures
        without_comments(front + back) == front + without_comments(back),
    decreases front.len(),
{
    let text = front + back;
    if front.len() == 0 {
        assert(text =~= back);
        assert(without_comments(text) =~= front + without_comments(back));
    } else {
        let rest = front.skip(1);
        assert(text[0] == front[0]);
        assert(front[0] != '"' && front[0] != '\'');
        if comment_begins(text) {
            if front.len() > 1 {
                assert(text[1] == front[0int + 1]);
                assert(front[0] == '/' && front[0int + 1] == '/');
            } else {
                assert(text[1] == back[0]);
            }
        }
        assert(piece_length(text) == 1);
        assert(text.take(1) =~= seq![front[0]]);
        assert(text.skip(1) =~= rest + back);
        assert forall|i: int| 0 <= i < rest.len() implies #[trigger] rest[i] != '"' by {
            assert(rest[i] == front[i + 1]);
        }
        assert forall|i: int| 0 <= i < rest.len() implies #[trigger] rest[i] != '\'' by {
            assert(rest[i] == front[i + 1]);
        }
        assert forall|i: int| 0 <= i < rest.len() - 1 implies !(#[trigger] rest[i] == '/'
            && rest[i + 1] == '/') by {
            assert(rest[i] == front[i + 1] && rest[i + 1] == front[i + 2]);
        }
        lemma_plain_front_stays(rest, back);
        assert(without_comments(text) =~= front + without_comments(back));
    }
}

/// A text stays as it is, all of it, if no two slashes stand in a row in it.
pub proof fn law_text_without_slashes_stays(text: Seq<char>)
    requires
        forall|i: int|
            0 <= i < text.len() - 1 ==> !(#[trigger] text[i] == '/' && text[i + 1] == '/'),
    ensures
        without_comments(text) == text,
{
    law_no_slashes_no_comment(text);
    law_text_without_comments_stays(text);
}

/// Two slashes behind a plain text go, with all that follows them in their line, and
/// nothing else goes: what stands in front stays, so does the line feed, and the lines
/// behind it are gone through on their own.
pub proof fn law_comment_goes_with_its_line(front: Seq<char>, remark: Seq<char>, rest: Seq<char>)
    requires
        plain(front),
        front.len() > 0 ==> front.last() != '/',
        lacks(remark, '\n'),
    ensures
        without_comments(front + seq!['/', '/'] + remark) == front,
        without_comments(front + seq!['/', '/'] + remark + seq!['\n'] + rest) == front + seq!['\n']
            + without_comments(rest),
{
    let feed = crate::text::Class::Not('\n');
    let comment = seq!['/', '/'] + remark;
    let lines = seq!['\n'] + rest;
    assert forall|i: int| 0 <= i < comment.len() implies crate::text::class_has(
        feed,
        #[trigger] comment[i],
    ) by {
        if i >= 2 {
            assert(comment[i] == remark[i - 2]);
        }
    }
    crate::text::lemma_run_length_is(comment, feed, comment.len() as int);
    assert(comment_begins(comment));
    assert(comment.skip(comment.len() as int).len() == 0);
    assert(without_comments(comment.skip(comment.len() as int)).len() == 0);
    assert(without_comments(comment).len() == 0);
    lemma_plain_front_stays(front, comment);
    assert(front + comment =~= front + seq!['/', '/'] + remark);
    assert(front + without_comments(comment) =~= front);

    let more = comment + lines;
    crate::text::lemma_run_length_is(lines, feed, 0);
    crate::text::lemma_run_length_joined(comment, lines, feed);
    assert(comment_begins(more));
    assert(more.skip(comment.len() as int) =~= lines);
    assert(lines[0] == '\n');
    assert(lines.take(1) =~= seq!['\n']);
    assert(lines.skip(1) =~= rest);
    assert(without_comments(lines) =~= seq!['\n'] + without_comments(rest));
    assert(without_comments(more) =~= without_comments(lines));
    lemma_plain_front_stays(front, more);
    assert(front + more =~= front + seq!['/', '/'] + remark + seq!['\n'] + rest);
    assert(front + without_comments(more) =~= front + seq!['\n'] + without_comments(rest));
}

/// What stands between two double quotes behind a plain text stays, whatever it is,
/// slashes and line feeds included, and what follows is gone through on its own.
pub proof fn law_double_quoted_stays(front: Seq<char>, value: Seq<char>, rest: Seq<char>)
    requires
        plain(front),
        lacks(value, '"'),
    ensures
        without_comments(front + seq!['"'] + value + seq!['"'] + rest) == front + seq!['"'] + value
            + seq!['"'] + without_comments(rest),
{
    let literal = seq!['"'] + value + seq!['"'];
    let back = literal + rest;
    let inside = back.skip(1);
    assert forall|i: int| 0 <= i < value.len() implies #[trigger] inside[i] == value[i] by {}
    assert(inside[value.len() as int] == '"');
    crate::text::lemma_run_length_is(
        inside,
        crate::text::Class::Not('"'),
        value.len() as int,
    );
    assert(back[0] == '"');
    assert(literal_length(back) == literal.len());
    assert(back.take(literal.len() as int) =~= literal);
    assert(back.skip(literal.len() as int) =~= rest);
    lemma_plain_front_stays(front, back);
    assert(front + back =~= front + seq!['"'] + value + seq!['"'] + rest);
    assert(front + (literal + without_comments(rest)) =~= front + seq!['"'] + value + seq!['"']
        + without_comments(rest));
}

/// What stands between two single quotes of one line behind a plain text stays,
/// whatever it is, and what follows is gone through on its own.
pub proof fn law_single_quoted_stays(front: Seq<char>, value: Seq<char>, rest: Seq<char>)
    requires
        plain(front),
        lacks(value, '\''),
        lacks(value, '\n'),
    ensures
        without_comments(front + seq!['\''] + value + seq!['\''] + rest) == front + seq!['\'']
            + value + seq!['\''] + without_comments(rest),
{
    let literal = seq!['\''] + value + seq!['\''];
    let back = literal + rest;
    let inside = back.skip(1);
    let feed = crate::text::Class::Not('\n');
    assert forall|i: int| 0 <= i < value.len() implies #[trigger] inside[i] == value[i] by {}
    assert(inside[value.len() as int] == '\'');
    crate::text::lemma_run_length_is(
        inside,
        crate::text::Class::Not('\''),
        value.len() as int,
    );
    crate::text::lemma_run_length(inside, feed);
    if line_length(inside) <= value.len() {
        assert(inside[line_length(inside) as int] == '\n');
    }
    assert(back[0] == '\'');
    assert(literal_length(back) == literal.len());
    assert(back.take(literal.len() as int) =~= literal);
    assert(back.skip(literal.len() as int) =~= rest);
    lemma_plain_front_stays(front, back);
    assert(front + back =~= front + seq!['\''] + value + seq!['\''] + rest);
    assert(front + (literal + without_comments(rest)) =~= front + seq!['\''] + value + seq!['\'']
        + without_comments(rest));
}

/// A double quote that no other follows is a character like any other.
pub proof fn law_unclosed_double_quote_is_nothing_special(front: Seq<char>, rest: Seq<char>)
    requires
        plain(front),
        lacks(rest, '"'),
    ensures
        without_comments(front + seq!['"'] + rest) == front + seq!['"'] + without_comments(rest),
{
    let back = seq!['"'] + rest;
    assert(back.skip(1) =~= rest);
    crate::text::lemma_run_length_is(
        rest,
        crate::text::Class::Not('"'),
        rest.len() as int,
    );
    assert(back.take(1) =~= seq!['"']);
    assert(piece_length(back) == 1);
    lemma_plain_front_stays(front, back);
    assert(front + back =~= front + seq!['"'] + rest);
    assert(front + (seq!['"'] + without_comments(rest)) =~= front + seq!['"'] + without_comments(
        rest,
    ));
}

/// A single quote that no other follows in its line is a character like any other.
pub proof fn law_unclosed_single_quote_is_nothing_special(
    front: Seq<char>,
    line: Seq<char>,
    rest: Seq<char>,
)
    requires
        plain(front),
        lacks(line, '\''),
        lacks(line, '\n'),
        rest.len() > 0 ==> rest[0] == '\n',
    ensures
        without_comments(front + seq!['\''] + line + rest) == front + seq!['\'']
            + without_comments(line + rest),
{
    let inside = line + rest;
    let back = seq!['\''] + inside;
    let closing = crate::text::Class::Not('\'');
    let feed = crate::text::Class::Not('\n');
    assert(back.skip(1) =~= inside);
    assert forall|i: int| 0 <= i < line.len() implies #[trigger] inside[i] == line[i] by {}
    crate::text::lemma_run_length_is(inside, feed, line.len() as int);
    crate::text::lemma_run_length(inside, closing);
    let found = crate::text::run_length(inside, closing) as int;
    if found < line.len() {
        assert(inside[found] == '\'');
    }
    assert(back.take(1) =~= seq!['\'']);
    assert(back[0] == '\'');
    assert(literal_length(back) == 0);
    assert(piece_length(back) == 1);
    lemma_plain_front_stays(front, back);
    assert(front + back =~= front + seq!['\''] + line + rest);
    assert(front + (seq!['\''] + without_comments(inside)) =~= front + seq!['\'']
        + without_comments(inside));
}

/// What lacking a character means, and being plain: nothing but which characters stand
/// in the text counts, not how many there are.
pub proof fn law_what_plain_means(text: Seq<char>, c: char)
    ensures
        lacks(text, c) <==> !text.contains(c),
        plain(text) <==> ({
            &&& !text.contains('"')
            &&& !text.contains('\'')
            &&& forall|i: int|
                0 <= i < text.len() - 1 ==> !(#[trigger] text[i] == '/' && text[i + 1] == '/')
        }),
{
    assert forall|d: char| #[trigger] lacks(text, d) <==> !text.contains(d) by {
        if lacks(text, d) && text.contains(d) {
            let i = choose|i: int| 0 <= i < text.len() && text[i] == d;
            assert(text[i] != d);
        }
        if !text.contains(d) {
            assert forall|i: int| 0 <= i < text.len() implies #[trigger] text[i] != d by {
                assert(text[i] == d ==> text.contains(d));
            }
        }
    }
    assert(lacks(text, '"') <==> !text.contains('"'));
    assert(lacks(text, '\'') <==> !text.contains('\''));
}

} // verus!
