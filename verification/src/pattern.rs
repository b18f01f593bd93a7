//! The patterns of the service description, and the searches made with them.

use regex::Regex;
use vstd::prelude::*;

verus! {

/// A comment, which runs up to the end of its line, or a quoted literal, in which no
/// comment begins.
pub const COMMENT_PATTERN: &'static str = r#"(?m)(?P<literal>"[^"]*"|'[^'\n]*')|//.*$"#;

/// What is put in the place of a comment or of a literal: the literal.
pub const COMMENT_REPLACEMENT: &'static str = "${literal}";

/// The declaration of the namespace that services belong to.
pub const NAMESPACE_PATTERN: &'static str = r"namespace\s+\w+\s+(?P<namespace>[\w.]+)";

/// A service and what stands between its braces.
pub const SERVICE_PATTERN: &'static str =
    r"service\s+(?P<service_name>\w+)\s*\{(?P<service_body>[^}]*)\}";

/// A method, with its annotations where it has any.
pub const METHOD_PATTERN: &'static str =
    r"(?P<return_type>\w+)\s+(?P<method_name>\w+)\s*\([^)]*\)\s*(?:\(\s*(?P<annotations>[^)]*)\s*\))?";

/// An annotation: a key and a quoted value.
pub const ANNOTATION_PATTERN: &'static str = r#"(?P<key>\w+)\s*=\s*"(?P<value>[^"]*)""#;

/// What one match gave for each of the groups that were asked for.
pub type Groups = Seq<Option<Seq<char>>>;

/// The contents of an optional string.
pub open spec fn text_of(held: Option<String>) -> Option<Seq<char>> {
    match held {
        Some(text) => Some(text@),
        None => None,
    }
}

/// The contents of what one match gave.
pub open spec fn groups_of(captured: Seq<Option<String>>) -> Groups {
    Seq::new(captured.len(), |j: int| text_of(captured[j]))
}

/// The contents of what each of several matches gave.
pub open spec fn matches_of(found: Seq<Vec<Option<String>>>) -> Seq<Groups> {
    Seq::new(found.len(), |i: int| groups_of(found[i]@))
}

/// The contents of each of a sequence of string slices.
pub open spec fn names_of(names: Seq<&str>) -> Seq<Seq<char>> {
    Seq::new(names.len(), |i: int| names[i]@)
}

/// The class `\w`, beyond ASCII and white space: whether a match of a pattern takes
/// such a character for part of a word.
pub uninterp spec fn regex_word(c: char) -> bool;

/// The characters that the class `\w` of a pattern has: the letters and digits of
/// ASCII, the underscore, and letters, digits and the like beyond ASCII.
pub open spec fn word_character(c: char) -> bool {
    ||| 'a' <= c <= 'z'
    ||| 'A' <= c <= 'Z'
    ||| '0' <= c <= '9'
    ||| c == '_'
    ||| c > '\u{7f}' && !crate::text::white_space(c) && regex_word(c)
}

/// Groups that no match of the pattern can do without: they stand under no
/// operator that lets them be left out.
pub open spec fn indispensable(pattern: Seq<char>, group: Seq<char>) -> bool {
    ||| pattern == SERVICE_PATTERN@ && (group == "service_name"@ || group == "service_body"@)
    ||| pattern == METHOD_PATTERN@ && (group == "return_type"@ || group == "method_name"@)
}

/// What `Regex::captures_iter` finds in a text: for each match of the pattern,
/// in order, what each of the named groups captured.
pub uninterp spec fn regex_captures_iter(
    pattern: Seq<char>,
    groups: Seq<Seq<char>>,
    text: Seq<char>,
) -> Seq<Seq<Option<Seq<char>>>>;

/// What `Regex::captures` finds in a text: for the first match of the pattern,
/// what each of the named groups captured.
pub uninterp spec fn regex_captures(
    pattern: Seq<char>,
    groups: Seq<Seq<char>>,
    text: Seq<char>,
) -> Option<Seq<Option<Seq<char>>>>;

/// Calls `regex::Regex::captures_iter`, on a pattern that `Regex::new` accepts,
/// and hands out the text of each named group of each match.
///
/// Taken on trust: what is found is a function of the pattern, of the names and
/// of the text alone; each match gives one item for each name; and a group that
/// the pattern does not make optional has captured a text in every match. With the
/// pattern of annotations the matches are the annotations of the text, one by one,
/// each sought from where the one before it ends; keys are made of what the class
/// `\w` has, which holds no white space and of ASCII the letters, the digits and the
/// underscore.
#[verifier::external_body]
pub(crate) fn captures_iter(pattern: &str, groups: &Vec<&str>, text: &str) -> (found: Vec<
    Vec<Option<String>>,
>)
    requires
        pattern@ == SERVICE_PATTERN@ || pattern@ == METHOD_PATTERN@ || pattern@
            == ANNOTATION_PATTERN@,
    ensures
        matches_of(found@) == regex_captures_iter(pattern@, names_of(groups@), text@),
        forall|i: int| 0 <= i < found@.len() ==> (#[trigger] found@[i])@.len() == groups@.len(),
        forall|i: int, j: int|
            0 <= i < found@.len() && 0 <= j < groups@.len() && indispensable(
                pattern@,
                groups@[j]@,
            ) ==> (#[trigger] found@[i]@[j]) is Some,
        pattern@ == ANNOTATION_PATTERN@ && names_of(groups@) == seq!["key"@, "value"@] ==> {
            &&& matches_of(found@) == crate::annotations::annotation_matches(text@)
            &&& forall|i: int, j: int|
                0 <= i < found@.len() && 0 <= j < found@[i]@[0]->Some_0@.len()
                    && found@[i]@[0]->Some_0@[j] > '\u{7f}' ==> regex_word(
                    #[trigger] found@[i]@[0]->Some_0@[j],
                )
        },
{
    Regex::new(pattern)
        .unwrap()
        .captures_iter(text)
        .map(|captures| {
            groups
                .iter()
                .map(|group| captures.name(group).map(|found| found.as_str().to_string()))
                .collect()
        })
        .collect()
}

/// Calls `regex::Regex::captures`, on a pattern that `Regex::new` accepts, and
/// hands out the text of each named group of the first match.
///
/// Taken on trust: what is found is a function of the pattern, of the names and
/// of the text alone, and a match gives one item for each name.
#[verifier::external_body]
pub(crate) fn captures(pattern: &str, groups: &Vec<&str>, text: &str) -> (found: Option<
    Vec<Option<String>>,
>)
    requires
        pattern@ == NAMESPACE_PATTERN@,
    ensures
        match found {
            Some(captured) => captured@.len() == groups@.len() && regex_captures(
                pattern@,
                names_of(groups@),
                text@,
            ) == Some(groups_of(captured@)),
            None => regex_captures(pattern@, names_of(groups@), text@) is None,
        },
{
    Regex::new(pattern).unwrap().captures(text).map(
        |captures| {
            groups
                .iter()
                .map(|group| captures.name(group).map(|found| found.as_str().to_string()))
                .collect()
        })
}

/// Calls `regex::Regex::replace_all`, on a pattern that `Regex::new` accepts.
///
/// Taken on trust: the text is gone through from its beginning; with the comment
/// pattern, a literal is put back as it is, since its group has captured it, and a
/// comment is cut out, since that group has captured nothing. A comment takes with
/// it all that follows in its line, but for the line feed: `.` matches no line
/// feed, and `$`, with the multi-line mode on, matches in front of a line feed and
/// at the end of the text.
#[verifier::external_body]
pub(crate) fn replace_all(pattern: &str, text: &str, replacement: &str) -> (replaced: String)
    requires
        pattern@ == COMMENT_PATTERN@,
        replacement@ == COMMENT_REPLACEMENT@,
    ensures
        replaced@ == crate::comments::without_comments(text@),
{
    Regex::new(pattern).unwrap().replace_all(text, replacement).into_owned()
}

/// The contents of matches are those of each group of each of them, in order.
pub proof fn law_matches_keep_everything(found: Seq<Vec<Option<String>>>)
    ensures
        matches_of(found).len() == found.len(),
        forall|i: int| 0 <= i < found.len() ==> (#[trigger] matches_of(found)[i]).len()
            == found[i]@.len(),
        forall|i: int, j: int|
            0 <= i < found.len() && 0 <= j < found[i]@.len() ==> (#[trigger] matches_of(
                found,
            )[i][j]) == match found[i]@[j] {
                Some(text) => Some(text@),
                None => None::<Seq<char>>,
            },
{
}

/// The contents of one match are those of each of its groups, in order.
pub proof fn law_groups_keep_everything(captured: Seq<Option<String>>)
    ensures
        groups_of(captured).len() == captured.len(),
        forall|j: int|
            0 <= j < captured.len() ==> (#[trigger] groups_of(captured)[j]) == match captured[j] {
                Some(text) => Some(text@),
                None => None::<Seq<char>>,
            },
{
}

/// The contents of names are those of each of them, in order.
pub proof fn law_names_keep_everything(names: Seq<&str>)
    ensures
        names_of(names).len() == names.len(),
        forall|i: int| 0 <= i < names.len() ==> #[trigger] names_of(names)[i] == names[i]@,
{
}

/// Of ASCII, words are made of letters, digits and the underscore; white space is
/// never part of a word; and what else is one is for the class `\w` to say.
pub proof fn law_word_characters(c: char)
    ensures
        c as u32 <= 127 ==> (word_character(c) <==> ({
            let point = c as u32;
            ||| 48 <= point <= 57
            ||| 65 <= point <= 90
            ||| point == 95
            ||| 97 <= point <= 122
        })),
        crate::text::white_space(c) ==> !word_character(c),
        c as u32 > 127 && !crate::text::white_space(c) ==> (word_character(c) <==> regex_word(c)),
{
}

/// The contents of a string that may be missing are those of the string.
pub proof fn law_text_keeps_everything(text: String)
    ensures
        text_of(Some(text)) == Some(text@),
        text_of(None) is None,
{
}

/// What is sought in a service description, to the character: a name, a body or a list
/// of whatever length is one, and white space stands wherever a pattern lets it stand.
pub proof fn law_patterns_to_the_character()
    ensures
        NAMESPACE_PATTERN@ == r"namespace\s+\w+\s+(?P<namespace>[\w.]+)"@,
        SERVICE_PATTERN@ == r"service\s+(?P<service_name>\w+)\s*\{(?P<service_body>[^}]*)\}"@,
        METHOD_PATTERN@
            == r"(?P<return_type>\w+)\s+(?P<method_name>\w+)\s*\([^)]*\)\s*(?:\(\s*(?P<annotations>[^)]*)\s*\))?"@,
        ANNOTATION_PATTERN@ == r#"(?P<key>\w+)\s*=\s*"(?P<value>[^"]*)""#@,
        COMMENT_PATTERN@ == r#"(?m)(?P<literal>"[^"]*"|'[^'\n]*')|//.*$"#@,
        COMMENT_REPLACEMENT@ == "${literal}"@,
{
}

} // verus!
