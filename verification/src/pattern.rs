//! Searching texts with regular expressions.
//!
//! The library searches for four patterns, which are written down here. The
//! searching itself is done by the `regex` crate and is taken on trust. What
//! it finds is named here, so that the functions that work on it can say
//! exactly what they make of it.

use vstd::prelude::*;

verus! {

/// The pattern of one option: a comma or semicolon, the name, an equals sign
/// and the value, in which a comma or semicolon has a backslash before it.
/// The first group is the name, the second the value.
pub const OPT_RE: &'static str = r"(?x)
        [,;]
        (?P<name>\w+)=
        (?P<value>
            (?:
                (?:
                    [^,;]*
                    [^,;\\]
                )?
                (?:\\{2})*
                \\[,;]
            )*
        [^,;]+)";

/// The pattern of a name with its options, at the start of a text. The first
/// group is the name, the second the options with the comma before them.
pub const NAME_RE: &'static str = r"^(?x)
        (?P<name>\w+)
        (?P<options>,
            (?:
                (?:[^;]*[^;\\])?
                (?:\\\\)*
                \\;
            )*
            [^;]+
        )?";

/// The pattern of a variable: a percent sign and then the name of the
/// variable, or `f` or `F` and a time format in braces. The first group is
/// all that follows the percent sign, the second is the `f` or `F` of a time
/// format and the third the format itself.
pub const PATH_RE: &'static str = r"(?x)
        % (
            # The underscore-able basic matches
            _?[eEtT] |
            # The other basic matches
            [dx%] |
            # A custom format string
            ([fF]) \{
                # The format string
                (
                    # Allow %} to print close brace
                    (?:
                        # Any number of non-close-brace characters (lazy)
                        [^\}]*?
                        # An optional (printed) close brace
                        (?:
                            # First, a non-'%' character
                            [^%]
                            # Any number of printed '%'s
                            (?:%{2})*
                            # Then '%}'
                            %\}
                        # Optionally
                        )?
                    # Repeat any number of times and there you go!
                    )*
                )
            \}
        )";

/// The pattern of a closing brace within a time format: a run of percent
/// signs of odd length and the brace. The first group is the run without its
/// last percent sign.
pub const BRACE_RE: &'static str = r"((?:%{2})*)%\}";

/// What a closing brace within a time format is replaced by: the first group
/// and the brace.
pub const BRACE_REPLACEMENT: &'static str = "${1}}";

/// Whether `pattern` is one of the patterns that the library searches for.
pub open spec fn known_pattern(pattern: Seq<char>) -> bool {
    pattern == OPT_RE@ || pattern == NAME_RE@ || pattern == PATH_RE@ || pattern == BRACE_RE@
}

/// What `regex` finds of `pattern` in `text`: for each match, from left to
/// right and without overlap, the text of each of its groups, the whole
/// match first; a group that took no part in the match is `None`. The result
/// is `None` where `regex` does not take `pattern` for a pattern.
pub uninterp spec fn regex_captures(pattern: Seq<char>, text: Seq<char>) -> Option<
    Seq<Seq<Option<Seq<char>>>>,
>;

/// What `regex` leaves of `text` between the matches of `pattern`: the parts
/// before, between and behind the matches, from left to right. The result is
/// `None` where `regex` does not take `pattern` for a pattern.
pub uninterp spec fn regex_split(pattern: Seq<char>, text: Seq<char>) -> Option<Seq<Seq<char>>>;

/// What `regex` makes of `text` when it puts `replacement` in the place of
/// every match of `pattern`. The result is `None` where `regex` does not
/// take `pattern` for a pattern.
pub uninterp spec fn regex_replace_all(
    pattern: Seq<char>,
    text: Seq<char>,
    replacement: Seq<char>,
) -> Option<Seq<char>>;

/// Calls `regex::Regex::new` on `pattern` and `regex::Regex::captures_iter`
/// on `text`, and copies out the text of every group of every match. The
/// contract claims only that, for the patterns of the library, the outcome
/// depends on nothing but the pattern and the text: it is what
/// `regex_captures` names.
#[verifier::external_body]
pub(crate) fn captures_iter(pattern: &str, text: &str) -> (found: Option<Vec<Vec<Option<String>>>>)
    requires
        known_pattern(pattern@),
    ensures
        found.deep_view() == regex_captures(pattern@, text@),
{
    let re = regex::Regex::new(pattern).ok()?;
    Some(
        re.captures_iter(text).map(
            |caps| caps.iter().map(|group| group.map(|m| m.as_str().to_owned())).collect(),
        ).collect(),
    )
}

/// Calls `regex::Regex::new` on `pattern` and `regex::Regex::split` on
/// `text`, and copies out the parts. The contract claims only that, for the
/// patterns of the library, the outcome depends on nothing but the pattern
/// and the text: it is what `regex_split` names.
#[verifier::external_body]
pub(crate) fn split(pattern: &str, text: &str) -> (parts: Option<Vec<String>>)
    requires
        known_pattern(pattern@),
    ensures
        parts.deep_view() == regex_split(pattern@, text@),
{
    let re = regex::Regex::new(pattern).ok()?;
    Some(re.split(text).map(|part| part.to_owned()).collect())
}

/// Calls `regex::Regex::new` on `pattern` and `regex::Regex::replace_all`
/// on `text` with the replacement text `replacement`, in which `${1}` and
/// the like stand for groups of the match. The contract claims only that,
/// for the patterns of the library, the outcome depends on nothing but the
/// pattern and the two texts: it is what `regex_replace_all` names.
#[verifier::external_body]
pub(crate) fn replace_all(pattern: &str, text: &str, replacement: &str) -> (replaced: Option<
    String,
>)
    requires
        known_pattern(pattern@),
    ensures
        replaced.deep_view() == regex_replace_all(pattern@, text@, replacement@),
{
    let re = regex::Regex::new(pattern).ok()?;
    Some(re.replace_all(text, replacement).into_owned())
}

} // verus!
