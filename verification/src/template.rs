//! File names with variables in them.
//!
//! A file name may hold variables that stand for the working directory, the
//! time and the like: `%d/spinnrd.%t.log`. `parse_path` takes such a name
//! apart into the texts that stay as they are and the variables between
//! them. To put a value in the place of each variable is left to the
//! caller, who knows the time. The name is searched with regular
//! expressions; what is made of the matches is stated over `regex_captures`,
//! `regex_split` and `regex_replace_all`.

use vstd::prelude::*;
use crate::pattern::{
    captures_iter,
    regex_captures,
    regex_replace_all,
    regex_split,
    replace_all,
    split,
    BRACE_RE,
    BRACE_REPLACEMENT,
    PATH_RE,
};
use crate::text::same_text;

verus! {

/// What a variable stands for.
#[derive(Debug, PartialEq, Eq, Structural, Clone, Copy)]
pub enum Variable {
    /// `%e`: the time in seconds since the epoch.
    EpochSeconds,
    /// `%_e`: the time in milliseconds since the epoch.
    EpochMillis,
    /// `%E`: the time since the epoch in seconds, a point, and the
    /// nanoseconds beyond them.
    EpochSecondsNanos,
    /// `%_E`: the time since the epoch in seconds, a point, and the
    /// milliseconds beyond them.
    EpochSecondsMillis,
    /// `%d`: the working directory.
    WorkingDir,
    /// `%t`: the local date and time to the second.
    LocalTime,
    /// `%_t`: the local date and time to the nanosecond.
    LocalTimeNanos,
    /// `%T`: the date and time to the second, in universal time.
    UtcTime,
    /// `%_T`: the date and time to the nanosecond, in universal time.
    UtcTimeNanos,
    /// `%x`: the directory for files of a running session.
    RuntimeDir,
}

/// A part of a file name.
#[derive(Debug)]
pub enum Piece {
    /// A text that stays as it is.
    Text(String),
    /// A variable.
    Value(Variable),
    /// The local date and time in this format.
    LocalFormat(String),
    /// The date and time in this format, in universal time.
    UtcFormat(String),
}

/// A part of a file name, as plain values.
pub enum PieceView {
    Text(Seq<char>),
    Value(Variable),
    LocalFormat(Seq<char>),
    UtcFormat(Seq<char>),
}

impl View for Piece {
    type V = PieceView;

    open spec fn view(&self) -> PieceView {
        match self {
            Piece::Text(text) => PieceView::Text(text@),
            Piece::Value(variable) => PieceView::Value(*variable),
            Piece::LocalFormat(format) => PieceView::LocalFormat(format@),
            Piece::UtcFormat(format) => PieceView::UtcFormat(format@),
        }
    }
}

impl DeepView for Piece {
    type V = PieceView;

    open spec fn deep_view(&self) -> PieceView {
        self@
    }
}

/// The variable called `name`, if there is one.
pub open spec fn variable_named(name: Seq<char>) -> Option<Variable> {
    if name == "e"@ {
        Some(Variable::EpochSeconds)
    } else if name == "_e"@ {
        Some(Variable::EpochMillis)
    } else if name == "E"@ {
        Some(Variable::EpochSecondsNanos)
    } else if name == "_E"@ {
        Some(Variable::EpochSecondsMillis)
    } else if name == "d"@ {
        Some(Variable::WorkingDir)
    } else if name == "t"@ {
        Some(Variable::LocalTime)
    } else if name == "_t"@ {
        Some(Variable::LocalTimeNanos)
    } else if name == "T"@ {
        Some(Variable::UtcTime)
    } else if name == "_T"@ {
        Some(Variable::UtcTimeNanos)
    } else if name == "x"@ {
        Some(Variable::RuntimeDir)
    } else {
        None
    }
}

/// The time format `format` with each closing brace freed of the percent
/// sign before it.
pub open spec fn unbraced(format: Seq<char>) -> Seq<char> {
    match regex_replace_all(BRACE_RE@, format, BRACE_REPLACEMENT@) {
        Some(replaced) => replaced,
        None => format,
    }
}

/// The part that a match of the variable pattern stands for.
///
/// - A variable stands for itself; but within the name of a directory, the
///   working directory stays the text `%d`.
/// - `f` or `F` with a format stands for the time in that format.
/// - Anything else stays as it is written, percent sign and all.
pub open spec fn piece_of(groups: Seq<Option<Seq<char>>>, isdir: bool) -> PieceView {
    if groups.len() > 1 && groups[1] is Some {
        let name = groups[1]->0;
        if isdir && name == "d"@ {
            PieceView::Text("%d"@)
        } else if variable_named(name) is Some {
            PieceView::Value(variable_named(name)->0)
        } else if groups.len() > 3 && groups[2] is Some && groups[2]->0.len() > 0 && groups[3]
            is Some {
            if groups[2]->0 == "f"@ {
                PieceView::LocalFormat(unbraced(groups[3]->0))
            } else if groups[2]->0 == "F"@ {
                PieceView::UtcFormat(unbraced(groups[3]->0))
            } else {
                PieceView::Text(Seq::empty())
            }
        } else {
            PieceView::Text("%"@ + name)
        }
    } else {
        PieceView::Text(Seq::empty())
    }
}

/// The first `upto` parts and matches, in turn: a part, the piece of the
/// match behind it, the next part, and so on.
pub open spec fn woven(
    parts: Seq<Seq<char>>,
    matches: Seq<Seq<Option<Seq<char>>>>,
    isdir: bool,
    upto: nat,
) -> Seq<PieceView>
    decreases upto,
{
    if upto == 0 {
        Seq::empty()
    } else {
        let i = (upto - 1) as int;
        let before = woven(parts, matches, isdir, i as nat);
        let with_part = if i < parts.len() {
            before.push(PieceView::Text(parts[i]))
        } else {
            before
        };
        if i < matches.len() {
            with_part.push(piece_of(matches[i], isdir))
        } else {
            with_part
        }
    }
}

/// The pieces of the file name `input`: what stands between the variables,
/// and the variables, in turn. Where the variable pattern is not taken, the
/// name is one text.
pub open spec fn pieces_of(input: Seq<char>, isdir: bool) -> Seq<PieceView> {
    match (regex_split(PATH_RE@, input), regex_captures(PATH_RE@, input)) {
        (Some(parts), Some(matches)) => woven(
            parts,
            matches,
            isdir,
            if parts.len() >= matches.len() {
                parts.len()
            } else {
                matches.len()
            },
        ),
        _ => seq![PieceView::Text(input)],
    }
}

/// Returns the variable called `name`, if there is one.
pub fn variable(name: &str) -> (v: Option<Variable>)
    ensures
        v == variable_named(name@),
{
    if same_text(name, "e") {
        Some(Variable::EpochSeconds)
    } else if same_text(name, "_e") {
        Some(Variable::EpochMillis)
    } else if same_text(name, "E") {
        Some(Variable::EpochSecondsNanos)
    } else if same_text(name, "_E") {
        Some(Variable::EpochSecondsMillis)
    } else if same_text(name, "d") {
        Some(Variable::WorkingDir)
    } else if same_text(name, "t") {
        Some(Variable::LocalTime)
    } else if same_text(name, "_t") {
        Some(Variable::LocalTimeNanos)
    } else if same_text(name, "T") {
        Some(Variable::UtcTime)
    } else if same_text(name, "_T") {
        Some(Variable::UtcTimeNanos)
    } else if same_text(name, "x") {
        Some(Variable::RuntimeDir)
    } else {
        None
    }
}

/// Frees each closing brace in a time format of the percent sign before it.
pub fn unbrace(format: &str) -> (r: String)
    ensures
        r@ == unbraced(format@),
{
    match replace_all(BRACE_RE, format, BRACE_REPLACEMENT) {
        Some(replaced) => replaced,
        None => format.to_owned(),
    }
}

/// Returns the part that a match of the variable pattern stands for.
pub fn piece(groups: &Vec<Option<String>>, isdir: bool) -> (r: Piece)
    ensures
        r@ == piece_of(groups.deep_view(), isdir),
{
    if groups.len() <= 1 {
        return Piece::Text(String::new());
    }
    let name = match &groups[1] {
        Some(name) => name.as_str(),
        None => {
            return Piece::Text(String::new());
        },
    };
    if isdir && same_text(name, "d") {
        return Piece::Text("%d".to_owned());
    }
    match variable(name) {
        Some(v) => {
            return Piece::Value(v);
        },
        None => {},
    }
    if groups.len() > 3 {
        match (&groups[2], &groups[3]) {
            (Some(kind), Some(format)) => {
                if kind.as_str().unicode_len() > 0 {
                    return if same_text(kind.as_str(), "f") {
                        Piece::LocalFormat(unbrace(format.as_str()))
                    } else if same_text(kind.as_str(), "F") {
                        Piece::UtcFormat(unbrace(format.as_str()))
                    } else {
                        Piece::Text(String::new())
                    };
                }
            },
            _ => {},
        }
    }
    let mut text = "%".to_owned();
    text.append(name);
    Piece::Text(text)
}

/// Puts parts and matches in turn: see `woven`.
pub fn weave(parts: Vec<String>, matches: &Vec<Vec<Option<String>>>, isdir: bool) -> (pieces: Vec<
    Piece,
>)
    ensures
        pieces.deep_view() == woven(
            parts.deep_view(),
            matches.deep_view(),
            isdir,
            if parts@.len() >= matches@.len() {
                parts@.len()
            } else {
                matches@.len()
            },
        ),
{
    let count: usize = if parts.len() >= matches.len() {
        parts.len()
    } else {
        matches.len()
    };
    let mut pieces: Vec<Piece> = Vec::new();
    let mut at: usize = 0;
    assert(pieces.deep_view() =~= woven(parts.deep_view(), matches.deep_view(), isdir, 0));
    while at < count
        invariant
            at <= count,
            count >= parts@.len(),
            count >= matches@.len(),
            pieces.deep_view() == woven(
                parts.deep_view(),
                matches.deep_view(),
                isdir,
                at as nat,
            ),
        decreases count - at,
    {
        let ghost before = pieces.deep_view();
        if at < parts.len() {
            pieces.push(Piece::Text(parts[at].clone()));
            assert(pieces.deep_view() =~= before.push(
                PieceView::Text(parts.deep_view()[at as int]),
            ));
        }
        let ghost with_part = pieces.deep_view();
        if at < matches.len() {
            let part = piece(&matches[at], isdir);
            pieces.push(part);
            assert(pieces.deep_view() =~= with_part.push(
                piece_of(matches.deep_view()[at as int], isdir),
            ));
        }
        at = at + 1;
    }
    pieces
}

/// Takes a file name apart into the texts that stay as they are and the
/// variables between them.
///
/// `isdir` says that the name is that of the working directory itself, in
/// which the working directory cannot stand for anything.
pub fn parse_path(input: &str, isdir: bool) -> (pieces: Vec<Piece>)
    ensures
        pieces.deep_view() == pieces_of(input@, isdir),
{
    match (split(PATH_RE, input), captures_iter(PATH_RE, input)) {
        (Some(parts), Some(matches)) => weave(parts, &matches, isdir),
        _ => {
            let mut pieces: Vec<Piece> = Vec::new();
            pieces.push(Piece::Text(input.to_owned()));
            assert(pieces.deep_view() =~= seq![PieceView::Text(input@)]);
            pieces
        },
    }
}

} // verus!
