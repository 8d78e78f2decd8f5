//! The line that the report prints for one record.

use crate::file_info::{FileInfo, FileInfoView};
use crate::timestamp::{iso8601, renderable, text_of, timestamp_text};
use vstd::prelude::*;
use vstd::string::StringExecFns;

verus! {

/// The character of the digit `d`.
pub open spec fn digit(d: nat) -> char {
    ('0' as nat + d) as char
}

/// `n` in decimal, without sign, padding or separators.
pub open spec fn decimal_text(n: nat) -> Seq<char>
    decreases n,
{
    if n < 10 {
        seq![digit(n)]
    } else {
        decimal_text(n / 10).push(digit(n % 10))
    }
}

/// The line for a file, given the texts of its two instants.
pub open spec fn line_text(
    name: Seq<char>,
    size: nat,
    created: Seq<char>,
    modified: Seq<char>,
) -> Seq<char> {
    "name "@ + name + ", size "@ + decimal_text(size) + ", created "@ + created + ", modified "@
        + modified
}

/// The line for a record; `None` where one of its instants has no text.
pub open spec fn report_text(file: FileInfoView) -> Option<Seq<char>> {
    match (timestamp_text(file.created), timestamp_text(file.modified)) {
        (Some(created), Some(modified)) => Some(
            line_text(file.name, file.size, created, modified),
        ),
        _ => None,
    }
}

/// The digit `d` as text.
fn digit_str(d: u64) -> (text: &'static str)
    requires
        d < 10,
    ensures
        text@ == seq![digit(d as nat)],
{
    proof {
        reveal_strlit("0");
        reveal_strlit("1");
        reveal_strlit("2");
        reveal_strlit("3");
        reveal_strlit("4");
        reveal_strlit("5");
        reveal_strlit("6");
        reveal_strlit("7");
        reveal_strlit("8");
        reveal_strlit("9");
    }
    let text: &'static str = match d {
        0 => "0",
        1 => "1",
        2 => "2",
        3 => "3",
        4 => "4",
        5 => "5",
        6 => "6",
        7 => "7",
        8 => "8",
        _ => "9",
    };
    text
}

/// `n` in decimal.
pub fn decimal(n: u64) -> (text: String)
    ensures
        text@ == decimal_text(n as nat),
    decreases n,
{
    if n < 10 {
        String::from_str(digit_str(n))
    } else {
        let mut text = decimal(n / 10);
        text.append(digit_str(n % 10));
        text
    }
}

/// The line for the file `name` of `size` bytes, given the texts of the
/// instants of its creation and of its last modification.
pub fn format_line(name: &str, size: u64, created: &str, modified: &str) -> (line: String)
    ensures
        line@ == line_text(name@, size as nat, created@, modified@),
{
    let mut line = String::from_str("name ");
    line.append(name);
    line.append(", size ");
    line.append(decimal(size).as_str());
    line.append(", created ");
    line.append(created);
    line.append(", modified ");
    line.append(modified);
    line
}

/// The line that the report prints for `file`: its path, its size and its
/// two instants as ISO 8601 text. `None` where an instant cannot be
/// rendered, which does not happen within about 31 000 years of the epoch.
pub fn report_line(file: &FileInfo) -> (line: Option<String>)
    ensures
        text_of(line) == report_text(file@),
        renderable(file@.created) && renderable(file@.modified) ==> line is Some,
{
    let created = match iso8601(&file.created()) {
        Some(text) => text,
        None => { return None; },
    };
    let modified = match iso8601(&file.modified()) {
        Some(text) => text,
        None => { return None; },
    };
    Some(format_line(file.name().as_str(), file.size(), created.as_str(), modified.as_str()))
}

} // verus!
