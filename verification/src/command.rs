//! The operator's command lines.
//!
//! A line is read as bytes.  White space at both ends does not count.  What
//! is left is a keyword or its one-character alias, for some commands
//! followed by one space and an argument that runs to the end of the line.

use vstd::prelude::*;
use vstd::slice::{slice_subrange, slice_to_vec};
use vstd::string::StringSliceAdditionalSpecFns;
use crate::error::ConsoleError;

verus! {

/// An operation on the registry, fully resolved.
#[derive(Debug, PartialEq, Eq)]
pub enum Command {
    /// List every connection with its position.
    ListConnections,
    /// Probe every connection and report who is alive; remove nothing.
    ProbeAll,
    /// Probe every connection and remove the dead.
    EvictDead,
    /// Select the connection that stands at this position now.
    SelectByIndex(usize),
    /// Write these bytes to the selected connection only.
    SendToSelected(Vec<u8>),
    /// Show the selected address.
    ShowSelected,
    /// Write these bytes to every connection.
    Broadcast(Vec<u8>),
}

/// A command with its payload as a sequence of bytes.
pub enum CommandView {
    ListConnections,
    ProbeAll,
    EvictDead,
    SelectByIndex(usize),
    SendToSelected(Seq<u8>),
    ShowSelected,
    Broadcast(Seq<u8>),
}

impl View for Command {
    type V = CommandView;

    open spec fn view(&self) -> CommandView {
        match self {
            Command::ListConnections => CommandView::ListConnections,
            Command::ProbeAll => CommandView::ProbeAll,
            Command::EvictDead => CommandView::EvictDead,
            Command::SelectByIndex(index) => CommandView::SelectByIndex(*index),
            Command::SendToSelected(bytes) => CommandView::SendToSelected(bytes@),
            Command::ShowSelected => CommandView::ShowSelected,
            Command::Broadcast(bytes) => CommandView::Broadcast(bytes@),
        }
    }
}

/// What one line of the console asks for.
#[derive(Debug, PartialEq, Eq)]
pub enum ConsoleLine {
    /// An operation on the registry.
    Run(Command),
    /// Clear the display.  The registry is not touched.
    ClearLogs,
    /// Print the summary of the commands.
    Help,
    /// Nothing that the console knows.
    Unknown,
}

/// A console line with its payload as a sequence of bytes.
pub enum LineView {
    Run(CommandView),
    ClearLogs,
    Help,
    Unknown,
}

impl View for ConsoleLine {
    type V = LineView;

    open spec fn view(&self) -> LineView {
        match self {
            ConsoleLine::Run(command) => LineView::Run(command@),
            ConsoleLine::ClearLogs => LineView::ClearLogs,
            ConsoleLine::Help => LineView::Help,
            ConsoleLine::Unknown => LineView::Unknown,
        }
    }
}

/// The bytes of a one-byte white-space character: space, tab, line feed,
/// vertical tab, form feed, carriage return.
pub open spec fn is_narrow_space(a: u8) -> bool {
    a == 0x20 || 0x09 <= a <= 0x0d
}

/// The two-byte encodings of white-space characters: U+0085 and U+00A0.
pub open spec fn is_medium_space(a: u8, b: u8) -> bool {
    a == 0xc2 && (b == 0x85 || b == 0xa0)
}

/// The three-byte encodings of white-space characters: U+1680, U+2000 to
/// U+200A, U+2028, U+2029, U+202F, U+205F and U+3000.
pub open spec fn is_wide_space(a: u8, b: u8, c: u8) -> bool {
    ||| a == 0xe1 && b == 0x9a && c == 0x80
    ||| a == 0xe2 && b == 0x80 && (0x80 <= c <= 0x8a || c == 0xa8 || c == 0xa9 || c == 0xaf)
    ||| a == 0xe2 && b == 0x81 && c == 0x9f
    ||| a == 0xe3 && b == 0x80 && c == 0x80
}

/// The length of the white-space character whose encoding opens `s`, and 0
/// if none does.
pub open spec fn space_at_front(s: Seq<u8>) -> nat {
    if s.len() >= 1 && is_narrow_space(s[0]) {
        1
    } else if s.len() >= 2 && is_medium_space(s[0], s[1]) {
        2
    } else if s.len() >= 3 && is_wide_space(s[0], s[1], s[2]) {
        3
    } else {
        0
    }
}

/// The length of the white-space character whose encoding closes `s`, and 0
/// if none does.
pub open spec fn space_at_back(s: Seq<u8>) -> nat {
    let n = s.len() as int;
    if n >= 1 && is_narrow_space(s[n - 1]) {
        1
    } else if n >= 2 && is_medium_space(s[n - 2], s[n - 1]) {
        2
    } else if n >= 3 && is_wide_space(s[n - 3], s[n - 2], s[n - 1]) {
        3
    } else {
        0
    }
}

/// `s` without the white space that opens it.
pub open spec fn trim_front(s: Seq<u8>) -> Seq<u8>
    decreases s.len(),
{
    let k = space_at_front(s);
    if k == 0 {
        s
    } else {
        trim_front(s.skip(k as int))
    }
}

/// `s` without the white space that closes it.
pub open spec fn trim_back(s: Seq<u8>) -> Seq<u8>
    decreases s.len(),
{
    let k = space_at_back(s);
    if k == 0 {
        s
    } else {
        trim_back(s.take(s.len() - k))
    }
}

/// `s` without the white space at either end.  On UTF-8 text this removes
/// the characters that Unicode calls white space, and no others.
pub open spec fn trimmed(s: Seq<u8>) -> Seq<u8> {
    trim_back(trim_front(s))
}

/// A decimal digit in ASCII.
pub open spec fn is_digit(b: u8) -> bool {
    48 <= b <= 57
}

/// Every byte of `s` is a decimal digit.
pub open spec fn all_digits(s: Seq<u8>) -> bool {
    forall|i: int| 0 <= i < s.len() ==> is_digit(#[trigger] s[i])
}

/// The number that the digits of `s` write in base ten.
pub open spec fn decimal(s: Seq<u8>) -> nat
    decreases s.len(),
{
    if s.len() == 0 {
        0
    } else {
        decimal(s.drop_last()) * 10 + if is_digit(s.last()) {
            (s.last() - 48) as nat
        } else {
            0
        }
    }
}

/// The digits of a position: `text` itself, or what follows one leading `+`.
pub open spec fn digits_of(text: Seq<u8>) -> Seq<u8> {
    if text.len() > 0 && text[0] == 43 {
        text.skip(1)
    } else {
        text
    }
}

/// The position that `text` writes: one or more decimal digits, with or
/// without one `+` before them, whose number fits the machine's word.
pub open spec fn index_of(text: Seq<u8>) -> Option<usize> {
    let digits = digits_of(text);
    if digits.len() > 0 && all_digits(digits) && decimal(digits) <= usize::MAX {
        Some(decimal(digits) as usize)
    } else {
        None
    }
}

/// The bytes of a keyword.
pub open spec fn text(word: &str) -> Seq<u8> {
    word.spec_bytes()
}

/// `s` begins with `prefix`.
pub open spec fn opens_with(s: Seq<u8>, prefix: Seq<u8>) -> bool {
    prefix.len() <= s.len() && s.take(prefix.len() as int) == prefix
}

/// The line is the keyword or its alias, and nothing more.
pub open spec fn names(line: Seq<u8>, keyword: &str, alias: &str) -> bool {
    line == text(keyword) || line == text(alias)
}

/// What follows the keyword or its alias on the line, if the line begins
/// with one of them.  Both are written with the space that ends them.
pub open spec fn argument_of(line: Seq<u8>, keyword: &str, alias: &str) -> Option<Seq<u8>> {
    if opens_with(line, text(keyword)) {
        Some(line.skip(text(keyword).len() as int))
    } else if opens_with(line, text(alias)) {
        Some(line.skip(text(alias).len() as int))
    } else {
        None
    }
}

/// What a line asks for.  A position that is no number is the one thing
/// that is rejected; a line that names no command is `Unknown`.
pub open spec fn parse(line: Seq<u8>) -> Result<LineView, ConsoleError> {
    let t = trimmed(line);
    if names(t, "print_socket", "0") {
        Ok(LineView::Run(CommandView::ListConnections))
    } else if names(t, "check_clients", "1") {
        Ok(LineView::Run(CommandView::ProbeAll))
    } else if names(t, "remove_inactive_clients", "2") {
        Ok(LineView::Run(CommandView::EvictDead))
    } else if names(t, "clear_logs", "3") {
        Ok(LineView::ClearLogs)
    } else if let Some(message) = argument_of(t, "broadcast_message ", "4 ") {
        Ok(LineView::Run(CommandView::Broadcast(message)))
    } else if let Some(position) = argument_of(t, "set_current_client ", "5 ") {
        match index_of(position) {
            Some(index) => Ok(LineView::Run(CommandView::SelectByIndex(index))),
            None => Err(ConsoleError::ParseFailure),
        }
    } else if let Some(message) = argument_of(t, "send_command ", "6 ") {
        Ok(LineView::Run(CommandView::SendToSelected(message)))
    } else if names(t, "print_current_index", "7") {
        Ok(LineView::Run(CommandView::ShowSelected))
    } else if names(t, "help", "h") {
        Ok(LineView::Help)
    } else {
        Ok(LineView::Unknown)
    }
}

/// The view of what `parse_line` returns.
pub open spec fn parsed_view(parsed: Result<ConsoleLine, ConsoleError>) -> Result<
    LineView,
    ConsoleError,
> {
    match parsed {
        Ok(line) => Ok(line@),
        Err(error) => Err(error),
    }
}

fn narrow_space(a: u8) -> (r: bool)
    ensures
        r == is_narrow_space(a),
{
    a == 0x20 || (0x09 <= a && a <= 0x0d)
}

fn medium_space(a: u8, b: u8) -> (r: bool)
    ensures
        r == is_medium_space(a, b),
{
    a == 0xc2 && (b == 0x85 || b == 0xa0)
}

fn wide_space(a: u8, b: u8, c: u8) -> (r: bool)
    ensures
        r == is_wide_space(a, b, c),
{
    (a == 0xe1 && b == 0x9a && c == 0x80) || (a == 0xe2 && b == 0x80 && ((0x80 <= c && c <= 0x8a)
        || c == 0xa8 || c == 0xa9 || c == 0xaf)) || (a == 0xe2 && b == 0x81 && c == 0x9f) || (a
        == 0xe3 && b == 0x80 && c == 0x80)
}

fn front_space_len(s: &[u8]) -> (k: usize)
    ensures
        k == space_at_front(s@),
        k <= s@.len(),
{
    let n = s.len();
    if n >= 1 && narrow_space(s[0]) {
        1
    } else if n >= 2 && medium_space(s[0], s[1]) {
        2
    } else if n >= 3 && wide_space(s[0], s[1], s[2]) {
        3
    } else {
        0
    }
}

fn back_space_len(s: &[u8]) -> (k: usize)
    ensures
        k == space_at_back(s@),
        k <= s@.len(),
{
    let n = s.len();
    if n >= 1 && narrow_space(s[n - 1]) {
        1
    } else if n >= 2 && medium_space(s[n - 2], s[n - 1]) {
        2
    } else if n >= 3 && wide_space(s[n - 3], s[n - 2], s[n - 1]) {
        3
    } else {
        0
    }
}

/// The line without the white space at either end.
pub fn trim(line: &[u8]) -> (inner: &[u8])
    ensures
        inner@ == trimmed(line@),
{
    let mut rest = line;
    let mut k = front_space_len(rest);
    while k > 0
        invariant
            k == space_at_front(rest@),
            k <= rest@.len(),
            trim_front(rest@) == trim_front(line@),
        decreases rest@.len(),
    {
        rest = slice_subrange(rest, k, rest.len());
        k = front_space_len(rest);
    }
    let ghost opened = rest@;
    k = back_space_len(rest);
    while k > 0
        invariant
            k == space_at_back(rest@),
            k <= rest@.len(),
            trim_back(rest@) == trim_back(opened),
        decreases rest@.len(),
    {
        rest = slice_subrange(rest, 0, rest.len() - k);
        k = back_space_len(rest);
    }
    rest
}

/// A longer run of digits writes no smaller number than the digits that
/// open it.
pub proof fn lemma_decimal_grows(s: Seq<u8>, n: int)
    requires
        0 <= n <= s.len(),
    ensures
        decimal(s.take(n)) <= decimal(s),
    decreases s.len() - n,
{
    if n < s.len() {
        assert(s.take(n + 1).drop_last() == s.take(n));
        lemma_decimal_grows(s, n + 1);
    } else {
        assert(s.take(n) == s);
    }
}

/// The position that `text` writes, if it writes one.
pub fn parse_index(text: &[u8]) -> (index: Option<usize>)
    ensures
        index == index_of(text@),
{
    let digits = if text.len() > 0 && text[0] == 43 {
        slice_subrange(text, 1, text.len())
    } else {
        text
    };
    if digits.len() == 0 {
        return None;
    }
    let mut value: usize = 0;
    let mut i: usize = 0;
    while i < digits.len()
        invariant
            i <= digits@.len(),
            digits@ == digits_of(text@),
            all_digits(digits@.take(i as int)),
            value == decimal(digits@.take(i as int)),
        decreases digits@.len() - i,
    {
        let byte = digits[i];
        if byte < 48 || byte > 57 {
            return None;
        }
        let digit: usize = (byte - 48) as usize;
        proof {
            assert(digits@.take(i + 1).drop_last() == digits@.take(i as int));
            lemma_decimal_grows(digits@, i + 1);
        }
        let next = match value.checked_mul(10) {
            Some(tens) => tens.checked_add(digit),
            None => None,
        };
        match next {
            Some(sum) => {
                value = sum;
            },
            None => {
                return None;
            },
        }
        i += 1;
    }
    assert(digits@.take(i as int) == digits@);
    Some(value)
}

fn same_bytes(a: &[u8], b: &[u8]) -> (same: bool)
    ensures
        same == (a@ == b@),
{
    if a.len() != b.len() {
        return false;
    }
    let mut i: usize = 0;
    while i < a.len()
        invariant
            i <= a@.len(),
            a@.len() == b@.len(),
            a@.take(i as int) == b@.take(i as int),
        decreases a@.len() - i,
    {
        if a[i] != b[i] {
            return false;
        }
        i += 1;
    }
    assert(a@.take(i as int) == a@);
    assert(b@.take(i as int) == b@);
    true
}

fn is_named(line: &[u8], keyword: &str, alias: &str) -> (named: bool)
    ensures
        named == names(line@, keyword, alias),
{
    same_bytes(line, keyword.as_bytes()) || same_bytes(line, alias.as_bytes())
}

fn after_prefix<'a>(line: &'a [u8], prefix: &[u8]) -> (rest: Option<&'a [u8]>)
    ensures
        opens_with(line@, prefix@) ==> rest is Some && rest.unwrap()@ == line@.skip(
            prefix@.len() as int,
        ),
        !opens_with(line@, prefix@) ==> rest is None,
{
    let n = prefix.len();
    if n > line.len() {
        return None;
    }
    if same_bytes(slice_subrange(line, 0, n), prefix) {
        Some(slice_subrange(line, n, line.len()))
    } else {
        None
    }
}

fn argument<'a>(line: &'a [u8], keyword: &str, alias: &str) -> (rest: Option<&'a [u8]>)
    ensures
        match argument_of(line@, keyword, alias) {
            Some(bytes) => rest is Some && rest.unwrap()@ == bytes,
            None => rest is None,
        },
{
    match after_prefix(line, keyword.as_bytes()) {
        Some(rest) => Some(rest),
        None => after_prefix(line, alias.as_bytes()),
    }
}

/// Reads one line of the console.
pub fn parse_line(line: &[u8]) -> (parsed: Result<ConsoleLine, ConsoleError>)
    ensures
        parsed_view(parsed) == parse(line@),
{
    let t = trim(line);
    if is_named(t, "print_socket", "0") {
        return Ok(ConsoleLine::Run(Command::ListConnections));
    }
    if is_named(t, "check_clients", "1") {
        return Ok(ConsoleLine::Run(Command::ProbeAll));
    }
    if is_named(t, "remove_inactive_clients", "2") {
        return Ok(ConsoleLine::Run(Command::EvictDead));
    }
    if is_named(t, "clear_logs", "3") {
        return Ok(ConsoleLine::ClearLogs);
    }
    if let Some(message) = argument(t, "broadcast_message ", "4 ") {
        return Ok(ConsoleLine::Run(Command::Broadcast(slice_to_vec(message))));
    }
    if let Some(position) = argument(t, "set_current_client ", "5 ") {
        return match parse_index(position) {
            Some(index) => Ok(ConsoleLine::Run(Command::SelectByIndex(index))),
            None => Err(ConsoleError::ParseFailure),
        };
    }
    if let Some(message) = argument(t, "send_command ", "6 ") {
        return Ok(ConsoleLine::Run(Command::SendToSelected(slice_to_vec(message))));
    }
    if is_named(t, "print_current_index", "7") {
        return Ok(ConsoleLine::Run(Command::ShowSelected));
    }
    if is_named(t, "help", "h") {
        return Ok(ConsoleLine::Help);
    }
    Ok(ConsoleLine::Unknown)
}

} // verus!
