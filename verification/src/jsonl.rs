//! Logs of one JSON record per line: which lines there are, and what to make of the
//! ones that do not parse.
//!
//! Parsing a line into its record is the caller's; it hands the outcome back with the
//! line. A strict read refuses any line that does not parse. A tolerant read lets one
//! torn last line pass: one that is no JSON at all and that no newline ends. It may even be
//! torn inside a character.
use crate::text::{dec, push_dec};
use vstd::prelude::*;
use vstd::slice::slice_subrange;
use vstd::utf8::{decode_utf8, valid_utf8};

verus! {

/// `String::push`. Claimed: it appends one character.
pub assume_specification[ String::push ](s: &mut String, c: char)
    ensures
        final(s)@ == old(s)@.push(c),
;

/// Whether a text is a JSON document.
pub uninterp spec fn json_text_parses(text: Seq<char>) -> bool;

/// `serde_json::from_str` into a `serde_json::Value`. Claimed: whether it succeeds
/// depends on the text alone.
#[verifier::external_body]
fn is_json(text: &str) -> (r: bool)
    ensures
        r == json_text_parses(text@),
{
    serde_json::from_str::<serde_json::Value>(text).is_ok()
}

/// `str::from_utf8`. Claimed: bytes that are UTF-8 give the characters they encode, and
/// others give nothing.
#[verifier::external_body]
fn decoded(bytes: &[u8]) -> (r: Option<String>)
    ensures
        match r {
            Some(text) => valid_utf8(bytes@) && text@ == decode_utf8(bytes@),
            None => !valid_utf8(bytes@),
        },
{
    std::str::from_utf8(bytes).ok().map(|text| text.to_owned())
}

/// What is said of a log that is no text.
pub const NO_TEXT: &'static str = "stream did not contain valid UTF-8";

/// How a log ends.
#[derive(Clone, Copy, Debug, PartialEq, Eq, Structural)]
pub enum LogEnd {
    /// With a newline.
    Newline,
    /// With a character other than a newline, or before the first.
    Open,
    /// With bytes after the last newline that are no text.
    Cut,
}

/// The text of a log, without a fragment at its end that is no text, and how it ends.
#[derive(Debug, PartialEq, Eq)]
pub struct LogText {
    /// The text.
    pub text: String,
    /// How the log ends.
    pub end: LogEnd,
}

/// A line of a log and its number, counted from one.
#[derive(Clone, Debug, PartialEq, Eq)]
pub struct NumberedLine {
    /// The number.
    pub number: usize,
    /// The line without its end.
    pub text: String,
}

/// A line of a log with what its caller made of it.
pub struct ParsedLine<T> {
    /// The number of the line.
    pub number: usize,
    /// The line.
    pub text: String,
    /// The record in it, or why there is none.
    pub record: Result<T, String>,
}

/// The model of a [`ParsedLine`].
pub struct LineModel<T> {
    /// The number of the line.
    pub number: int,
    /// The line.
    pub text: Seq<char>,
    /// The record in it, or why there is none.
    pub record: Result<T, Seq<char>>,
}

impl<T> View for ParsedLine<T> {
    type V = LineModel<T>;

    open spec fn view(&self) -> LineModel<T> {
        LineModel {
            number: self.number as int,
            text: self.text@,
            record: match self.record {
                Ok(record) => Ok(record),
                Err(e) => Err(e@),
            },
        }
    }
}

/// The models of some lines.
pub open spec fn line_models<T>(lines: Seq<ParsedLine<T>>) -> Seq<LineModel<T>> {
    lines.map(|i: int, line: ParsedLine<T>| line@)
}

/// Whether a character is white space.
pub open spec fn blank_char(c: char) -> bool {
    let n = c as u32;
    ||| 9 <= n <= 13
    ||| n == 32
    ||| n == 0x85
    ||| n == 0xa0
    ||| n == 0x1680
    ||| 0x2000 <= n <= 0x200a
    ||| n == 0x2028
    ||| n == 0x2029
    ||| n == 0x202f
    ||| n == 0x205f
    ||| n == 0x3000
}

/// Whether a line holds nothing but white space.
pub open spec fn blank(line: Seq<char>) -> bool {
    forall|i: int| 0 <= i < line.len() ==> blank_char(#[trigger] line[i])
}

/// A line that a newline ends, without the carriage return before that newline.
pub open spec fn without_cr(line: Seq<char>) -> Seq<char> {
    if line.len() > 0 && line.last() == '\r' {
        line.drop_last()
    } else {
        line
    }
}

/// The ended lines of a text and what comes after the last newline.
pub open spec fn split_lines(text: Seq<char>) -> (Seq<Seq<char>>, Seq<char>)
    decreases text.len(),
{
    if text.len() == 0 {
        (Seq::empty(), Seq::empty())
    } else {
        let (ended, open) = split_lines(text.drop_last());
        if text.last() == '\n' {
            (ended.push(without_cr(open)), Seq::empty())
        } else {
            (ended, open.push(text.last()))
        }
    }
}

/// The lines of a text; what comes after the last newline is one if it is not empty.
pub open spec fn lines_of(text: Seq<char>) -> Seq<Seq<char>> {
    let (ended, open) = split_lines(text);
    if open.len() == 0 {
        ended
    } else {
        ended.push(open)
    }
}

/// Lines with their numbers, without the blank ones.
pub open spec fn numbered(lines: Seq<Seq<char>>) -> Seq<(int, Seq<char>)>
    decreases lines.len(),
{
    if lines.len() == 0 {
        Seq::empty()
    } else if blank(lines.last()) {
        numbered(lines.drop_last())
    } else {
        numbered(lines.drop_last()).push((lines.len() as int, lines.last()))
    }
}

/// The models of some numbered lines.
pub open spec fn numbered_models(lines: Seq<NumberedLine>) -> Seq<(int, Seq<char>)> {
    lines.map(|i: int, line: NumberedLine| (line.number as int, line.text@))
}

/// Whether the last character of a text is a newline.
pub open spec fn ends_with_newline(text: Seq<char>) -> bool {
    text.len() > 0 && text.last() == '\n'
}

fn is_blank_char(c: char) -> (r: bool)
    ensures
        r == blank_char(c),
{
    let n: u32 = c as u32;
    (9 <= n && n <= 13) || n == 32 || n == 0x85 || n == 0xa0 || n == 0x1680 || (0x2000 <= n && n
        <= 0x200a) || n == 0x2028 || n == 0x2029 || n == 0x202f || n == 0x205f || n == 0x3000
}

/// Whether a line holds nothing but white space.
pub fn is_blank(line: &str) -> (r: bool)
    ensures
        r == blank(line@),
{
    for c in it: line.chars()
        invariant
            it.seq() == line@,
            forall|i: int| 0 <= i < it.index() ==> blank_char(#[trigger] line@[i]),
    {
        assert(c == line@[it.index()]);
        if !is_blank_char(c) {
            assert(!blank_char(line@[it.index()]));
            return false;
        }
    }
    true
}

fn push_line(out: &mut Vec<NumberedLine>, number: usize, line: String, Ghost(lines): Ghost<
    Seq<Seq<char>>,
>)
    requires
        numbered_models(old(out)@) == numbered(lines),
        number == lines.len() + 1,
    ensures
        numbered_models(final(out)@) == numbered(lines.push(line@)),
{
    let ghost before = out@;
    let ghost all = lines.push(line@);
    assert(all.drop_last() =~= lines);
    assert(all.last() == line@);
    if !is_blank(line.as_str()) {
        out.push(NumberedLine { number, text: line });
        assert(numbered_models(out@) =~= numbered_models(before).push((number as int, line@)));
    }
}

fn drop_cr(line: String, last_is_cr: bool) -> (r: String)
    requires
        last_is_cr == (line@.len() > 0 && line@.last() == '\r'),
    ensures
        r@ == without_cr(line@),
{
    if last_is_cr {
        let n: usize = line.as_str().unicode_len();
        let kept = line.as_str().substring_char(0, n - 1).to_owned();
        assert(kept@ =~= line@.drop_last());
        kept
    } else {
        line
    }
}

/// The lines of a log that are not blank, with their numbers in the file.
pub fn log_lines(text: &str) -> (r: Vec<NumberedLine>)
    ensures
        numbered_models(r@) == numbered(lines_of(text@)),
{
    let total: usize = text.unicode_len();
    let mut out: Vec<NumberedLine> = Vec::new();
    let mut open: String = "".to_owned();
    let mut ended: usize = 0;
    let mut last_is_cr: bool = false;
    proof {
        reveal_strlit("");
        assert(text@.take(0) =~= Seq::empty());
        assert(open@ =~= Seq::empty());
        assert(numbered_models(out@) =~= Seq::empty());
    }
    for c in it: text.chars()
        invariant
            it.seq() == text@,
            total == text@.len(),
            split_lines(text@.take(it.index())).1 == open@,
            numbered_models(out@) == numbered(split_lines(text@.take(it.index())).0),
            ended == split_lines(text@.take(it.index())).0.len(),
            ended + open@.len() <= it.index(),
            last_is_cr == (open@.len() > 0 && open@.last() == '\r'),
    {
        let ghost before = text@.take(it.index());
        let ghost after = text@.take(it.index() + 1);
        assert(c == text@[it.index()]);
        assert(after.drop_last() =~= before);
        assert(after.last() == c);
        if c == '\n' {
            let line = drop_cr(open, last_is_cr);
            push_line(&mut out, ended + 1, line, Ghost(split_lines(before).0));
            open = "".to_owned();
            proof {
                reveal_strlit("");
                assert(open@ =~= Seq::empty());
            }
            ended = ended + 1;
            last_is_cr = false;
        } else {
            open.push(c);
            last_is_cr = c == '\r';
        }
    }
    assert(text@.take(text@.len() as int) =~= text@);
    if !open.as_str().is_empty() {
        push_line(&mut out, ended + 1, open, Ghost(split_lines(text@).0));
    }
    out
}

fn is_newline_terminated(text: &str) -> (r: bool)
    ensures
        r == ends_with_newline(text@),
{
    let mut last: char = ' ';
    for c in it: text.chars()
        invariant
            it.seq() == text@,
            it.index() > 0 ==> last == text@[it.index() - 1],
            it.index() == 0 ==> last == ' ',
    {
        last = c;
    }
    last == '\n'
}

/// How many bytes of a log come before the end of its last ended line.
pub open spec fn ended_length(bytes: Seq<u8>) -> int
    decreases bytes.len(),
{
    if bytes.len() == 0 {
        0
    } else if bytes.last() == 10 {
        bytes.len() as int
    } else {
        ended_length(bytes.drop_last())
    }
}

/// The text of a log and how it ends: all of it where it is text, and else its ended lines
/// where those are.
pub open spec fn text_in(bytes: Seq<u8>) -> Option<(Seq<char>, LogEnd)> {
    let ended = bytes.take(ended_length(bytes));
    if valid_utf8(bytes) {
        let text = decode_utf8(bytes);
        Some(
            (
                text,
                if ends_with_newline(text) {
                    LogEnd::Newline
                } else {
                    LogEnd::Open
                },
            ),
        )
    } else if valid_utf8(ended) {
        Some((decode_utf8(ended), LogEnd::Cut))
    } else {
        None
    }
}

/// The text of a log and how it ends, or that it is no text.
pub fn log_text(bytes: &[u8]) -> (r: Result<LogText, String>)
    ensures
        match r {
            Ok(log) => text_in(bytes@) == Some((log.text@, log.end)),
            Err(e) => text_in(bytes@) is None && e@ == NO_TEXT@,
        },
{
    if let Some(text) = decoded(bytes) {
        let end = if is_newline_terminated(text.as_str()) {
            LogEnd::Newline
        } else {
            LogEnd::Open
        };
        return Ok(LogText { text, end });
    }
    let mut n: usize = bytes.len();
    assert(bytes@.take(n as int) =~= bytes@);
    while n > 0 && bytes[n - 1] != 10
        invariant
            n <= bytes@.len(),
            ended_length(bytes@) == ended_length(bytes@.take(n as int)),
        decreases n,
    {
        assert(bytes@.take(n as int).drop_last() =~= bytes@.take(n - 1));
        n = n - 1;
    }
    assert(ended_length(bytes@) == n);
    let ended = slice_subrange(bytes, 0, n);
    assert(ended@ =~= bytes@.take(n as int));
    match decoded(ended) {
        Some(text) => Ok(LogText { text, end: LogEnd::Cut }),
        None => Err(NO_TEXT.to_owned()),
    }
}

/// What is said of a line that does not parse.
pub open spec fn corrupt_text(what: Seq<char>, number: int, e: Seq<char>) -> Seq<char> {
    "corrupt "@ + what + " line "@ + dec(number as nat) + ": "@ + e
}

/// What is said of a last line that is JSON but no such record.
pub open spec fn wrong_file_text(what: Seq<char>, number: int) -> Seq<char> {
    "corrupt "@ + what + ": line "@ + dec(number as nat) + " is valid JSON but not a "@ + what
        + " record — the wrong file?"@
}

/// What is said of a last line that does not parse and that a newline ends.
pub open spec fn fused_text(what: Seq<char>, number: int) -> Seq<char> {
    "corrupt "@ + what + ": trailing line "@ + dec(number as nat)
        + " is unparseable and newline-terminated — not a torn append (corruption, or a fused line a post-crash append left); repair the log before resyncing"@
}

/// A strict read: every record, or the first line that does not parse.
pub open spec fn strict_read<T>(what: Seq<char>, lines: Seq<LineModel<T>>) -> Result<
    Seq<T>,
    Seq<char>,
>
    decreases lines.len(),
{
    if lines.len() == 0 {
        Ok(Seq::empty())
    } else {
        match strict_read(what, lines.drop_last()) {
            Err(e) => Err(e),
            Ok(records) => match lines.last().record {
                Ok(record) => Ok(records.push(record)),
                Err(e) => Err(corrupt_text(what, lines.last().number, e)),
            },
        }
    }
}

/// A tolerant read: as a strict one, but for what is left at the end of the log. A fragment
/// that is no text is left out, and the read says so. A last line that does not parse is an
/// error where it is JSON, and where a newline ends it; else it is left out too.
pub open spec fn tolerant_read<T>(
    what: Seq<char>,
    lines: Seq<LineModel<T>>,
    end: LogEnd,
    last_is_json: bool,
) -> Result<(Seq<T>, bool), Seq<char>> {
    if end != LogEnd::Cut && lines.len() > 0 && lines.last().record is Err {
        if last_is_json {
            Err(wrong_file_text(what, lines.last().number))
        } else if end == LogEnd::Newline {
            Err(fused_text(what, lines.last().number))
        } else {
            match strict_read(what, lines.drop_last()) {
                Ok(records) => Ok((records, true)),
                Err(e) => Err(e),
            }
        }
    } else {
        match strict_read(what, lines) {
            Ok(records) => Ok((records, end == LogEnd::Cut)),
            Err(e) => Err(e),
        }
    }
}

/// Read the records of a log strictly: the first line that does not parse is an error
/// that names its number.
pub fn read_json_lines<T>(what: &str, lines: Vec<ParsedLine<T>>) -> (r: Result<Vec<T>, String>)
    ensures
        match r {
            Ok(records) => strict_read(what@, line_models(lines@)) == Ok::<Seq<T>, Seq<char>>(
                records@,
            ),
            Err(e) => strict_read(what@, line_models(lines@)) == Err::<Seq<T>, Seq<char>>(e@),
        },
{
    let ghost models = line_models(lines@);
    let ghost all = lines@;
    let mut records: Vec<T> = Vec::new();
    proof {
        assert(models.take(0) =~= Seq::empty());
        assert(records@ =~= Seq::empty());
    }
    for line in it: lines
        invariant
            it.seq() == all,
            models == line_models(all),
            strict_read(what@, models.take(it.index())) == Ok::<Seq<T>, Seq<char>>(records@),
    {
        let ghost before = models.take(it.index());
        let ghost after = models.take(it.index() + 1);
        assert(line == all[it.index()]);
        assert(after.drop_last() =~= before);
        assert(after.last() == line@);
        match line.record {
            Ok(record) => {
                records.push(record);
            },
            Err(e) => {
                let mut message = "corrupt ".to_owned();
                message.append(what);
                message.append(" line ");
                push_dec(&mut message, line.number as u128);
                message.append(": ");
                message.append(e.as_str());
                proof {
                    lemma_strict_error_stays(what@, models, it.index() + 1);
                }
                return Err(message);
            },
        }
    }
    assert(models.take(models.len() as int) =~= models);
    Ok(records)
}

proof fn lemma_strict_error_stays<T>(what: Seq<char>, lines: Seq<LineModel<T>>, n: int)
    requires
        0 <= n <= lines.len(),
        strict_read(what, lines.take(n)) is Err,
    ensures
        strict_read(what, lines) == strict_read(what, lines.take(n)),
    decreases lines.len() - n,
{
    if n < lines.len() {
        assert(lines.take(n + 1).drop_last() =~= lines.take(n));
        lemma_strict_error_stays(what, lines, n + 1);
    } else {
        assert(lines.take(n) =~= lines);
    }
}

/// Read the records of a log tolerantly, given whether the last line is JSON at all.
pub fn tolerant_records<T>(
    what: &str,
    lines: Vec<ParsedLine<T>>,
    end: LogEnd,
    last_is_json: bool,
) -> (r: Result<(Vec<T>, bool), String>)
    ensures
        match r {
            Ok((records, torn)) => tolerant_read(
                what@,
                line_models(lines@),
                end,
                last_is_json,
            ) == Ok::<(Seq<T>, bool), Seq<char>>((records@, torn)),
            Err(e) => tolerant_read(
                what@,
                line_models(lines@),
                end,
                last_is_json,
            ) == Err::<(Seq<T>, bool), Seq<char>>(e@),
        },
{
    let ghost models = line_models(lines@);
    let mut kept = lines;
    let mut torn: bool = end == LogEnd::Cut;
    let n: usize = kept.len();
    if !torn && n > 0 {
        assert(models.last() == kept@.last()@);
        if kept[n - 1].record.is_err() {
            let number: usize = kept[n - 1].number;
            if last_is_json {
                let mut message = "corrupt ".to_owned();
                message.append(what);
                message.append(": line ");
                push_dec(&mut message, number as u128);
                message.append(" is valid JSON but not a ");
                message.append(what);
                message.append(" record — the wrong file?");
                return Err(message);
            }
            if end == LogEnd::Newline {
                let mut message = "corrupt ".to_owned();
                message.append(what);
                message.append(": trailing line ");
                push_dec(&mut message, number as u128);
                message.append(
                    " is unparseable and newline-terminated — not a torn append (corruption, or a fused line a post-crash append left); repair the log before resyncing",
                );
                return Err(message);
            }
            let _torn = kept.pop();
            assert(line_models(kept@) =~= models.drop_last());
            torn = true;
        }
    }
    match read_json_lines(what, kept) {
        Ok(records) => Ok((records, torn)),
        Err(e) => Err(e),
    }
}

/// Whether the last of some lines is JSON at all.
pub open spec fn last_parses<T>(lines: Seq<LineModel<T>>) -> bool {
    lines.len() > 0 && json_text_parses(lines.last().text)
}

/// Read the records of a log tolerantly.
pub fn read_json_lines_tolerant<T>(
    what: &str,
    lines: Vec<ParsedLine<T>>,
    end: LogEnd,
) -> (r: Result<(Vec<T>, bool), String>)
    ensures
        match r {
            Ok((records, torn)) => tolerant_read(
                what@,
                line_models(lines@),
                end,
                last_parses(line_models(lines@)),
            ) == Ok::<(Seq<T>, bool), Seq<char>>((records@, torn)),
            Err(e) => tolerant_read(
                what@,
                line_models(lines@),
                end,
                last_parses(line_models(lines@)),
            ) == Err::<(Seq<T>, bool), Seq<char>>(e@),
        },
{
    let n: usize = lines.len();
    let last_is_json: bool = if n > 0 {
        is_json(lines[n - 1].text.as_str())
    } else {
        false
    };
    tolerant_records(what, lines, end, last_is_json)
}

/// Where every line parses and the log does not break off inside a character, a tolerant read
/// is a strict one and says that nothing was left out.
pub proof fn law_complete_log_reads_the_same<T>(
    what: Seq<char>,
    lines: Seq<LineModel<T>>,
    end: LogEnd,
    last_is_json: bool,
    records: Seq<T>,
)
    requires
        strict_read(what, lines) == Ok::<Seq<T>, Seq<char>>(records),
        end != LogEnd::Cut,
    ensures
        tolerant_read(what, lines, end, last_is_json) == Ok::<(Seq<T>, bool), Seq<char>>(
            (records, false),
        ),
{
}

/// A log that breaks off inside a character reads as one that breaks off between two: its last
/// line is left out, and what comes before it is read strictly.
pub proof fn law_a_cut_character_is_a_torn_line<T>(
    what: Seq<char>,
    lines: Seq<LineModel<T>>,
    fragment: LineModel<T>,
    last_is_json: bool,
)
    requires
        fragment.record is Err,
    ensures
        tolerant_read(what, lines, LogEnd::Cut, last_is_json) == tolerant_read(
            what,
            lines.push(fragment),
            LogEnd::Open,
            false,
        ),
{
    assert(lines.push(fragment).drop_last() =~= lines);
}

/// At most what comes after the last newline is ever left out, never in silence, and only
/// where it bears the mark of a torn append: it is no text, or it is a last line that does not
/// parse, is no JSON, and no newline ends.
pub proof fn law_only_a_torn_last_line_is_left_out<T>(
    what: Seq<char>,
    lines: Seq<LineModel<T>>,
    end: LogEnd,
    last_is_json: bool,
    records: Seq<T>,
    torn: bool,
)
    requires
        tolerant_read(what, lines, end, last_is_json) == Ok::<(Seq<T>, bool), Seq<char>>(
            (records, torn),
        ),
    ensures
        torn ==> end == LogEnd::Cut && strict_read(what, lines) == Ok::<Seq<T>, Seq<char>>(records)
            || end == LogEnd::Open && lines.len() > 0 && lines.last().record is Err
            && !last_is_json && strict_read(what, lines.drop_last()) == Ok::<Seq<T>, Seq<char>>(
            records,
        ),
        !torn ==> end != LogEnd::Cut && strict_read(what, lines) == Ok::<Seq<T>, Seq<char>>(
            records,
        ),
{
}

/// A line that does not parse and is not the last is an error in either read, however
/// the log ends.
pub proof fn law_interior_damage_is_refused<T>(
    what: Seq<char>,
    lines: Seq<LineModel<T>>,
    end: LogEnd,
    last_is_json: bool,
    i: int,
)
    requires
        0 <= i < lines.len() - 1,
        lines[i].record is Err,
    ensures
        strict_read(what, lines) is Err,
        tolerant_read(what, lines, end, last_is_json) is Err,
{
    let head = lines.take(i + 1);
    assert(head.last() == lines[i]);
    assert(strict_read(what, head) is Err);
    lemma_strict_error_stays(what, lines, i + 1);
    assert(lines.drop_last().take(i + 1) =~= head);
    lemma_strict_error_stays(what, lines.drop_last(), i + 1);
}

proof fn lemma_split_open(head: Seq<char>, line: Seq<char>)
    requires
        head.len() == 0 || head.last() == '\n',
        forall|i: int| 0 <= i < line.len() ==> line[i] != '\n',
    ensures
        split_lines(head + line) == (split_lines(head).0, line),
    decreases line.len(),
{
    if line.len() == 0 {
        assert(head + line =~= head);
        assert(split_lines(head).1 =~= line);
    } else {
        let text = head + line;
        assert(text.drop_last() =~= head + line.drop_last());
        assert(text.last() == line.last());
        assert(line[line.len() - 1] != '\n');
        assert forall|i: int| 0 <= i < line.drop_last().len() implies line.drop_last()[i]
            != '\n' by {
            assert(line.drop_last()[i] == line[i]);
        }
        lemma_split_open(head, line.drop_last());
        assert(line.drop_last().push(line.last()) =~= line);
    }
}

/// A newline ends a line, and the lines before it stay what they are: a text without one that
/// comes after them is one line more, without the carriage return right before
/// its newline, if it has both; a last line that no newline ends is there as it is, unless it is
/// empty.
pub proof fn law_each_newline_ends_one_line(head: Seq<char>, line: Seq<char>)
    requires
        head.len() == 0 || head.last() == '\n',
        forall|i: int| 0 <= i < line.len() ==> line[i] != '\n',
    ensures
        lines_of(head + line.push('\n')) == lines_of(head).push(
            if line.len() > 0 && line.last() == '\r' {
                line.drop_last()
            } else {
                line
            },
        ),
        line.len() > 0 ==> lines_of(head + line) == lines_of(head).push(line),
        lines_of(Seq::empty()).len() == 0,
{
    lemma_split_open(head, line);
    lemma_split_open(head, Seq::empty());
    assert(head + Seq::<char>::empty() =~= head);
    let text = head + line.push('\n');
    assert(text.drop_last() =~= head + line);
    assert(text.last() == '\n');
}

/// Lines are numbered from one on by their place among all lines, and the blank ones are left out:
/// a number and a text go together exactly where that line has that text and is not blank.
pub proof fn law_lines_keep_their_numbers(lines: Seq<Seq<char>>, number: int, text: Seq<char>)
    ensures
        numbered(lines).contains((number, text)) <==> 1 <= number <= lines.len() && lines[number
            - 1] == text && !blank(text),
        forall|i: int, j: int|
            0 <= i < j < numbered(lines).len() ==> (#[trigger] numbered(lines)[i]).0 < (
            #[trigger] numbered(lines)[j]).0,
        forall|i: int|
            0 <= i < numbered(lines).len() ==> (#[trigger] numbered(lines)[i]).0 <= lines.len(),
    decreases lines.len(),
{
    if lines.len() > 0 {
        let front = lines.drop_last();
        let before = numbered(front);
        let all = numbered(lines);
        law_lines_keep_their_numbers(front, number, text);
        if !blank(lines.last()) {
            assert(all[before.len() as int] == (lines.len() as int, lines.last()));
            if before.contains((number, text)) {
                let k = choose|k: int| 0 <= k < before.len() && before[k] == (number, text);
                assert(all[k] == (number, text));
            }
            if all.contains((number, text)) {
                let k = choose|k: int| 0 <= k < all.len() && all[k] == (number, text);
                if k < before.len() {
                    assert(before[k] == (number, text));
                }
            }
        }
        if 1 <= number <= front.len() {
            assert(front[number - 1] == lines[number - 1]);
        }
    }
}

/// A line is blank where it holds white space alone: an empty one is, one of spaces and tabs is, and
/// one with any visible ASCII character is not.
pub proof fn law_visible_lines_are_not_blank(line: Seq<char>, i: int)
    ensures
        blank(Seq::empty()),
        0 <= i < line.len() && 33 <= line[i] as u32 <= 126 ==> !blank(line),
        (forall|j: int| 0 <= j < line.len() ==> #[trigger] line[j] == ' ' || line[j] == '\t')
            ==> blank(line),
{
}

/// A strict read gives the record of every line, in the order of the lines.
pub proof fn law_a_strict_read_gives_every_record<T>(
    what: Seq<char>,
    lines: Seq<LineModel<T>>,
    i: int,
)
    requires
        forall|j: int| 0 <= j < lines.len() ==> (#[trigger] lines[j]).record is Ok,
    ensures
        strict_read(what, lines) is Ok,
        strict_read(what, lines)->Ok_0.len() == lines.len(),
        0 <= i < lines.len() ==> strict_read(what, lines)->Ok_0[i] == lines[i].record->Ok_0,
    decreases lines.len(),
{
    if lines.len() > 0 {
        let front = lines.drop_last();
        assert(lines[lines.len() - 1].record is Ok);
        assert forall|j: int| 0 <= j < front.len() implies (#[trigger] front[j]).record is Ok by {
            assert(front[j] == lines[j]);
        }
        law_a_strict_read_gives_every_record(what, front, i);
        if 0 <= i < front.len() {
            assert(front[i] == lines[i]);
        }
    }
}

/// A strict read is refused over the first line that does not parse, with its number and why.
pub proof fn law_a_strict_read_names_the_first_bad_line<T>(
    what: Seq<char>,
    lines: Seq<LineModel<T>>,
    bad: int,
    why: Seq<char>,
)
    requires
        0 <= bad < lines.len(),
        forall|j: int| 0 <= j < bad ==> (#[trigger] lines[j]).record is Ok,
        lines[bad].record == Err::<T, Seq<char>>(why),
    ensures
        strict_read(what, lines) == Err::<Seq<T>, Seq<char>>(
            "corrupt "@ + what + " line "@ + dec(lines[bad].number as nat) + ": "@ + why,
        ),
{
    let upto = lines.take(bad);
    assert forall|j: int| 0 <= j < upto.len() implies (#[trigger] upto[j]).record is Ok by {
        assert(upto[j] == lines[j]);
    }
    law_a_strict_read_gives_every_record(what, upto, 0);
    let with_it = lines.take(bad + 1);
    assert(with_it.drop_last() =~= upto);
    assert(with_it.last() == lines[bad]);
    lemma_strict_error_stays(what, lines, bad + 1);
}

/// A last line that does not parse is refused where it is JSON all the same, and where a newline
/// ends it; otherwise it was torn, and the rest is read without it.
pub proof fn law_a_bad_last_line_is_torn_or_refused<T>(
    what: Seq<char>,
    lines: Seq<LineModel<T>>,
    last: LineModel<T>,
    last_is_json: bool,
)
    requires
        last.record is Err,
    ensures
        last_is_json ==> tolerant_read(what, lines.push(last), LogEnd::Open, last_is_json) is Err
            && tolerant_read(what, lines.push(last), LogEnd::Newline, last_is_json) is Err,
        tolerant_read(what, lines.push(last), LogEnd::Newline, last_is_json) is Err,
        !last_is_json ==> (strict_read(what, lines) matches Ok(records) ==> tolerant_read(
            what,
            lines.push(last),
            LogEnd::Open,
            last_is_json,
        ) == Ok::<(Seq<T>, bool), Seq<char>>((records, true))),
        strict_read(what, lines) matches Ok(records) ==> tolerant_read(
            what,
            lines,
            LogEnd::Cut,
            last_is_json,
        ) == Ok::<(Seq<T>, bool), Seq<char>>((records, true)),
{
    assert(lines.push(last).drop_last() =~= lines);
}

/// The text of a log ends with its last newline, stays open or is cut: bytes that are text are all of
/// it; bytes that are not are text up to the last newline, if they are text that far, and else
/// none. What is cut off holds no newline.
pub proof fn law_a_log_is_cut_at_its_last_newline(bytes: Seq<u8>)
    ensures
        valid_utf8(bytes) ==> (text_in(bytes) matches Some((text, end)) && text == decode_utf8(
            bytes,
        ) && (end == LogEnd::Newline <==> text.len() > 0 && text[text.len() - 1] == '\n')
            && end != LogEnd::Cut),
        !valid_utf8(bytes) && valid_utf8(bytes.take(ended_length(bytes))) ==> text_in(bytes)
            == Some((decode_utf8(bytes.take(ended_length(bytes))), LogEnd::Cut)),
        !valid_utf8(bytes) && !valid_utf8(bytes.take(ended_length(bytes))) ==> text_in(bytes)
            is None,
        0 <= ended_length(bytes) <= bytes.len(),
        ended_length(bytes) > 0 ==> bytes[ended_length(bytes) - 1] == 10,
        forall|i: int| ended_length(bytes) <= i < bytes.len() ==> bytes[i] != 10,
{
    lemma_ended_length(bytes);
}

proof fn lemma_ended_length(bytes: Seq<u8>)
    ensures
        0 <= ended_length(bytes) <= bytes.len(),
        ended_length(bytes) > 0 ==> bytes[ended_length(bytes) - 1] == 10,
        forall|i: int| ended_length(bytes) <= i < bytes.len() ==> bytes[i] != 10,
    decreases bytes.len(),
{
    if bytes.len() > 0 && bytes.last() != 10 {
        lemma_ended_length(bytes.drop_last());
        assert forall|i: int| ended_length(bytes) <= i < bytes.len() implies bytes[i] != 10 by {
            if i < bytes.len() - 1 {
                assert(bytes.drop_last()[i] == bytes[i]);
            }
        }
    }
}

} // verus!
