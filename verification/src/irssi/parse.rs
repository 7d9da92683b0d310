//! The shapes of line that the dialect knows, and what a line of each says.

use vstd::prelude::*;
use vstd::slice::slice_subrange;
use crate::event::{text_of, Type, TypeView};
use crate::text::{
    append, rejoin, rejoin_is_rest, rejoined, rest, string_of, strip_one, stripped, texts, tokenize,
    word_is, word_starts_with, words,
};

verus! {

/// The shapes of line that the dialect knows, in the order in which they are tried.
#[derive(Clone, Copy, Debug, PartialEq, Eq, Structural)]
pub enum Shape {
    /// `--- Log opened <weekday> <month> <day> <time> <year>`
    Opened,
    /// `--- Log closed <weekday> <month> <day> <time> <year>`
    Closed,
    /// `<time> -!- <nick> <mask> has joined <channel>`
    Join,
    /// `<time> -!- <nick> <mask> has left <channel> <reason...>`
    Part,
    /// `<time> -!- <nick> <mask> has quit <reason...>`
    Quit,
    /// `<date> <time> -- Notice(<from>): <content...>`
    Notice,
    /// `<date> <time> -- <nick> is now known as <nick>`
    Nick,
    /// `<date> <time>  * <nick> <content...>`
    Action,
    /// `<date> <time> <nick> <content...>`
    Msg,
    /// None of these.
    Unknown,
}

/// Whether the words are the banner that opens (`verb` is `opened`) or closes a log.
pub open spec fn is_banner(w: Seq<Seq<char>>, verb: Seq<char>) -> bool {
    w.len() == 8 && w[0] == "---"@ && w[1] == "Log"@ && w[2] == verb
}

/// Whether the words are a line of the server about `nick` who `has` done `deed`.
pub open spec fn is_server_line(w: Seq<Seq<char>>, deed: Seq<char>) -> bool {
    w.len() >= 6 && w[1] == "-!-"@ && w[4] == "has"@ && w[5] == deed
}

/// Whether the words announce a change of nick.
pub open spec fn is_nick_line(w: Seq<Seq<char>>) -> bool {
    &&& w.len() == 9
    &&& w[2] == "--"@
    &&& (w[4] == "is"@ || w[4] == "are"@)
    &&& w[5] == "now"@
    &&& w[6] == "known"@
    &&& w[7] == "as"@
}

/// The shape of a line with the words `w`: the first in the order of
/// [`Shape`] whose fixed words are all in place.
pub open spec fn shape_of(w: Seq<Seq<char>>) -> Shape {
    if is_banner(w, "opened"@) {
        Shape::Opened
    } else if is_banner(w, "closed"@) {
        Shape::Closed
    } else if w.len() == 7 && is_server_line(w, "joined"@) {
        Shape::Join
    } else if w.len() >= 7 && is_server_line(w, "left"@) {
        Shape::Part
    } else if is_server_line(w, "quit"@) {
        Shape::Quit
    } else if w.len() >= 4 && w[2] == "--"@ && "Notice("@.is_prefix_of(w[3]) {
        Shape::Notice
    } else if is_nick_line(w) {
        Shape::Nick
    } else if w.len() >= 5 && w[2].len() == 0 && w[3] == "*"@ {
        Shape::Action
    } else if w.len() >= 3 {
        Shape::Msg
    } else {
        Shape::Unknown
    }
}

fn banner(words: &Vec<Vec<char>>, verb: &str) -> (r: bool)
    ensures
        r == is_banner(texts(words@), verb@),
{
    words.len() == 8 && word_is(words[0].as_slice(), "---") && word_is(words[1].as_slice(), "Log")
        && word_is(words[2].as_slice(), verb)
}

fn server_line(words: &Vec<Vec<char>>, deed: &str) -> (r: bool)
    ensures
        r == is_server_line(texts(words@), deed@),
{
    words.len() >= 6 && word_is(words[1].as_slice(), "-!-") && word_is(words[4].as_slice(), "has")
        && word_is(words[5].as_slice(), deed)
}

fn nick_line(words: &Vec<Vec<char>>) -> (r: bool)
    ensures
        r == is_nick_line(texts(words@)),
{
    words.len() == 9 && word_is(words[2].as_slice(), "--") && (word_is(words[4].as_slice(), "is")
        || word_is(words[4].as_slice(), "are")) && word_is(words[5].as_slice(), "now") && word_is(
        words[6].as_slice(),
        "known",
    ) && word_is(words[7].as_slice(), "as")
}

/// Finds the shape of a line from its words.
pub fn classify(words: &Vec<Vec<char>>) -> (r: Shape)
    ensures
        r == shape_of(texts(words@)),
{
    let n: usize = words.len();
    if banner(words, "opened") {
        Shape::Opened
    } else if banner(words, "closed") {
        Shape::Closed
    } else if n == 7 && server_line(words, "joined") {
        Shape::Join
    } else if n >= 7 && server_line(words, "left") {
        Shape::Part
    } else if server_line(words, "quit") {
        Shape::Quit
    } else if n >= 4 && word_is(words[2].as_slice(), "--") && word_starts_with(
        words[3].as_slice(),
        "Notice(",
    ) {
        Shape::Notice
    } else if nick_line(words) {
        Shape::Nick
    } else if n >= 5 && words[2].len() == 0 && word_is(words[3].as_slice(), "*") {
        Shape::Action
    } else if n >= 3 {
        Shape::Msg
    } else {
        Shape::Unknown
    }
}

/// What one line says, before its time is resolved.
#[derive(Clone, Debug, PartialEq, Eq)]
pub enum Record {
    /// A log was opened on the date written in `date`.
    Opened { date: String },
    /// The log was closed on the date written in `date`, at the time written in `clock`.
    Closed { date: String, clock: String },
    /// Something happened at the time written in `clock`, on the date
    /// written in `date` where the line itself has one; `channel` is the
    /// channel that the line itself names, if it names one.
    Entry { date: Option<String>, clock: String, ty: Type, channel: Option<String> },
    /// The line has a known shape, but `field` cannot be read.
    Malformed { field: String },
    /// The line has none of the known shapes.
    Unknown,
}

/// The mathematical value of a [`Record`].
pub enum RecordView {
    Opened { date: Seq<char> },
    Closed { date: Seq<char>, clock: Seq<char> },
    Entry { date: Option<Seq<char>>, clock: Seq<char>, ty: TypeView, channel: Option<Seq<char>> },
    Malformed { field: Seq<char> },
    Unknown,
}

impl View for Record {
    type V = RecordView;

    open spec fn view(&self) -> RecordView {
        match *self {
            Record::Opened { date } => RecordView::Opened { date: date@ },
            Record::Closed { date, clock } => RecordView::Closed { date: date@, clock: clock@ },
            Record::Entry { date, clock, ty, channel } => RecordView::Entry {
                date: text_of(date),
                clock: clock@,
                ty: ty@,
                channel: text_of(channel),
            },
            Record::Malformed { field } => RecordView::Malformed { field: field@ },
            Record::Unknown => RecordView::Unknown,
        }
    }
}

/// The date of a banner: its weekday, month, day and year, a space between each two.
pub open spec fn banner_date(w: Seq<Seq<char>>) -> Seq<char> {
    w[3] + seq![' '] + w[4] + seq![' '] + w[5] + seq![' '] + w[7]
}

/// The sender named in the word `Notice(<from>):`.
pub open spec fn notice_from(word: Seq<char>) -> Seq<char> {
    word.subrange(7, word.len() - 2)
}

/// What the line `text` says. A field that runs to the end of the line is
/// the end of the line itself, with every whitespace character as it stood.
/// The lines of the server about who joined, left or quit open with the
/// time of day alone; the others open with their date and their time.
pub open spec fn record_of(text: Seq<char>) -> RecordView {
    let w = words(text);
    match shape_of(w) {
        Shape::Opened => RecordView::Opened { date: banner_date(w) },
        Shape::Closed => RecordView::Closed { date: banner_date(w), clock: w[6] },
        Shape::Join => RecordView::Entry {
            date: None,
            clock: w[0],
            ty: TypeView::Join { nick: w[2], mask: Some(stripped(w[3])) },
            channel: Some(w[6]),
        },
        Shape::Part => RecordView::Entry {
            date: None,
            clock: w[0],
            ty: TypeView::Part {
                nick: w[2],
                mask: Some(stripped(w[3])),
                reason: Some(stripped(rest(text, 7))),
            },
            channel: Some(w[6]),
        },
        Shape::Quit => RecordView::Entry {
            date: None,
            clock: w[0],
            ty: TypeView::Quit {
                nick: w[2],
                mask: Some(stripped(w[3])),
                reason: Some(stripped(rest(text, 6))),
            },
            channel: None,
        },
        Shape::Notice => if w[3].len() < 9 {
            RecordView::Malformed { field: w[3] }
        } else {
            RecordView::Entry {
                date: Some(w[0]),
                clock: w[1],
                ty: TypeView::Notice { from: notice_from(w[3]), content: rest(text, 4) },
                channel: None,
            }
        },
        Shape::Nick => RecordView::Entry {
            date: Some(w[0]),
            clock: w[1],
            ty: TypeView::Nick { old_nick: w[3], new_nick: w[8] },
            channel: None,
        },
        Shape::Action => RecordView::Entry {
            date: Some(w[0]),
            clock: w[1],
            ty: TypeView::Action { from: w[4], content: rest(text, 5) },
            channel: None,
        },
        Shape::Msg => RecordView::Entry {
            date: Some(w[0]),
            clock: w[1],
            ty: TypeView::Msg { from: w[2], content: rest(text, 3) },
            channel: None,
        },
        Shape::Unknown => RecordView::Unknown,
    }
}

/// The words from the `k`-th on, with the separators put back between them.
fn tail(words: &Vec<Vec<char>>, seps: &Vec<char>, k: usize) -> (r: Vec<char>)
    requires
        k <= words@.len(),
        words@.len() == seps@.len() + 1,
    ensures
        r@ == rejoined(texts(words@).skip(k as int), seps@.skip(k as int)),
{
    let n: usize = words.len();
    let m: usize = seps.len();
    if k >= n {
        Vec::new()
    } else {
        let w = slice_subrange(words.as_slice(), k, n);
        let p = slice_subrange(seps.as_slice(), k, m);
        proof {
            assert(texts(w@) =~= texts(words@).skip(k as int));
            assert(p@ =~= seps@.skip(k as int));
        }
        rejoin(w, p)
    }
}

/// The text of a word as a `String`.
fn word(words: &Vec<Vec<char>>, i: usize) -> (r: String)
    requires
        i < words@.len(),
    ensures
        r@ == texts(words@)[i as int],
{
    string_of(words[i].as_slice())
}

/// Reads one line: finds its shape and takes its fields from its words.
pub fn read_record(text: &[char]) -> (r: Record)
    ensures
        r@ == record_of(text@),
{
    let (words, seps) = tokenize(text);
    let shape = classify(&words);
    match shape {
        Shape::Opened => Record::Opened { date: date_of_banner(&words) },
        Shape::Closed => Record::Closed { date: date_of_banner(&words), clock: word(&words, 6) },
        Shape::Join => Record::Entry {
            date: None,
            clock: word(&words, 0),
            ty: Type::Join { nick: word(&words, 2), mask: Some(stripped_word(&words, 3)) },
            channel: Some(word(&words, 6)),
        },
        Shape::Part => {
            proof {
                rejoin_is_rest(text@, 7);
            }
            let reason = strip_one(tail(&words, &seps, 7).as_slice());
            Record::Entry {
                date: None,
                clock: word(&words, 0),
                ty: Type::Part {
                    nick: word(&words, 2),
                    mask: Some(stripped_word(&words, 3)),
                    reason: Some(string_of(reason.as_slice())),
                },
                channel: Some(word(&words, 6)),
            }
        },
        Shape::Quit => {
            proof {
                rejoin_is_rest(text@, 6);
            }
            let reason = strip_one(tail(&words, &seps, 6).as_slice());
            Record::Entry {
                date: None,
                clock: word(&words, 0),
                ty: Type::Quit {
                    nick: word(&words, 2),
                    mask: Some(stripped_word(&words, 3)),
                    reason: Some(string_of(reason.as_slice())),
                },
                channel: None,
            }
        },
        Shape::Notice => {
            proof {
                rejoin_is_rest(text@, 4);
            }
            let label: &Vec<char> = &words[3];
            if label.len() < 9 {
                Record::Malformed { field: word(&words, 3) }
            } else {
                let from = slice_subrange(label.as_slice(), 7, label.len() - 2);
                Record::Entry {
                    date: Some(word(&words, 0)),
                    clock: word(&words, 1),
                    ty: Type::Notice {
                        from: string_of(from),
                        content: string_of(tail(&words, &seps, 4).as_slice()),
                    },
                    channel: None,
                }
            }
        },
        Shape::Nick => Record::Entry {
            date: Some(word(&words, 0)),
            clock: word(&words, 1),
            ty: Type::Nick { old_nick: word(&words, 3), new_nick: word(&words, 8) },
            channel: None,
        },
        Shape::Action => {
            proof {
                rejoin_is_rest(text@, 5);
            }
            Record::Entry {
                date: Some(word(&words, 0)),
                clock: word(&words, 1),
                ty: Type::Action {
                    from: word(&words, 4),
                    content: string_of(tail(&words, &seps, 5).as_slice()),
                },
                channel: None,
            }
        },
        Shape::Msg => {
            proof {
                rejoin_is_rest(text@, 3);
            }
            Record::Entry {
                date: Some(word(&words, 0)),
                clock: word(&words, 1),
                ty: Type::Msg {
                    from: word(&words, 2),
                    content: string_of(tail(&words, &seps, 3).as_slice()),
                },
                channel: None,
            }
        },
        Shape::Unknown => Record::Unknown,
    }
}

/// A word without its first and last character, as a `String`.
fn stripped_word(words: &Vec<Vec<char>>, i: usize) -> (r: String)
    requires
        i < words@.len(),
    ensures
        r@ == stripped(texts(words@)[i as int]),
{
    string_of(strip_one(words[i].as_slice()).as_slice())
}

/// The date of a banner as one text.
fn date_of_banner(words: &Vec<Vec<char>>) -> (r: String)
    requires
        words@.len() == 8,
    ensures
        r@ == banner_date(texts(words@)),
{
    let mut out: Vec<char> = Vec::new();
    append(&mut out, words[3].as_slice());
    out.push(' ');
    append(&mut out, words[4].as_slice());
    out.push(' ');
    append(&mut out, words[5].as_slice());
    out.push(' ');
    append(&mut out, words[7].as_slice());
    proof {
        assert(out@ =~= banner_date(texts(words@)));
    }
    string_of(out.as_slice())
}

} // verus!
