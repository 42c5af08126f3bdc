//! The rules of a small chat service: its command-line options, the fixed
//! size of its messages, and who a message is forwarded to.

use crate::parse::{bool_of, parse_bool, parse_usize, same_text, unsigned_of};
use crate::words::{split, split_at, texts, trim, trimmed};
use vstd::prelude::*;
use vstd::string::{StrSliceExecFns, StringExecFns};

verus! {

/// The port that is used where none is given.
pub const DEFAULT_PORT: usize = 9000;

/// Every message on the wire has this many bytes.
pub const MESSAGE_SIZE: usize = 100;

/// How the program is to run.
#[derive(Debug)]
pub struct ApplicationOptions {
    pub is_server: bool,
    pub port: usize,
    pub ip_addr: String,
}

/// The options as plain values.
pub struct OptionsView {
    pub is_server: bool,
    pub port: usize,
    pub ip_addr: Seq<char>,
}

impl View for ApplicationOptions {
    type V = OptionsView;

    open spec fn view(&self) -> OptionsView {
        OptionsView { is_server: self.is_server, port: self.port, ip_addr: self.ip_addr@ }
    }
}

/// The options of a program that is started without arguments: a client of
/// the server at `0.0.0.0`, port 9000.
pub open spec fn default_options() -> OptionsView {
    OptionsView { is_server: false, port: DEFAULT_PORT, ip_addr: "0.0.0.0"@ }
}

/// What one argument does to the options.
pub struct Applied {
    /// The options after the argument.
    pub options: OptionsView,
    /// What is said about the argument, if anything.
    pub note: Option<Seq<char>>,
    /// Whether the argument is in error.
    pub failed: bool,
}

/// The complaint about an argument that is not of the form `name=value`.
pub open spec fn malformed_text(arg: Seq<char>) -> Seq<char> {
    "Error in argument '"@ + arg + "'!"@
}

/// The remark on an argument whose name is not known.
pub open spec fn unknown_text(arg: Seq<char>) -> Seq<char> {
    "Unknown option '"@ + arg + "'!"@
}

/// The complaint about a value that is neither `true` nor `false`.
pub open spec fn not_a_bool_text() -> Seq<char> {
    "provided string was not `true` or `false`"@
}

/// What the argument `arg` does to `options`. An argument has the form
/// `name=value` with exactly one `=`. `is_server` takes a truth value, `port`
/// a number and `ip_addr` any text. A value that cannot be read leaves the
/// option as it was and is an error; so is an argument of another form. A
/// name that is not known is remarked on, and is no error.
pub open spec fn apply_spec(options: OptionsView, arg: Seq<char>) -> Applied {
    let pair = split_at(arg, '=');
    if pair.len() != 2 {
        Applied { options, note: Some(malformed_text(arg)), failed: true }
    } else if pair[0] == "is_server"@ {
        match bool_of(pair[1]) {
            Some(b) => Applied {
                options: OptionsView { is_server: b, ..options },
                note: None,
                failed: false,
            },
            None => Applied { options, note: Some(not_a_bool_text()), failed: true },
        }
    } else if pair[0] == "port"@ {
        match unsigned_of(pair[1], usize::MAX as nat) {
            Ok(v) => Applied {
                options: OptionsView { port: v as usize, ..options },
                note: None,
                failed: false,
            },
            Err(e) => Applied { options, note: Some(e.text()), failed: true },
        }
    } else if pair[0] == "ip_addr"@ {
        Applied { options: OptionsView { ip_addr: pair[1], ..options }, note: None, failed: false }
    } else {
        Applied { options, note: Some(unknown_text(arg)), failed: false }
    }
}

/// The options after the arguments `args[1]` to `args[n - 1]`; `args[0]`
/// is the program's name and counts for nothing.
pub open spec fn options_after(args: Seq<Seq<char>>, n: int) -> OptionsView
    decreases n,
{
    if n <= 1 {
        default_options()
    } else {
        apply_spec(options_after(args, n - 1), args[n - 1]).options
    }
}

/// What is said about the arguments `args[1]` to `args[n - 1]`, in their
/// order.
pub open spec fn notes_after(args: Seq<Seq<char>>, n: int) -> Seq<Seq<char>>
    decreases n,
{
    if n <= 1 {
        Seq::empty()
    } else {
        let before = notes_after(args, n - 1);
        match apply_spec(options_after(args, n - 1), args[n - 1]).note {
            Some(note) => before.push(note),
            None => before,
        }
    }
}

/// Whether one of the arguments `args[1]` to `args[n - 1]` is in error.
pub open spec fn failed_after(args: Seq<Seq<char>>, n: int) -> bool
    decreases n,
{
    if n <= 1 {
        false
    } else {
        failed_after(args, n - 1) || apply_spec(options_after(args, n - 1), args[n - 1]).failed
    }
}

/// What reading the arguments came to.
#[derive(Debug)]
pub struct ParsedArgs {
    /// The options that the arguments describe.
    pub options: ApplicationOptions,
    /// What there is to tell the user, in the order of the arguments.
    pub notes: Vec<String>,
    /// Whether an argument was in error: the program then shows its usage
    /// and gives up.
    pub failed: bool,
}

/// Applies one argument to the options. The result is the note on the
/// argument, if there is one, and whether the argument is in error.
pub fn apply_argument(options: &mut ApplicationOptions, arg: &str) -> (r: (Option<String>, bool))
    ensures
        final(options)@ == apply_spec(old(options)@, arg@).options,
        r.1 == apply_spec(old(options)@, arg@).failed,
        match apply_spec(old(options)@, arg@).note {
            Some(note) => r.0 matches Some(text) && text@ == note,
            None => r.0 is None,
        },
{
    let pair = split(arg, '=');
    assert(texts(pair@).len() == pair@.len());
    if pair.len() != 2 {
        let mut note = String::from_str("Error in argument '");
        note.append(arg);
        note.append("'!");
        return (Some(note), true);
    }
    assert(texts(pair@)[0] == pair@[0]@ && texts(pair@)[1] == pair@[1]@);
    let name = pair[0].as_str();
    let value = pair[1].as_str();
    if same_text(name, "is_server") {
        match parse_bool(value) {
            Some(b) => {
                options.is_server = b;
                (None, false)
            },
            None => (Some(String::from_str("provided string was not `true` or `false`")), true),
        }
    } else if same_text(name, "port") {
        match parse_usize(value) {
            Ok(port) => {
                options.port = port;
                (None, false)
            },
            Err(e) => (Some(String::from_str(e.message())), true),
        }
    } else if same_text(name, "ip_addr") {
        options.ip_addr = String::from_str(value);
        (None, false)
    } else {
        let mut note = String::from_str("Unknown option '");
        note.append(arg);
        note.append("'!");
        (Some(note), false)
    }
}

/// Reads the program's arguments. The first one is the program's name; each
/// of the others is applied in turn to the default options.
pub fn parse_args(args: &Vec<String>) -> (parsed: ParsedArgs)
    ensures
        parsed.options@ == options_after(texts(args@), args@.len() as int),
        texts(parsed.notes@) == notes_after(texts(args@), args@.len() as int),
        parsed.failed == failed_after(texts(args@), args@.len() as int),
{
    let mut options = ApplicationOptions {
        is_server: false,
        port: DEFAULT_PORT,
        ip_addr: String::from_str("0.0.0.0"),
    };
    let mut notes: Vec<String> = Vec::new();
    let mut any_parse_errors = false;
    let ghost given = texts(args@);

    assert(texts(notes@) =~= notes_after(given, 1));
    let mut i: usize = 1;
    while i < args.len()
        invariant
            1 <= i,
            given == texts(args@),
            i <= args@.len() || i == 1,
            options@ == options_after(given, i as int),
            texts(notes@) == notes_after(given, i as int),
            any_parse_errors == failed_after(given, i as int),
        decreases args@.len() - i,
    {
        let ghost before = texts(notes@);
        assert(given[i as int] == args@[i as int]@);
        let (note, failed) = apply_argument(&mut options, args[i].as_str());
        match note {
            Some(text) => {
                notes.push(text);
                assert(texts(notes@) =~= before.push(text@));
            },
            None => {},
        }
        if failed {
            any_parse_errors = true;
        }
        i += 1;
    }
    proof {
        if args@.len() == 0 {
            assert(options_after(given, 0) == options_after(given, 1));
            assert(notes_after(given, 0) == notes_after(given, 1));
            assert(failed_after(given, 0) == failed_after(given, 1));
        }
    }
    ParsedArgs { options, notes, failed: any_parse_errors }
}

/// Whether a line typed at the server asks it to shut down: it reads `quit`
/// once the white space at its ends is cut off.
pub fn is_quit(line: &str) -> (quit: bool)
    ensures
        quit == (trimmed(line@) == "quit"@),
{
    same_text(trim(line), "quit")
}

/// Whether `b` is a byte that continues a character begun by an earlier
/// byte.
pub open spec fn is_continuation(b: u8) -> bool {
    128 <= b < 192
}

/// The message that goes on the wire for `text`: the text cut or filled up
/// with zero bytes to [`MESSAGE_SIZE`] bytes. There is none where the cut
/// would part the bytes of one character.
pub open spec fn framed(text: Seq<u8>) -> Option<Seq<u8>> {
    if text.len() > MESSAGE_SIZE {
        if is_continuation(text[MESSAGE_SIZE as int]) {
            None
        } else {
            Some(text.take(MESSAGE_SIZE as int))
        }
    } else {
        Some(text + Seq::new((MESSAGE_SIZE - text.len()) as nat, |i: int| 0u8))
    }
}

/// Brings `text` to the size of a message.
pub fn frame_message(text: &[u8]) -> (message: Option<Vec<u8>>)
    ensures
        match framed(text@) {
            Some(bytes) => message matches Some(m) && m@ == bytes && m@.len() == MESSAGE_SIZE,
            None => message is None,
        },
{
    let len = text.len();
    if len > MESSAGE_SIZE {
        let edge = text[MESSAGE_SIZE];
        if 128 <= edge && edge < 192 {
            return None;
        }
    }
    let mut message: Vec<u8> = Vec::new();
    let mut i: usize = 0;
    while i < MESSAGE_SIZE
        invariant
            i <= MESSAGE_SIZE,
            len == text@.len(),
            message@.len() == i,
            forall|j: int|
                0 <= j < i ==> message@[j] == (if j < len {
                    text@[j]
                } else {
                    0u8
                }),
        decreases MESSAGE_SIZE - i,
    {
        let b: u8 = if i < len {
            text[i]
        } else {
            0
        };
        message.push(b);
        i += 1;
    }
    proof {
        if len > MESSAGE_SIZE {
            assert(message@ =~= text@.take(MESSAGE_SIZE as int));
        } else {
            assert(message@ =~= text@ + Seq::new((MESSAGE_SIZE - len) as nat, |i: int| 0u8));
        }
    }
    Some(message)
}

/// The bytes of a line that was typed, without the character that ends it.
pub open spec fn typed_text(line: Seq<char>) -> Seq<char> {
    if line.len() > 0 {
        line.drop_last()
    } else {
        line
    }
}

/// Turns a line that was typed into a message: the line's last character,
/// the line break, is dropped, and the rest is brought to the size of a
/// message.
pub fn frame_line(line: &str) -> (message: Option<Vec<u8>>)
    ensures
        match framed(vstd::utf8::encode_utf8(typed_text(line@))) {
            Some(bytes) => message matches Some(m) && m@ == bytes && m@.len() == MESSAGE_SIZE,
            None => message is None,
        },
{
    let n = line.unicode_len();
    let body: &str = if n > 0 {
        line.substring_char(0, n - 1)
    } else {
        line
    };
    assert(body@ =~= typed_text(line@));
    frame_message(body.as_bytes())
}

/// What a read of `n` bytes from a client amounts to.
#[derive(Clone, Copy, Debug, PartialEq, Eq, Structural)]
pub enum Received {
    /// Fewer bytes than a message has: the read is reported and dropped.
    InvalidSize,
    /// A whole message, to be forwarded.
    Message,
}

/// Classifies a read of `n` bytes.
pub fn classify_read(n: usize) -> (r: Received)
    ensures
        r == (if n < MESSAGE_SIZE {
            Received::InvalidSize
        } else {
            Received::Message
        }),
{
    if n < MESSAGE_SIZE {
        Received::InvalidSize
    } else {
        Received::Message
    }
}

/// The place of the first client with identifier `id` among `ids`, if there
/// is one. A client that is no longer listed has gone.
pub fn find_client(ids: &Vec<usize>, id: usize) -> (place: Option<usize>)
    ensures
        match place {
            Some(p) => p < ids@.len() && ids@[p as int] == id && forall|j: int|
                0 <= j < p ==> ids@[j] != id,
            None => forall|j: int| 0 <= j < ids@.len() ==> ids@[j] != id,
        },
{
    let mut i: usize = 0;
    while i < ids.len()
        invariant
            i <= ids@.len(),
            forall|j: int| 0 <= j < i ==> ids@[j] != id,
        decreases ids@.len() - i,
    {
        if ids[i] == id {
            return Some(i);
        }
        i += 1;
    }
    None
}

/// The places among `ids` of the clients that a message of `sender` is
/// forwarded to: all but the sender's own, in their order.
pub fn receivers(ids: &Vec<usize>, sender: usize) -> (places: Vec<usize>)
    ensures
        forall|k: int| 0 <= k < places@.len() ==> places@[k] < ids@.len() && ids@[places@[k] as int]
            != sender,
        forall|k: int, l: int| 0 <= k < l < places@.len() ==> places@[k] < places@[l],
        forall|j: int|
            0 <= j < ids@.len() && ids@[j] != sender ==> exists|k: int|
                0 <= k < places@.len() && places@[k] == j,
{
    let mut places: Vec<usize> = Vec::new();
    let mut i: usize = 0;
    while i < ids.len()
        invariant
            i <= ids@.len(),
            forall|k: int|
                0 <= k < places@.len() ==> places@[k] < i && ids@[places@[k] as int] != sender,
            forall|k: int, l: int| 0 <= k < l < places@.len() ==> places@[k] < places@[l],
            forall|j: int|
                0 <= j < i && ids@[j] != sender ==> exists|k: int|
                    0 <= k < places@.len() && places@[k] == j,
        decreases ids@.len() - i,
    {
        if ids[i] != sender {
            let ghost before = places@;
            places.push(i);
            assert forall|j: int| 0 <= j < i + 1 && ids@[j] != sender implies exists|k: int|
                0 <= k < places@.len() && places@[k] == j by {
                if j < i {
                    let k = choose|k: int| 0 <= k < before.len() && before[k] == j;
                    assert(places@[k] == j);
                } else {
                    assert(places@[places@.len() - 1] == j);
                }
            }
        }
        i += 1;
    }
    places
}

} // verus!
