//! How a line of plugin output looks on the shared standard output: the
//! plugin's name in brackets, the local time in parentheses and the message,
//! separated by tabs, wrapped in the colour assigned to the plugin.

use vstd::prelude::*;
use crate::dict::Dict;
use crate::text::{decimal_digits, decimal_u64};

verus! {

/// A colour as the parameters of an ANSI "select graphic rendition"
/// sequence.
pub type Color = String;

/// The first colour of the palette, an index into the 256-colour table.
pub const PALETTE_START: u8 = 69;

/// The end of the palette: the index after its last colour.
pub const PALETTE_END: u8 = 219;

/// What `chrono` writes for the instant `secs` seconds after the Unix epoch,
/// taken as UTC, under the `strftime` pattern `pattern`; `None` where the
/// instant is out of `chrono`'s range or it rejects the pattern.
pub uninterp spec fn utc_formatted(secs: i64, pattern: Seq<char>) -> Option<Seq<char>>;

/// The `strftime` pattern of a timestamp: date and time of day to the
/// second, without time zone.
pub open spec fn timestamp_pattern() -> Seq<char> {
    "%Y-%m-%dT%H:%M:%S"@
}

/// The timestamp text for the wall-clock instant `secs`. Empty where the
/// instant cannot be written.
pub open spec fn timestamp_text(secs: i64) -> Seq<char> {
    match utc_formatted(secs, timestamp_pattern()) {
        Some(text) => text,
        None => Seq::empty(),
    }
}

/// A plugin's name in brackets.
pub open spec fn plugname_format(name: Seq<char>) -> Seq<char> {
    seq!['['] + name + seq![']']
}

/// A timestamp in parentheses.
pub open spec fn datetime_format(timestamp: Seq<char>) -> Seq<char> {
    seq!['('] + timestamp + seq![')']
}

/// A styled line: name tag, timestamp and message, separated by tabs.
pub open spec fn styled(name: Seq<char>, timestamp: Seq<char>, message: Seq<char>) -> Seq<char> {
    plugname_format(name) + seq!['\t'] + datetime_format(timestamp) + seq!['\t'] + message
}

/// `line` wrapped in the ANSI escape sequences that switch `color` on before
/// it and everything off after it.
pub open spec fn colored(line: Seq<char>, color: Seq<char>) -> Seq<char> {
    seq!['\x1b', '['] + color + seq!['m'] + line + seq!['\x1b', '[', '0', 'm']
}

/// No character of `text` is a line feed.
pub open spec fn single_line(text: Seq<char>) -> bool {
    forall|i: int| 0 <= i < text.len() ==> #[trigger] text[i] != '\n'
}

/// A styled line is one line: where the name, the timestamp and the message
/// hold no line feed, neither does the styled line, with or without colour.
pub proof fn lemma_styled_line_is_single(
    name: Seq<char>,
    timestamp: Seq<char>,
    message: Seq<char>,
    color: Seq<char>,
)
    requires
        single_line(name),
        single_line(timestamp),
        single_line(message),
        single_line(color),
    ensures
        single_line(styled(name, timestamp, message)),
        single_line(colored(styled(name, timestamp, message), color)),
{
    let tag = plugname_format(name);
    let stamp = datetime_format(timestamp);
    let line = styled(name, timestamp, message);
    assert(single_line(tag)) by {
        assert forall|i: int| 0 <= i < tag.len() implies #[trigger] tag[i] != '\n' by {
            if 1 <= i < 1 + name.len() {
                assert(tag[i] == name[i - 1]);
            }
        }
    }
    assert(single_line(stamp)) by {
        assert forall|i: int| 0 <= i < stamp.len() implies #[trigger] stamp[i] != '\n' by {
            if 1 <= i < 1 + timestamp.len() {
                assert(stamp[i] == timestamp[i - 1]);
            }
        }
    }
    assert(single_line(line)) by {
        assert forall|i: int| 0 <= i < line.len() implies #[trigger] line[i] != '\n' by {
            let a = tag.len() as int;
            let b = a + 1 + stamp.len();
            if i < a {
                assert(line[i] == tag[i]);
            } else if a < i < b {
                assert(line[i] == stamp[i - a - 1]);
            } else if i > b {
                assert(line[i] == message[i - b - 1]);
            }
        }
    }
    let whole = colored(line, color);
    assert forall|i: int| 0 <= i < whole.len() implies #[trigger] whole[i] != '\n' by {
        let a = 2 + color.len() as int;
        if 2 <= i < a {
            assert(whole[i] == color[i - 2]);
        } else if a < i < a + 1 + line.len() {
            assert(whole[i] == line[i - a - 1]);
        }
    }
}

/// Number of colours in the palette.
pub open spec fn palette_size() -> nat {
    (PALETTE_END - PALETTE_START) as nat
}

/// The palette colour given to the `k`-th distinct name seen, counted from
/// zero: the colours in turn, starting over when the palette is used up.
pub open spec fn palette_color(k: nat) -> u8 {
    (PALETTE_START + k % palette_size()) as u8
}

/// The escape parameters that select foreground colour `index` of the
/// 256-colour table.
pub open spec fn color_code(index: u8) -> Seq<char> {
    seq!['3', '8', ';', '5', ';'] + decimal_digits(index as nat)
}

/// Calls `chrono::DateTime::from_timestamp` and writes the instant with
/// `chrono::DateTime::format`. Trusted: the text is what `chrono` writes for
/// this instant and pattern, which depends on the two alone; `None` where
/// `chrono` gives no instant or reports a formatting error. Under the
/// timestamp pattern `chrono` writes numbers with the signs and marks
/// between them, so that the text holds no line feed.
#[verifier::external_body]
fn format_utc(secs: i64, pattern: &str) -> (r: Option<String>)
    ensures
        match r {
            Some(text) => utc_formatted(secs, pattern@) == Some(text@),
            None => utc_formatted(secs, pattern@) is None,
        },
        match r {
            Some(text) => pattern@ == timestamp_pattern() ==> single_line(text@),
            None => true,
        },
{
    let instant = chrono::DateTime::from_timestamp(secs, 0)?;
    let mut text = String::new();
    match instant.format(pattern).write_to(&mut text) {
        Ok(()) => Some(text),
        Err(_) => None,
    }
}

/// Reads the local wall-clock time with `chrono::Local::now` and hands it out
/// as the seconds that a UTC clock showing the same date and time of day
/// would count since the Unix epoch. Trusted, with nothing stated: the
/// result depends on the clock and the time zone of the machine.
#[verifier::external_body]
fn local_clock_seconds() -> i64 {
    chrono::Local::now().naive_local().and_utc().timestamp()
}

/// The plugin's name in brackets.
pub fn get_plugname_format(name: &str) -> (r: String)
    ensures
        r@ == plugname_format(name@),
{
    proof {
        reveal_strlit("[");
        reveal_strlit("]");
    }
    let r = "[".to_owned().concat(name).concat("]");
    assert(r@ =~= plugname_format(name@));
    r
}

/// The timestamp of the wall-clock instant `secs`, to the second and without
/// time zone.
pub fn get_iso_time_at(secs: i64) -> (r: String)
    ensures
        r@ == timestamp_text(secs),
        single_line(r@),
{
    match format_utc(secs, "%Y-%m-%dT%H:%M:%S") {
        Some(text) => text,
        None => String::new(),
    }
}

/// The timestamp of the wall-clock instant `secs` in parentheses.
pub fn get_datetime_format_at(secs: i64) -> (r: String)
    ensures
        r@ == datetime_format(timestamp_text(secs)),
        single_line(timestamp_text(secs)),
        single_line(r@),
{
    proof {
        reveal_strlit("(");
        reveal_strlit(")");
    }
    let stamp = get_iso_time_at(secs);
    let r = "(".to_owned().concat(stamp.as_str()).concat(")");
    assert(r@ =~= datetime_format(timestamp_text(secs)));
    assert forall|i: int| 0 <= i < r@.len() implies #[trigger] r@[i] != '\n' by {
        if 1 <= i < 1 + stamp@.len() {
            assert(r@[i] == stamp@[i - 1]);
        }
    }
    r
}

/// The current local time in parentheses.
pub fn get_datetime_format() -> (r: String)
    ensures
        exists|secs: i64| r@ == datetime_format(timestamp_text(secs)),
        single_line(r@),
{
    let secs = local_clock_seconds();
    get_datetime_format_at(secs)
}

/// `line` in the given colour.
pub fn color_line(line: &str, color: &Color) -> (r: String)
    ensures
        r@ == colored(line@, color@),
{
    proof {
        reveal_strlit("\x1b[");
        reveal_strlit("m");
        reveal_strlit("\x1b[0m");
    }
    let r = "\x1b[".to_owned().concat(color.as_str()).concat("m").concat(line).concat("\x1b[0m");
    assert(r@ =~= colored(line@, color@));
    r
}

/// The line for `message` of plugin `plugname` at the wall-clock instant
/// `secs`.
pub fn style_line_at(plugname: &str, message: &str, secs: i64) -> (r: String)
    ensures
        r@ == styled(plugname@, timestamp_text(secs), message@),
        single_line(timestamp_text(secs)),
        single_line(plugname@) && single_line(message@) ==> single_line(r@),
{
    proof {
        reveal_strlit("\t");
    }
    let name_part = get_plugname_format(plugname);
    let dt_part = get_datetime_format_at(secs);
    let r = name_part.concat("\t").concat(dt_part.as_str()).concat("\t").concat(message);
    assert(r@ =~= styled(plugname@, timestamp_text(secs), message@));
    proof {
        if single_line(plugname@) && single_line(message@) {
            lemma_styled_line_is_single(
                plugname@,
                timestamp_text(secs),
                message@,
                Seq::<char>::empty(),
            );
        }
    }
    r
}

/// The line for `message` of plugin `plugname` at the current local time.
pub fn style_line(plugname: String, message: String) -> (r: String)
    ensures
        exists|secs: i64| r@ == styled(plugname@, timestamp_text(secs), message@),
        single_line(plugname@) && single_line(message@) ==> single_line(r@),
{
    let secs = local_clock_seconds();
    style_line_at(plugname.as_str(), message.as_str(), secs)
}

/// The decimal notation of a number holds no line feed.
proof fn lemma_decimal_is_single_line(n: nat)
    ensures
        single_line(decimal_digits(n)),
    decreases n,
{
    if n >= 10 {
        lemma_decimal_is_single_line(n / 10);
        let head = decimal_digits(n / 10);
        let all = decimal_digits(n);
        assert forall|i: int| 0 <= i < all.len() implies #[trigger] all[i] != '\n' by {
            if i < head.len() {
                assert(all[i] == head[i]);
            }
        }
    }
}

/// The escape parameters of a colour hold no line feed.
pub proof fn lemma_color_code_is_single_line(index: u8)
    ensures
        single_line(color_code(index)),
{
    lemma_decimal_is_single_line(index as nat);
    let digits = decimal_digits(index as nat);
    let code = color_code(index);
    assert forall|i: int| 0 <= i < code.len() implies #[trigger] code[i] != '\n' by {
        if i >= 5 {
            assert(code[i] == digits[i - 5]);
        }
    }
}

/// The escape parameters for palette colour `index`.
pub fn color_code_of(index: u8) -> (r: Color)
    ensures
        r@ == color_code(index),
{
    proof {
        reveal_strlit("38;5;");
    }
    let r = "38;5;".to_owned().concat(decimal_u64(index as u64).as_str());
    assert(r@ =~= color_code(index));
    r
}

/// The colours given to plugin names so far. A name gets its colour when it
/// is first seen and keeps it.
#[derive(Debug)]
pub struct Styler {
    colors: Dict<u8>,
}

impl Styler {
    /// The colour of each name seen so far.
    pub closed spec fn assigned(&self) -> Map<Seq<char>, u8> {
        self.colors@
    }

    /// Number of names seen so far.
    pub closed spec fn seen(&self) -> nat {
        self.colors.pairs().len()
    }

    #[verifier::type_invariant]
    spec fn colors_are_of_the_palette(&self) -> bool {
        forall|name: Seq<char>| #[trigger]
            self.colors@.contains_key(name) ==> PALETTE_START <= self.colors@[name] < PALETTE_END
    }

    /// A styler that has seen no name.
    pub fn new() -> (r: Styler)
        ensures
            r.assigned() == Map::<Seq<char>, u8>::empty(),
            r.seen() == 0,
    {
        Styler { colors: Dict::new() }
    }

    /// The colour of `name`: the one it has, or the next of the palette if
    /// the name is seen for the first time.
    pub fn color_of(&mut self, name: &str) -> (c: u8)
        ensures
            old(self).assigned().contains_key(name@) ==> {
                &&& c == old(self).assigned()[name@]
                &&& final(self).assigned() == old(self).assigned()
                &&& final(self).seen() == old(self).seen()
            },
            !old(self).assigned().contains_key(name@) ==> {
                &&& c == palette_color(old(self).seen())
                &&& final(self).assigned() == old(self).assigned().insert(name@, c)
                &&& final(self).seen() == old(self).seen() + 1
            },
            PALETTE_START <= c < PALETTE_END,
            final(self).assigned().contains_key(name@),
            final(self).assigned()[name@] == c,
    {
        proof {
            use_type_invariant(&*self);
        }
        let key = name.to_owned();
        match self.colors.get(&key) {
            Some(c) => *c,
            None => {
                let seen = self.colors.len();
                let c: u8 = PALETTE_START + (seen % ((PALETTE_END - PALETTE_START) as usize)) as u8;
                let mut colors: Dict<u8> = Dict::new();
                std::mem::swap(&mut self.colors, &mut colors);
                colors.insert(key, c);
                self.colors = colors;
                c
            },
        }
    }

    /// The line for `message` of plugin `plugname` at the current local
    /// time, in the plugin's colour.
    pub fn style(&mut self, plugname: &str, message: &str) -> (r: String)
        ensures
            final(self).assigned().contains_key(plugname@),
            exists|secs: i64|
                r@ == colored(
                    styled(plugname@, timestamp_text(secs), message@),
                    color_code(final(self).assigned()[plugname@]),
                ),
            old(self).assigned().contains_key(plugname@) ==> final(self).assigned()
                == old(self).assigned(),
            !old(self).assigned().contains_key(plugname@) ==> final(self).assigned()
                == old(self).assigned().insert(plugname@, palette_color(old(self).seen())),
            single_line(plugname@) && single_line(message@) ==> single_line(r@),
    {
        let secs = local_clock_seconds();
        self.style_at(plugname, message, secs)
    }

    /// The line for `message` of plugin `plugname` at the wall-clock instant
    /// `secs`, in the plugin's colour.
    pub fn style_at(&mut self, plugname: &str, message: &str, secs: i64) -> (r: String)
        ensures
            final(self).assigned().contains_key(plugname@),
            r@ == colored(
                styled(plugname@, timestamp_text(secs), message@),
                color_code(final(self).assigned()[plugname@]),
            ),
            old(self).assigned().contains_key(plugname@) ==> final(self).assigned()
                == old(self).assigned(),
            !old(self).assigned().contains_key(plugname@) ==> final(self).assigned()
                == old(self).assigned().insert(plugname@, palette_color(old(self).seen())),
            single_line(timestamp_text(secs)),
            single_line(plugname@) && single_line(message@) ==> single_line(r@),
    {
        let c = self.color_of(plugname);
        let line = style_line_at(plugname, message, secs);
        let code = color_code_of(c);
        proof {
            lemma_color_code_is_single_line(c);
            if single_line(plugname@) && single_line(message@) {
                lemma_styled_line_is_single(
                    plugname@,
                    timestamp_text(secs),
                    message@,
                    color_code(c),
                );
            }
        }
        color_line(line.as_str(), &code)
    }
}

} // verus!
