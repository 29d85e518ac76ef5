//! The command surface: the colour pair and the window flags, read from
//! the arguments of the command line.

use vstd::prelude::*;
use vstd::slice::slice_subrange;
use crate::numeral::chars_of;
use crate::numeral::pad_left;
use crate::numeral::parse_radix;
use crate::numeral::parse_unsigned;
use crate::numeral::push_padded_upper_hex;
use crate::numeral::upper_hex;

verus! {

/// A background and foreground colour, `0xRRGGBB` each, and the name of the
/// pair where it has one.
#[derive(Debug, Clone, Copy)]
pub struct Color {
    pub background: u32,
    pub foreground: u32,
    pub name: Option<&'static str>,
}

/// The number of colour presets.
pub const PRESET_COUNT: usize = 12;

/// The background colours of the presets.
pub const PRESET_BACKGROUNDS: [u32; 12] = [
    0xFF0000,
    0xFF8000,
    0xFFFF00,
    0x00FF80,
    0x00FF00,
    0x00B300,
    0x00FFFF,
    0x0000FF,
    0x0000B3,
    0x8000FF,
    0xFF00FF,
    0xE6003A,
];

/// The names of the presets.
pub const PRESET_NAMES: [&'static str; 12] = [
    "Red",
    "Orange",
    "Yellow",
    "Light green",
    "Green",
    "Dark green",
    "Cyan",
    "Blue",
    "Dark blue",
    "Purpleish blue",
    "Purple",
    "Pink",
];

/// The preset at `index`: its background with a black foreground, under
/// its name.
pub open spec fn preset_color(index: int) -> Color
    recommends
        0 <= index < 12,
{
    Color { background: PRESET_BACKGROUNDS[index], foreground: 0, name: Some(PRESET_NAMES[index]) }
}

/// The text that stands for a colour pair: its name, or `#` and its
/// background in upper-case hexadecimal, six digits at least.
pub open spec fn color_label(color: Color) -> Seq<char> {
    match color.name {
        Some(name) => name@,
        None => seq!['#'] + pad_left(upper_hex(color.background as nat), 6, '0'),
    }
}

impl Color {
    /// A colour pair from its two `0xRRGGBB` values and its name.
    pub fn new_hex(background: u32, foreground: u32, name: Option<&'static str>) -> (color: Color)
        ensures
            color == (Color { background, foreground, name }),
    {
        Color { background, foreground, name }
    }

    /// The preset that `index` picks, counted round the presets.
    pub fn preset(index: usize) -> (color: Color)
        ensures
            color == preset_color(index as int % 12),
    {
        let at = index % PRESET_COUNT;
        Color::new_hex(PRESET_BACKGROUNDS[at], 0x000000, Some(PRESET_NAMES[at]))
    }

    /// The text that stands for the colour pair.
    pub fn label(&self) -> (text: String)
        ensures
            text@ == color_label(*self),
    {
        match self.name {
            Some(name) => String::from_str(name),
            None => {
                let mut text = String::new();
                text.push('#');
                push_padded_upper_hex(&mut text, self.background, 6);
                assert(text@ =~= color_label(*self));
                text
            },
        }
    }
}

/// The window flags and the colour pair that the command line settles on.
#[derive(Debug)]
pub struct CliArgs {
    pub color: Color,
    pub borderless: bool,
    pub title: bool,
    pub resize: bool,
    pub topmost: bool,
    pub title_override: Option<String>,
}

/// What an argument that begins with a dash asks for.
#[derive(Clone, Copy, Debug, PartialEq, Eq, Structural)]
pub enum CliOption {
    /// `-b` or `--borderless`.
    Borderless,
    /// `--no-title`.
    NoTitle,
    /// `-r` or `--resize`.
    Resize,
    /// `--top`.
    Topmost,
    /// `-t` or `--title`, which takes the next argument as the title.
    Title,
    /// `-h` or `--help`.
    Help,
    /// Anything else.
    Unknown,
}

/// What was read from the arguments: the colour that the last colour
/// argument gave, the flags, and what has to be reported: that help was
/// asked for, and the options that were not recognized, in their order.
#[derive(Debug)]
pub struct CliRequest {
    pub color: Option<Color>,
    pub borderless: bool,
    pub title: bool,
    pub resize: bool,
    pub topmost: bool,
    pub title_override: Option<String>,
    pub help: bool,
    pub unrecognized: Vec<String>,
}

/// A `CliRequest` with its texts as sequences of characters.
pub struct CliRequestView {
    pub color: Option<Color>,
    pub borderless: bool,
    pub title: bool,
    pub resize: bool,
    pub topmost: bool,
    pub title_override: Option<Seq<char>>,
    pub help: bool,
    pub unrecognized: Seq<Seq<char>>,
}

/// The characters of each text of a list.
pub open spec fn texts(list: Seq<String>) -> Seq<Seq<char>> {
    Seq::new(list.len(), |i: int| list[i]@)
}

impl View for CliRequest {
    type V = CliRequestView;

    open spec fn view(&self) -> CliRequestView {
        CliRequestView {
            color: self.color,
            borderless: self.borderless,
            title: self.title,
            resize: self.resize,
            topmost: self.topmost,
            title_override: match self.title_override {
                Some(title) => Some(title@),
                None => None,
            },
            help: self.help,
            unrecognized: texts(self.unrecognized@),
        }
    }
}

/// What the option `arg` asks for.
pub open spec fn classify(arg: Seq<char>) -> CliOption {
    if arg == "-b"@ || arg == "--borderless"@ {
        CliOption::Borderless
    } else if arg == "--no-title"@ {
        CliOption::NoTitle
    } else if arg == "-r"@ || arg == "--resize"@ {
        CliOption::Resize
    } else if arg == "--top"@ {
        CliOption::Topmost
    } else if arg == "-t"@ || arg == "--title"@ {
        CliOption::Title
    } else if arg == "-h"@ || arg == "--help"@ {
        CliOption::Help
    } else {
        CliOption::Unknown
    }
}

/// The colour that a colour argument gives: after `#`, the background in
/// hexadecimal on black and without a name; otherwise the preset that the
/// decimal number picks, counted round the presets. An argument that
/// writes no such number gives no colour.
pub open spec fn color_of(arg: Seq<char>) -> Option<Color> {
    if arg.len() > 0 && arg[0] == '#' {
        match parse_unsigned(arg.skip(1), 16, u32::MAX as nat) {
            Some(background) => Some(
                Color { background: background as u32, foreground: 0, name: None },
            ),
            None => None,
        }
    } else {
        match parse_unsigned(arg, 10, usize::MAX as nat) {
            Some(index) => Some(preset_color(index as int % 12)),
            None => None,
        }
    }
}

/// The request before any argument is read: no colour, a title bar, and
/// no other flag.
pub open spec fn initial_request() -> CliRequestView {
    CliRequestView {
        color: None,
        borderless: false,
        title: true,
        resize: false,
        topmost: false,
        title_override: None,
        help: false,
        unrecognized: Seq::empty(),
    }
}

/// The request that reading the arguments from `at` onwards makes of
/// `request`. An argument that begins with a dash is an option; any other
/// is a colour and replaces the colour read before. The title option
/// takes the argument after it, whatever that is, and takes the title
/// away where none follows. The help option ends the reading.
pub open spec fn parse_from(args: Seq<Seq<char>>, at: int, request: CliRequestView) -> CliRequestView
    decreases args.len() + 1 - at,
{
    if at < 0 || at >= args.len() {
        request
    } else if is_option(args[at]) {
        match classify(args[at]) {
            CliOption::Borderless => parse_from(
                args,
                at + 1,
                CliRequestView { borderless: true, ..request },
            ),
            CliOption::NoTitle => parse_from(args, at + 1, CliRequestView { title: false, ..request }),
            CliOption::Resize => parse_from(args, at + 1, CliRequestView { resize: true, ..request }),
            CliOption::Topmost => parse_from(
                args,
                at + 1,
                CliRequestView { topmost: true, ..request },
            ),
            CliOption::Title => parse_from(
                args,
                at + 2,
                CliRequestView {
                    title_override: if at + 1 < args.len() {
                        Some(args[at + 1])
                    } else {
                        None
                    },
                    ..request
                },
            ),
            CliOption::Help => CliRequestView { help: true, ..request },
            CliOption::Unknown => parse_from(
                args,
                at + 1,
                CliRequestView { unrecognized: request.unrecognized.push(args[at]), ..request },
            ),
        }
    } else {
        parse_from(args, at + 1, CliRequestView { color: color_of(args[at]), ..request })
    }
}

/// Whether `arg` holds the characters of `text`.
fn is_text(arg: &Vec<char>, text: &str) -> (same: bool)
    ensures
        same == (arg@ == text@),
{
    let mut i: usize = 0;
    for ch in it: text.chars()
        invariant
            it.seq() == text@,
            i == it.index(),
            i <= arg@.len(),
            forall|j: int| 0 <= j < i ==> arg@[j] == text@[j],
    {
        if i >= arg.len() || arg[i] != ch {
            return false;
        }
        i += 1;
    }
    if i != arg.len() {
        return false;
    }
    assert(arg@ =~= text@);
    true
}

/// What the option `arg` asks for.
pub fn classify_option(arg: &str) -> (option: CliOption)
    ensures
        option == classify(arg@),
{
    let chars = chars_of(arg);
    if is_text(&chars, "-b") || is_text(&chars, "--borderless") {
        CliOption::Borderless
    } else if is_text(&chars, "--no-title") {
        CliOption::NoTitle
    } else if is_text(&chars, "-r") || is_text(&chars, "--resize") {
        CliOption::Resize
    } else if is_text(&chars, "--top") {
        CliOption::Topmost
    } else if is_text(&chars, "-t") || is_text(&chars, "--title") {
        CliOption::Title
    } else if is_text(&chars, "-h") || is_text(&chars, "--help") {
        CliOption::Help
    } else {
        CliOption::Unknown
    }
}

/// Whether `arg` is an option: it begins with a dash.
pub open spec fn is_option(arg: Seq<char>) -> bool {
    arg.len() > 0 && arg[0] == '-'
}

/// Whether `arg` is an option.
pub fn begins_with_dash(arg: &str) -> (dash: bool)
    ensures
        dash == is_option(arg@),
{
    let mut chars = arg.chars();
    proof {
        broadcast use vstd::string::group_string_axioms;
    }
    match chars.next() {
        Some(first) => first == '-',
        None => false,
    }
}

/// The colour that a colour argument gives.
pub fn parse_color(arg: &str) -> (color: Option<Color>)
    ensures
        color == color_of(arg@),
{
    let chars = chars_of(arg);
    let len = chars.len();
    if len > 0 && chars[0] == '#' {
        let digits = slice_subrange(chars.as_slice(), 1, len);
        assert(digits@ =~= arg@.skip(1));
        match parse_radix(digits, 16, u32::MAX as u64) {
            Some(background) => Some(Color::new_hex(background as u32, 0x000000, None)),
            None => None,
        }
    } else {
        match parse_radix(chars.as_slice(), 10, usize::MAX as u64) {
            Some(index) => Some(Color::preset(index as usize)),
            None => None,
        }
    }
}

/// Reads the arguments of the command line, the name of the program left
/// out.
pub fn parse_args(args: &Vec<String>) -> (request: CliRequest)
    ensures
        request@ == parse_from(texts(args@), 0, initial_request()),
{
    let mut request = CliRequest {
        color: None,
        borderless: false,
        title: true,
        resize: false,
        topmost: false,
        title_override: None,
        help: false,
        unrecognized: Vec::new(),
    };
    let ghost all = texts(args@);
    let ghost answer = parse_from(all, 0, initial_request());
    assert(request@.unrecognized =~= Seq::<Seq<char>>::empty());
    let mut at: usize = 0;
    while at < args.len()
        invariant
            at <= args@.len(),
            all == texts(args@),
            answer == parse_from(all, 0, initial_request()),
            !request.help,
            parse_from(all, at as int, request@) == answer,
        decreases args@.len() - at,
    {
        let current = args[at].as_str();
        let ghost before = request@;
        assert(all[at as int] == current@);
        if begins_with_dash(current) {
            match classify_option(current) {
                CliOption::Borderless => {
                    request.borderless = true;
                },
                CliOption::NoTitle => {
                    request.title = false;
                },
                CliOption::Resize => {
                    request.resize = true;
                },
                CliOption::Topmost => {
                    request.topmost = true;
                },
                CliOption::Title => {
                    if at + 1 < args.len() {
                        assert(all[at + 1] == args@[at + 1]@);
                        request.title_override = Some(args[at + 1].clone());
                        at += 1;
                    } else {
                        request.title_override = None;
                        assert(parse_from(all, at + 2, request@) == request@);
                    }
                },
                CliOption::Help => {
                    request.help = true;
                    assert(request@ == (CliRequestView { help: true, ..before }));
                    return request;
                },
                CliOption::Unknown => {
                    request.unrecognized.push(args[at].clone());
                    assert(request@.unrecognized =~= before.unrecognized.push(current@));
                },
            }
        } else {
            request.color = parse_color(current);
        }
        at += 1;
    }
    request
}

/// The preset that the clock picks where the arguments name no colour.
pub open spec fn clock_index(seconds: u64, microseconds: u128) -> int {
    (seconds % 12 + (microseconds % 0x1_0000_0000_0000_0000) % 12) % 12
}

/// The colour that a request settles on: the colour it names, or else the
/// preset that the clock picks.
pub open spec fn settled_color(request: CliRequestView, seconds: u64, microseconds: u128) -> Color {
    match request.color {
        Some(color) => color,
        None => preset_color(clock_index(seconds, microseconds)),
    }
}

/// Settles a request into the flags and the colour pair. `seconds` and
/// `microseconds` are the time since the epoch, in the two units.
pub fn settle(request: CliRequest, seconds: u64, microseconds: u128) -> (args: CliArgs)
    ensures
        args.color == settled_color(request@, seconds, microseconds),
        args.borderless == request.borderless,
        args.title == request.title,
        args.resize == request.resize,
        args.topmost == request.topmost,
        args.title_override == request.title_override,
{
    let color = match request.color {
        Some(color) => color,
        None => {
            let md: u64 = PRESET_COUNT as u64;
            let low: u64 = #[verifier::truncate]
            (microseconds as u64);
            assert(low == microseconds % 0x1_0000_0000_0000_0000) by (bit_vector)
                requires
                    low == microseconds as u64,
            ;
            let index = (seconds % md + low % md) % md;
            Color::preset(index as usize)
        },
    };
    CliArgs {
        color,
        borderless: request.borderless,
        title: request.title,
        resize: request.resize,
        topmost: request.topmost,
        title_override: request.title_override,
    }
}

} // verus!
