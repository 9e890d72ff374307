//! Styling sequences: a payload is cut into the pieces of text and the
//! styles between them.

use crate::pattern::{
    captures_view, names_view, regex_all_captures, regex_compiles, regex_replaced, Pattern,
};
use vstd::prelude::*;
use vstd::std_specs::iter::IteratorSpec;
use vstd::string::*;

verus! {

/// The character that starts a styling sequence.
pub const ESCAPE: char = '\x1b';

/// The pattern of one styling sequence: escape, bracket, digits, `m`.
pub open spec fn styling_sequence() -> Seq<char> {
    "(\\x1b\\[\\d+m)"@
}

/// `text` without its styling sequences.
pub open spec fn without_styling(text: Seq<char>) -> Seq<char> {
    regex_replaced(styling_sequence(), text, ""@)
}

/// The pattern texts of a decoder.
pub struct Patterns {
    pub stripper: Seq<char>,
    pub cutter: Seq<char>,
}

/// The two compiled patterns that take a payload apart: one finds the
/// styling sequences to strip, the other cuts the payload into pieces.
pub struct AnsiDecoder {
    pub stripper: Pattern,
    pub cutter: Pattern,
}

impl View for AnsiDecoder {
    type V = Patterns;

    open spec fn view(&self) -> Patterns {
        Patterns { stripper: self.stripper@, cutter: self.cutter@ }
    }
}

/// The patterns of the decoder that the library makes.
pub open spec fn standard_patterns() -> Patterns {
    Patterns { stripper: styling_sequence(), cutter: cutting_pattern() }
}

/// The patterns of the decoder that the library makes, where both of them
/// compile; where one does not, there is no decoder.
pub open spec fn standard_decoder() -> Option<Patterns> {
    if regex_compiles(styling_sequence()) && regex_compiles(cutting_pattern()) {
        Some(standard_patterns())
    } else {
        None
    }
}

/// The pattern texts of a decoder that may be missing.
pub open spec fn decoder_view(decoder: Option<&AnsiDecoder>) -> Option<Patterns> {
    match decoder {
        Some(decoder) => Some(decoder@),
        None => None,
    }
}

/// The pattern texts of a decoder that may be missing.
pub open spec fn held_decoder_view(decoder: Option<AnsiDecoder>) -> Option<Patterns> {
    match decoder {
        Some(decoder) => Some(decoder@),
        None => None,
    }
}

/// The text without styling that a decoder leaves of a payload: a payload
/// without escape is left as it is, and so is any payload where there is no
/// decoder.
pub open spec fn plain_text(raw: Seq<char>, decoder: Option<Patterns>) -> Seq<char> {
    match decoder {
        Some(patterns) => if raw.contains(ESCAPE) {
            regex_replaced(patterns.stripper, raw, ""@)
        } else {
            raw
        },
        None => raw,
    }
}

/// The pieces that a decoder cuts a payload into: none for a payload
/// without escape, and none where there is no decoder.
pub open spec fn pieces(raw: Seq<char>, decoder: Option<Patterns>) -> Option<Seq<Segment>> {
    match decoder {
        Some(patterns) => if raw.contains(ESCAPE) {
            Some(segments_of(regex_all_captures(patterns.cutter, raw)))
        } else {
            None
        },
        None => None,
    }
}

/// Whether `text` holds a styling escape.
pub fn has_ansi_escape_sequence(text: &str) -> (b: bool)
    ensures
        b == text@.contains(ESCAPE),
{
    broadcast use {vstd::string::axiom_spec_iter, vstd::string::next_postcondition};

    let mut chars = text.chars();
    let ghost mut seen: int = 0;
    loop
        invariant
            0 <= seen <= text@.len(),
            chars.remaining() == text@.skip(seen),
            forall|k: int| 0 <= k < seen ==> text@[k] != ESCAPE,
        decreases text@.len() - seen,
    {
        match chars.next() {
            Some(character) => {
                assert(character == text@.skip(seen)[0]);
                if character == ESCAPE {
                    assert(text@[seen] == ESCAPE);
                    return true;
                }
                assert(text@.skip(seen).drop_first() =~= text@.skip(seen + 1));
                proof {
                    seen = seen + 1;
                }
            },
            None => {
                assert(text@.skip(seen).len() == 0);
                return false;
            },
        }
    }
}

/// Removes the styling sequences that `matcher` finds in `text`.
pub fn strip_with(matcher: &Pattern, text: &str) -> (plain: String)
    ensures
        plain@ == regex_replaced(matcher@, text@, ""@),
{
    matcher.replace_all(text, "")
}

/// Compiles the pattern of a styling sequence: there is a matcher exactly
/// where that pattern compiles.
pub fn styling_matcher() -> (matcher: Option<Pattern>)
    ensures
        matcher is Some <==> regex_compiles(styling_sequence()),
        matcher matches Some(compiled) ==> compiled@ == styling_sequence(),
{
    // Whether the pattern compiles is for the matcher to say; a pattern
    // that it refuses leaves no matcher.
    let compiled = Pattern::new("(\\x1b\\[\\d+m)");
    Pattern::if_compiled(compiled)
}

/// Removes the styling sequences from `text`. Should the pattern of a
/// styling sequence fail to compile, the text is handed back as it is.
pub fn strip_ansi(text: &str) -> (plain: String)
    ensures
        plain@ == if regex_compiles(styling_sequence()) {
            without_styling(text@)
        } else {
            text@
        },
{
    match styling_matcher() {
        Some(matcher) => strip_with(&matcher, text),
        None => text.to_owned(),
    }
}

/// Cuts `text` into its pieces. Should the cutting pattern fail to compile,
/// there are no pieces.
pub fn to_components(text: &str) -> (cut: Option<ComponentCollection>)
    ensures
        cut is Some <==> regex_compiles(cutting_pattern()),
        cut matches Some(found) ==> found@ == segments_of(
            regex_all_captures(cutting_pattern(), text@),
        ),
{
    // The text is cut with the cutting matcher, where there is one, and
    // not at all where there is none.
    let matcher = cutting_matcher();
    ComponentCollection::cut_with(matcher.as_ref(), text)
}

impl AnsiDecoder {
    /// Compiles the two patterns. There is no decoder where one of them
    /// fails to compile.
    pub fn new() -> (decoder: Option<AnsiDecoder>)
        ensures
            held_decoder_view(decoder) == standard_decoder(),
    {
        // A decoder takes both matchers, whichever of them there are.
        let stripper = styling_matcher();
        let cutter = cutting_matcher();
        AnsiDecoder::from_matchers(stripper, cutter)
    }
}

/// A way of drawing text that is switched on and off.
#[derive(Clone, Copy, PartialEq, Eq, Debug, Structural)]
pub enum Attribute {
    Bold,
    Standout,
    Underline,
    Reverse,
    Dim,
}

/// A colour of text or of its background.
#[derive(Clone, Copy, PartialEq, Eq, Debug, Structural)]
pub enum Color {
    Black,
    Red,
    Green,
    Yellow,
    Blue,
    Magenta,
    Cyan,
    White,
    Default,
}

/// What a styling sequence asks for.
#[derive(Clone, Copy, PartialEq, Eq, Debug, Structural)]
pub enum Style {
    /// Switches an attribute on or off.
    Attribute(Attribute, bool),
    /// Sets the colour of the text, or that of the background.
    Color(Option<Color>, Option<Color>),
    /// Back to plain text.
    Reset,
}

/// A piece of a payload.
#[derive(Debug)]
pub enum Component {
    Style(Style),
    Content(String),
}

/// A piece of a payload, with its text as plain characters.
pub enum Segment {
    Style(Style),
    Content(Seq<char>),
}

/// The pieces of a payload, in their order.
#[derive(Debug)]
pub struct ComponentCollection {
    pub items: Vec<Component>,
}

/// The colour with the given number.
pub open spec fn color_for(number: int) -> Option<Color> {
    if number == 0 {
        Some(Color::Black)
    } else if number == 1 {
        Some(Color::Red)
    } else if number == 2 {
        Some(Color::Green)
    } else if number == 3 {
        Some(Color::Yellow)
    } else if number == 4 {
        Some(Color::Blue)
    } else if number == 5 {
        Some(Color::Magenta)
    } else if number == 6 {
        Some(Color::Cyan)
    } else if number == 7 {
        Some(Color::White)
    } else if number == 9 {
        Some(Color::Default)
    } else {
        None
    }
}

/// The attribute with the given number.
pub open spec fn attribute_for(number: int) -> Option<Attribute> {
    if number == 1 {
        Some(Attribute::Bold)
    } else if number == 3 {
        Some(Attribute::Standout)
    } else if number == 4 {
        Some(Attribute::Underline)
    } else if number == 7 {
        Some(Attribute::Reverse)
    } else if number == 9 {
        Some(Attribute::Dim)
    } else {
        None
    }
}

/// The attribute that the given number switches off.
pub open spec fn attribute_off_for(number: int) -> Option<Attribute> {
    if number == 22 {
        Some(Attribute::Bold)
    } else if number == 23 {
        Some(Attribute::Standout)
    } else if number == 24 {
        Some(Attribute::Underline)
    } else if number == 27 {
        Some(Attribute::Reverse)
    } else if number == 29 {
        Some(Attribute::Dim)
    } else {
        None
    }
}

/// The style that a code stands for, if it is a known one: 0 resets; 1, 3,
/// 4, 7 and 9 switch an attribute on; 22, 23, 24, 27 and 29 switch one off;
/// a colour number behind a 3 sets the colour of the text, behind a 4 that
/// of the background.
pub open spec fn style_for(code: int) -> Option<Style> {
    if code == 0 {
        Some(Style::Reset)
    } else if 1 <= code < 10 {
        match attribute_for(code) {
            Some(attribute) => Some(Style::Attribute(attribute, true)),
            None => None,
        }
    } else if 20 <= code < 30 {
        match attribute_off_for(code) {
            Some(attribute) => Some(Style::Attribute(attribute, false)),
            None => None,
        }
    } else if 30 <= code < 40 {
        match color_for(code - 30) {
            Some(color) => Some(Style::Color(Some(color), None)),
            None => None,
        }
    } else if 40 <= code < 50 {
        match color_for(code - 40) {
            Some(color) => Some(Style::Color(None, Some(color))),
            None => None,
        }
    } else {
        None
    }
}

/// The value of a decimal digit.
pub open spec fn digit_value(digit: char) -> Option<int> {
    if digit == '0' {
        Some(0)
    } else if digit == '1' {
        Some(1)
    } else if digit == '2' {
        Some(2)
    } else if digit == '3' {
        Some(3)
    } else if digit == '4' {
        Some(4)
    } else if digit == '5' {
        Some(5)
    } else if digit == '6' {
        Some(6)
    } else if digit == '7' {
        Some(7)
    } else if digit == '8' {
        Some(8)
    } else if digit == '9' {
        Some(9)
    } else {
        None
    }
}

/// The code of a styling sequence: the number between the escape with its
/// bracket and the closing `m`, where it is written with one digit, or with
/// two of which the first is not 0. Nothing else bears a code.
pub open spec fn code_of(sequence: Seq<char>) -> Option<int> {
    if sequence.len() == 4 && sequence[0] == '\x1b' && sequence[1] == '[' && sequence[3] == 'm' {
        digit_value(sequence[2])
    } else if sequence.len() == 5 && sequence[0] == '\x1b' && sequence[1] == '['
        && sequence[4] == 'm' {
        match (digit_value(sequence[2]), digit_value(sequence[3])) {
            (Some(tens), Some(ones)) if tens != 0 => Some(10 * tens + ones),
            _ => None,
        }
    } else {
        None
    }
}

/// The style that a styling sequence asks for, if it is a known one.
pub open spec fn style_of(sequence: Seq<char>) -> Option<Style> {
    match code_of(sequence) {
        Some(code) => style_for(code),
        None => None,
    }
}

/// The pieces that one match of the cutting pattern stands for: the style of
/// its first group, where that is a known styling sequence, and then the
/// text of its second group, where it has one.
pub open spec fn segments_of_match(groups: Seq<Option<Seq<char>>>) -> Seq<Segment> {
    (if groups.len() > 1 && groups[1] is Some && style_of(groups[1]->0) is Some {
        seq![Segment::Style(style_of(groups[1]->0)->0)]
    } else {
        Seq::empty()
    }) + (if groups.len() > 2 && groups[2] is Some {
        seq![Segment::Content(groups[2]->0)]
    } else {
        Seq::empty()
    })
}

/// The pieces that the matches of the cutting pattern stand for.
pub open spec fn segments_of(captures: Seq<Seq<Option<Seq<char>>>>) -> Seq<Segment>
    decreases captures.len(),
{
    if captures.len() == 0 {
        Seq::empty()
    } else {
        segments_of(captures.drop_last()) + segments_of_match(captures.last())
    }
}

/// The pattern that cuts a payload: a styling sequence, or a stretch
/// without escape.
pub open spec fn cutting_pattern() -> Seq<char> {
    "(\\x1b\\[\\d+m)|([^\\x1b]*)"@
}

impl Component {
    /// The piece with its text as plain characters.
    pub open spec fn segment(self) -> Segment {
        match self {
            Component::Style(style) => Segment::Style(style),
            Component::Content(content) => Segment::Content(content@),
        }
    }
}

impl View for ComponentCollection {
    type V = Seq<Segment>;

    open spec fn view(&self) -> Seq<Segment> {
        Seq::new(self.items@.len(), |i: int| self.items@[i].segment())
    }
}

impl Color {
    /// The colour with the given number.
    pub fn from_number(number: u8) -> (color: Option<Color>)
        ensures
            color == color_for(number as int),
    {
        match number {
            0 => Some(Color::Black),
            1 => Some(Color::Red),
            2 => Some(Color::Green),
            3 => Some(Color::Yellow),
            4 => Some(Color::Blue),
            5 => Some(Color::Magenta),
            6 => Some(Color::Cyan),
            7 => Some(Color::White),
            9 => Some(Color::Default),
            _ => None,
        }
    }
}

impl Attribute {
    /// The attribute with the given number.
    pub fn from_number(number: u8) -> (attribute: Option<Attribute>)
        ensures
            attribute == attribute_for(number as int),
    {
        match number {
            1 => Some(Attribute::Bold),
            3 => Some(Attribute::Standout),
            4 => Some(Attribute::Underline),
            7 => Some(Attribute::Reverse),
            9 => Some(Attribute::Dim),
            _ => None,
        }
    }
}

impl Attribute {
    /// The attribute that the given number switches off.
    pub fn off_from_number(number: u8) -> (attribute: Option<Attribute>)
        ensures
            attribute == attribute_off_for(number as int),
    {
        match number {
            22 => Some(Attribute::Bold),
            23 => Some(Attribute::Standout),
            24 => Some(Attribute::Underline),
            27 => Some(Attribute::Reverse),
            29 => Some(Attribute::Dim),
            _ => None,
        }
    }
}

impl Style {
    /// The style that a code stands for, if it is a known one.
    pub fn from_code(code: u8) -> (style: Option<Style>)
        ensures
            style == style_for(code as int),
    {
        if code == 0 {
            Some(Style::Reset)
        } else if code < 10 {
            match Attribute::from_number(code) {
                Some(attribute) => Some(Style::Attribute(attribute, true)),
                None => None,
            }
        } else if code < 20 {
            None
        } else if code < 30 {
            match Attribute::off_from_number(code) {
                Some(attribute) => Some(Style::Attribute(attribute, false)),
                None => None,
            }
        } else if code < 40 {
            match Color::from_number(code - 30) {
                Some(color) => Some(Style::Color(Some(color), None)),
                None => None,
            }
        } else if code < 50 {
            match Color::from_number(code - 40) {
                Some(color) => Some(Style::Color(None, Some(color))),
                None => None,
            }
        } else {
            None
        }
    }

    /// The style that a styling sequence asks for, if it is a known one.
    pub fn from_sequence(sequence: &str) -> (style: Option<Style>)
        ensures
            style == style_of(sequence@),
    {
        match sequence_code(sequence) {
            Some(code) => Style::from_code(code),
            None => None,
        }
    }
}

/// The value of a decimal digit.
pub fn digit(character: char) -> (value: Option<u8>)
    ensures
        value.is_some() == digit_value(character).is_some(),
        value matches Some(number) ==> digit_value(character) == Some(number as int),
{
    match character {
        '0' => Some(0),
        '1' => Some(1),
        '2' => Some(2),
        '3' => Some(3),
        '4' => Some(4),
        '5' => Some(5),
        '6' => Some(6),
        '7' => Some(7),
        '8' => Some(8),
        '9' => Some(9),
        _ => None,
    }
}

/// The code of a styling sequence.
pub fn sequence_code(sequence: &str) -> (code: Option<u8>)
    ensures
        code.is_some() == code_of(sequence@).is_some(),
        code matches Some(number) ==> code_of(sequence@) == Some(number as int),
{
    let len = sequence.unicode_len();
    if len != 4 && len != 5 {
        return None;
    }
    if sequence.get_char(0) != '\x1b' || sequence.get_char(1) != '[' || sequence.get_char(len - 1)
        != 'm' {
        return None;
    }
    if len == 4 {
        digit(sequence.get_char(2))
    } else {
        match (digit(sequence.get_char(2)), digit(sequence.get_char(3))) {
            (Some(tens), Some(ones)) => if tens != 0 {
                Some(10 * tens + ones)
            } else {
                None
            },
            _ => None,
        }
    }
}

/// Compiles the pattern that cuts a payload: there is a matcher exactly
/// where that pattern compiles.
pub fn cutting_matcher() -> (matcher: Option<Pattern>)
    ensures
        matcher is Some <==> regex_compiles(cutting_pattern()),
        matcher matches Some(compiled) ==> compiled@ == cutting_pattern(),
{
    // Whether the pattern compiles is for the matcher to say; a pattern
    // that it refuses leaves no matcher.
    let compiled = Pattern::new("(\\x1b\\[\\d+m)|([^\\x1b]*)");
    Pattern::if_compiled(compiled)
}

impl ComponentCollection {
    /// No pieces.
    pub fn new() -> (pieces: ComponentCollection)
        ensures
            pieces@.len() == 0,
    {
        ComponentCollection { items: Vec::new() }
    }

    /// Puts a piece behind the others.
    pub fn push(&mut self, item: Component)
        ensures
            final(self)@ == old(self)@.push(item.segment()),
    {
        self.items.push(item);
    }

    /// The pieces that the matches of the cutting pattern stand for: for
    /// each match, the style of its first group, where that is a known
    /// styling sequence, and the text of its second group, where it has
    /// one.
    pub fn from_captures(captures: &Vec<Vec<Option<String>>>) -> (pieces: ComponentCollection)
        ensures
            pieces@ == segments_of(captures_view(captures@)),
    {
        let mut pieces = ComponentCollection::new();
        let ghost all = captures_view(captures@);
        let mut i: usize = 0;
        while i < captures.len()
            invariant
                i <= captures@.len(),
                all == captures_view(captures@),
                pieces@ == segments_of(all.take(i as int)),
            decreases captures@.len() - i,
        {
            let groups = &captures[i];
            let ghost before = pieces@;
            let ghost parts = names_view(groups@);
            assert(all.take(i + 1).drop_last() =~= all.take(i as int));
            if groups.len() > 1 {
                match &groups[1] {
                    Some(sequence) => match Style::from_sequence(sequence.as_str()) {
                        Some(style) => pieces.push(Component::Style(style)),
                        None => {},
                    },
                    None => {},
                }
            }
            if groups.len() > 2 {
                match &groups[2] {
                    Some(content) => pieces.push(Component::Content(content.clone())),
                    None => {},
                }
            }
            assert(pieces@ =~= before + segments_of_match(parts));
            i += 1;
        }
        assert(all.take(captures@.len() as int) =~= all);
        pieces
    }

    /// Cuts a payload into its pieces with a given cutting matcher.
    pub fn from_string(matcher: &Pattern, value: &str) -> (pieces: ComponentCollection)
        ensures
            pieces@ == segments_of(regex_all_captures(matcher@, value@)),
    {
        let captures = matcher.captures_iter(value);
        ComponentCollection::from_captures(&captures)
    }
}

impl AnsiDecoder {
    /// The decoder made of the two matchers, where both are there; without
    /// one of them there is no decoder.
    pub fn from_matchers(stripper: Option<Pattern>, cutter: Option<Pattern>) -> (decoder: Option<
        AnsiDecoder,
    >)
        ensures
            decoder is Some <==> (stripper is Some && cutter is Some),
            decoder matches Some(made) ==> (made.stripper == stripper->0 && made.cutter
                == cutter->0),
    {
        match (stripper, cutter) {
            (Some(stripper), Some(cutter)) => Some(AnsiDecoder { stripper, cutter }),
            _ => None,
        }
    }
}

impl ComponentCollection {
    /// Cuts a payload into its pieces with the cutting matcher given, where
    /// one is given; without a matcher there are no pieces.
    pub fn cut_with(matcher: Option<&Pattern>, value: &str) -> (cut: Option<ComponentCollection>)
        ensures
            match (cut, matcher) {
                (Some(found), Some(pattern)) => found@ == segments_of(
                    regex_all_captures(pattern@, value@),
                ),
                (None, None) => true,
                _ => false,
            },
    {
        match matcher {
            Some(pattern) => Some(ComponentCollection::from_string(pattern, value)),
            None => None,
        }
    }
}

} // verus!
