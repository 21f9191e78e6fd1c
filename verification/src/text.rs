//! The formatter of one text: a cell of a table, or a text of several
//! lines.
//!
//! A text is shown either as a number or as plain text. Whether it is a
//! number is not decided here: the caller reads the text that
//! `TextFormatter::normalized` hands out as a number and passes the
//! reading in (see the `number` module).
use crate::chars::{
    clean_chars, cleaned, slice, to_chars, to_text, trim, trimmed, upper_str, uppercased,
};
use crate::frame::{
    center_chars, center_text, left_chars, left_text, right_chars, right_text, truncate_lines,
    truncate_text, wrap_lines, wrap_text,
};
use crate::number::{format_number, normalize, normalized, number_text};
use crate::width::{cells, width_of};
use vstd::prelude::*;
use vstd::string::StringExecFns;

verus! {

/// How a text that is too wide is made to fit.
#[allow(non_camel_case_types)]
#[derive(Clone, Copy, Debug, PartialEq, Eq, Structural)]
pub enum Frame {
    /// Cut the end of the text off.
    TRUNCATE,
    /// Wrap the text onto several lines.
    WRAP,
    /// Leave the text as it is.
    NONE,
}

impl Default for Frame {
    fn default() -> (r: Self)
        ensures
            r == Frame::TRUNCATE,
    {
        Frame::TRUNCATE
    }
}

impl Frame {
    /// The name of the frame.
    pub open spec fn name_of(self) -> Seq<char> {
        match self {
            Frame::TRUNCATE => "TRUNCATE"@,
            Frame::WRAP => "WRAP"@,
            Frame::NONE => "NONE"@,
        }
    }

    /// The frame whose name `u` is.
    pub open spec fn of_upper(u: Seq<char>) -> Option<Frame> {
        if u == "TRUNCATE"@ {
            Some(Frame::TRUNCATE)
        } else if u == "WRAP"@ {
            Some(Frame::WRAP)
        } else if u == "NONE"@ {
            Some(Frame::NONE)
        } else {
            None
        }
    }

    /// The frame that `s` names, whatever the case of its letters: the
    /// frame whose name the upper-case form of `s` is.
    pub open spec fn named(s: Seq<char>) -> Option<Frame> {
        Frame::of_upper(uppercased(s))
    }

    /// The name of the frame: `TRUNCATE`, `WRAP` or `NONE`.
    pub fn name(&self) -> (r: String)
        ensures
            r@ == self.name_of(),
    {
        match self {
            Frame::TRUNCATE => String::from_str("TRUNCATE"),
            Frame::WRAP => String::from_str("WRAP"),
            Frame::NONE => String::from_str("NONE"),
        }
    }

    /// The frame whose name `upper` is; else the message that rejects
    /// `text`, the text that `upper` is the upper-case form of.
    pub fn from_upper(upper: &str, text: &str) -> (r: Result<Frame, String>)
        ensures
            match r {
                Ok(frame) => Frame::of_upper(upper@) == Some(frame),
                Err(e) => Frame::of_upper(upper@) is None && e@ == "Invalid frame type: "@
                    + text@,
            },
    {
        let u = String::from_str(upper);
        if u == String::from_str("TRUNCATE") {
            Ok(Frame::TRUNCATE)
        } else if u == String::from_str("WRAP") {
            Ok(Frame::WRAP)
        } else if u == String::from_str("NONE") {
            Ok(Frame::NONE)
        } else {
            Err(rejected("Invalid frame type: ", text))
        }
    }

    /// The frame that `text` names, whatever the case of its letters; any
    /// other text is rejected with a message that holds it.
    pub fn from_name(text: &str) -> (r: Result<Frame, String>)
        ensures
            match r {
                Ok(frame) => Frame::named(text@) == Some(frame),
                Err(e) => Frame::named(text@) is None && e@ == "Invalid frame type: "@ + text@,
            },
    {
        let u = upper_str(text);
        Frame::from_upper(u.as_str(), text)
    }
}

impl std::str::FromStr for Frame {
    type Err = String;

    fn from_str(text: &str) -> (r: Result<Frame, String>)
        ensures
            match r {
                Ok(frame) => Frame::named(text@) == Some(frame),
                Err(e) => Frame::named(text@) is None && e@ == "Invalid frame type: "@ + text@,
            },
    {
        Frame::from_name(text)
    }
}

/// A message that rejects `text`: what is wrong, then the text.
fn rejected(what: &str, text: &str) -> (r: String)
    ensures
        r@ == what@ + text@,
{
    let mut e = String::from_str(what);
    e.append(text);
    e
}

/// On which side of its column a text stands.
#[allow(non_camel_case_types)]
#[derive(Clone, Copy, Debug, PartialEq, Eq, Structural)]
pub enum Alignment {
    /// Numbers on the right, other texts on the left.
    AUTO,
    /// In the middle.
    CENTER,
    /// On the left.
    LEFT,
    /// On the right.
    RIGHT,
}

impl Alignment {
    /// The name of the alignment.
    pub open spec fn name_of(self) -> Seq<char> {
        match self {
            Alignment::AUTO => "AUTO"@,
            Alignment::CENTER => "CENTER"@,
            Alignment::LEFT => "LEFT"@,
            Alignment::RIGHT => "RIGHT"@,
        }
    }

    /// The alignment whose name `u` is.
    pub open spec fn of_upper(u: Seq<char>) -> Option<Alignment> {
        if u == "AUTO"@ {
            Some(Alignment::AUTO)
        } else if u == "CENTER"@ {
            Some(Alignment::CENTER)
        } else if u == "LEFT"@ {
            Some(Alignment::LEFT)
        } else if u == "RIGHT"@ {
            Some(Alignment::RIGHT)
        } else {
            None
        }
    }

    /// The alignment that `s` names, whatever the case of its letters: the
    /// alignment whose name the upper-case form of `s` is.
    pub open spec fn named(s: Seq<char>) -> Option<Alignment> {
        Alignment::of_upper(uppercased(s))
    }

    /// The name of the alignment: `AUTO`, `CENTER`, `LEFT` or `RIGHT`.
    pub fn name(&self) -> (r: String)
        ensures
            r@ == self.name_of(),
    {
        match self {
            Alignment::AUTO => String::from_str("AUTO"),
            Alignment::CENTER => String::from_str("CENTER"),
            Alignment::LEFT => String::from_str("LEFT"),
            Alignment::RIGHT => String::from_str("RIGHT"),
        }
    }

    /// The alignment whose name `upper` is; else the message that rejects
    /// `text`, the text that `upper` is the upper-case form of. The
    /// message begins as the one that rejects the name of a frame.
    pub fn from_upper(upper: &str, text: &str) -> (r: Result<Alignment, String>)
        ensures
            match r {
                Ok(alignment) => Alignment::of_upper(upper@) == Some(alignment),
                Err(e) => Alignment::of_upper(upper@) is None && e@ == "Invalid frame type: "@
                    + text@,
            },
    {
        let u = String::from_str(upper);
        if u == String::from_str("AUTO") {
            Ok(Alignment::AUTO)
        } else if u == String::from_str("CENTER") {
            Ok(Alignment::CENTER)
        } else if u == String::from_str("LEFT") {
            Ok(Alignment::LEFT)
        } else if u == String::from_str("RIGHT") {
            Ok(Alignment::RIGHT)
        } else {
            Err(rejected("Invalid frame type: ", text))
        }
    }

    /// The alignment that `text` names, whatever the case of its letters;
    /// any other text is rejected with a message that holds it.
    pub fn from_name(text: &str) -> (r: Result<Alignment, String>)
        ensures
            match r {
                Ok(alignment) => Alignment::named(text@) == Some(alignment),
                Err(e) => Alignment::named(text@) is None && e@ == "Invalid frame type: "@
                    + text@,
            },
    {
        let u = upper_str(text);
        Alignment::from_upper(u.as_str(), text)
    }
}

impl std::str::FromStr for Alignment {
    type Err = String;

    fn from_str(text: &str) -> (r: Result<Alignment, String>)
        ensures
            match r {
                Ok(alignment) => Alignment::named(text@) == Some(alignment),
                Err(e) => Alignment::named(text@) is None && e@ == "Invalid frame type: "@
                    + text@,
            },
    {
        Alignment::from_name(text)
    }
}

/// The width of a formatter that was given none.
pub const DEFAULT_WIDTH: usize = 48;

/// The number of decimal places of a formatter that was given none.
pub const DEFAULT_DECIMAL_DIGITS: usize = 2;

/// The view of a reading: the rendering of the number, where there is one.
pub open spec fn reading_view(reading: Option<&str>) -> Option<Seq<char>> {
    match reading {
        Some(r) => Some(r@),
        None => None,
    }
}

/// The view of a text that may be missing; a missing text is empty.
pub open spec fn text_view(text: Option<&str>) -> Seq<char> {
    match text {
        Some(t) => t@,
        None => Seq::empty(),
    }
}

/// The text fitted into `width` columns by the rule of `frame`.
pub open spec fn framed_text(
    s: Seq<char>,
    frame: Frame,
    width: usize,
    use_ellipsis: bool,
) -> Seq<char> {
    match frame {
        Frame::TRUNCATE => truncate_text(s, width as nat, use_ellipsis),
        Frame::WRAP => wrap_text(s, width),
        Frame::NONE => s,
    }
}

/// The text aligned by the rule of `alignment`. Under `AUTO` a number is
/// aligned to the right and any other text is left as it is.
pub open spec fn aligned_text(
    s: Seq<char>,
    alignment: Alignment,
    width: usize,
    numeric: bool,
) -> Seq<char> {
    match alignment {
        Alignment::AUTO => if numeric {
            right_text(s, width as nat)
        } else {
            s
        },
        Alignment::LEFT => left_text(s),
        Alignment::RIGHT => right_text(s, width as nat),
        Alignment::CENTER => center_text(s, width as nat),
    }
}

/// The characters of `v` aligned by the rule of `alignment`.
pub fn align_chars(v: &Vec<char>, alignment: Alignment, width: usize, numeric: bool) -> (r: Vec<
    char,
>)
    ensures
        r@ == aligned_text(v@, alignment, width, numeric),
{
    match alignment {
        Alignment::AUTO => if numeric {
            right_chars(v, width)
        } else {
            slice(v, 0, v.len())
        },
        Alignment::LEFT => left_chars(v),
        Alignment::RIGHT => right_chars(v, width),
        Alignment::CENTER => center_chars(v, width),
    }
}

/// A text as it is shown: as a number where `reading` holds one, grouped,
/// with the decimal separator and aligned; else framed and aligned.
pub open spec fn shown_text(
    plain: Seq<char>,
    reading: Option<Seq<char>>,
    width: usize,
    frame: Frame,
    use_ellipsis: bool,
    group: bool,
    thousand: char,
    decimal: char,
    alignment: Alignment,
) -> Seq<char> {
    match reading {
        Some(rendered) => aligned_text(
            number_text(rendered, group, thousand, decimal),
            alignment,
            width,
            true,
        ),
        None => aligned_text(
            framed_text(plain, frame, width, use_ellipsis),
            alignment,
            width,
            false,
        ),
    }
}

/// One text with the settings by which it is shown.
#[derive(Clone, Debug)]
pub struct TextFormatter {
    /// The text; after an operation, its result.
    pub text: Option<String>,
    /// The width, in columns, into which the text is fitted.
    pub width: usize,
    /// How a text that is too wide is made to fit.
    pub frame: Frame,
    /// Whether a truncated text is left without the ellipsis.
    pub no_ellipsis: bool,
    /// Whether a number is rendered with a fixed number of decimal places.
    /// This is for the one who reads the numbers: the rendering is part of
    /// a reading.
    pub pad_decimal_digits: bool,
    /// That number of decimal places.
    pub max_decimal_digits: usize,
    /// The character that separates the whole part from the fraction.
    pub decimal_separator: char,
    /// Whether the digits of the whole part stand in groups of three.
    pub use_thousand_separator: bool,
    /// The character between those groups.
    pub thousand_separator: char,
    /// On which side the text stands.
    pub alignment: Alignment,
    /// Whether the text is a number, once that is known.
    pub is_numeric: Option<bool>,
}

impl Default for TextFormatter {
    fn default() -> (r: Self)
        ensures
            r == TextFormatter::initial(None),
    {
        TextFormatter {
            text: None,
            width: DEFAULT_WIDTH,
            frame: Frame::TRUNCATE,
            no_ellipsis: false,
            pad_decimal_digits: false,
            max_decimal_digits: DEFAULT_DECIMAL_DIGITS,
            decimal_separator: '.',
            use_thousand_separator: false,
            thousand_separator: ',',
            alignment: Alignment::AUTO,
            is_numeric: None,
        }
    }
}

impl TextFormatter {
    /// The formatter of `text` with the settings that a new one has.
    pub open spec fn initial(text: Option<String>) -> TextFormatter {
        TextFormatter {
            text: text,
            width: DEFAULT_WIDTH,
            frame: Frame::TRUNCATE,
            no_ellipsis: false,
            pad_decimal_digits: false,
            max_decimal_digits: DEFAULT_DECIMAL_DIGITS,
            decimal_separator: '.',
            use_thousand_separator: false,
            thousand_separator: ',',
            alignment: Alignment::AUTO,
            is_numeric: None,
        }
    }

    /// The characters of the text; none where it is missing.
    pub open spec fn plain(&self) -> Seq<char> {
        match self.text {
            Some(t) => t@,
            None => Seq::empty(),
        }
    }

    /// Whether the two formatters have the same settings, whatever their
    /// texts are and whatever is known of them.
    pub open spec fn same_settings(&self, other: &TextFormatter) -> bool {
        &&& self.width == other.width
        &&& self.frame == other.frame
        &&& self.no_ellipsis == other.no_ellipsis
        &&& self.pad_decimal_digits == other.pad_decimal_digits
        &&& self.max_decimal_digits == other.max_decimal_digits
        &&& self.decimal_separator == other.decimal_separator
        &&& self.use_thousand_separator == other.use_thousand_separator
        &&& self.thousand_separator == other.thousand_separator
        &&& self.alignment == other.alignment
    }

    /// Whether the text counts as a number: what is known of it decides,
    /// and where nothing is known, whether there is a reading.
    pub open spec fn decided(&self, has_reading: bool) -> bool {
        match self.is_numeric {
            Some(known) => known,
            None => has_reading,
        }
    }

    /// The text to read as a number.
    pub open spec fn to_read(&self) -> Seq<char> {
        normalized(self.plain(), self.thousand_separator, self.decimal_separator)
    }

    /// The number `rendered` as this formatter shows it, before alignment.
    pub open spec fn number_shown(&self, rendered: Seq<char>) -> Seq<char> {
        number_text(
            rendered,
            self.use_thousand_separator,
            self.thousand_separator,
            self.decimal_separator,
        )
    }

    /// The text fitted into the width by the rule of the frame.
    pub open spec fn framed(&self) -> Seq<char> {
        framed_text(self.plain(), self.frame, self.width, !self.no_ellipsis)
    }

    /// What `format_numeric` returns: the number aligned, or nothing where
    /// the text is no number.
    pub open spec fn numeric_shown(&self, reading: Option<Seq<char>>) -> Seq<char> {
        match reading {
            Some(rendered) => aligned_text(
                self.number_shown(rendered),
                self.alignment,
                self.width,
                true,
            ),
            None => Seq::empty(),
        }
    }

    /// What `format_text` returns: the text framed and aligned.
    pub open spec fn text_shown(&self) -> Seq<char> {
        aligned_text(self.framed(), self.alignment, self.width, false)
    }

    /// What `text` returns: the number where there is a reading, else the
    /// text.
    pub open spec fn shown(&self, reading: Option<Seq<char>>) -> Seq<char> {
        shown_text(
            self.plain(),
            reading,
            self.width,
            self.frame,
            !self.no_ellipsis,
            self.use_thousand_separator,
            self.thousand_separator,
            self.decimal_separator,
            self.alignment,
        )
    }

    /// A formatter of `text` with the default settings: 48 columns,
    /// truncation with an ellipsis, automatic alignment, no thousands
    /// separator, `.` as the decimal point.
    pub fn new(text: Option<String>) -> (r: Self)
        ensures
            r == TextFormatter::initial(text),
    {
        TextFormatter {
            text: text,
            width: DEFAULT_WIDTH,
            frame: Frame::TRUNCATE,
            no_ellipsis: false,
            pad_decimal_digits: false,
            max_decimal_digits: DEFAULT_DECIMAL_DIGITS,
            decimal_separator: '.',
            use_thousand_separator: false,
            thousand_separator: ',',
            alignment: Alignment::AUTO,
            is_numeric: None,
        }
    }

    /// Sets the width.
    pub fn set_width(&mut self, width: usize) -> (ret: &mut Self)
        ensures
            *final(self) == *final(ret),
            *ret == (TextFormatter { width: width, ..*old(self) }),
    {
        self.width = width;
        self
    }

    /// Sets the frame.
    pub fn set_frame(&mut self, frame: Frame) -> (ret: &mut Self)
        ensures
            *final(self) == *final(ret),
            *ret == (TextFormatter { frame: frame, ..*old(self) }),
    {
        self.frame = frame;
        self
    }

    /// Sets whether a truncated text is left without the ellipsis.
    pub fn set_no_ellipsis(&mut self, no_ellipsis: bool) -> (ret: &mut Self)
        ensures
            *final(self) == *final(ret),
            *ret == (TextFormatter { no_ellipsis: no_ellipsis, ..*old(self) }),
    {
        self.no_ellipsis = no_ellipsis;
        self
    }

    /// Sets whether a number is shown with a fixed number of decimal
    /// places.
    pub fn set_pad_decimal_digits(&mut self, pad_decimal_digits: bool) -> (ret: &mut Self)
        ensures
            *final(self) == *final(ret),
            *ret == (TextFormatter { pad_decimal_digits: pad_decimal_digits, ..*old(self) }),
    {
        self.pad_decimal_digits = pad_decimal_digits;
        self
    }

    /// Sets the number of decimal places.
    pub fn set_max_decimal_digits(&mut self, max_decimal_digits: usize) -> (ret: &mut Self)
        ensures
            *final(self) == *final(ret),
            *ret == (TextFormatter { max_decimal_digits: max_decimal_digits, ..*old(self) }),
    {
        self.max_decimal_digits = max_decimal_digits;
        self
    }

    /// Sets the decimal separator.
    pub fn set_decimal_separator(&mut self, decimal_separator: char) -> (ret: &mut Self)
        ensures
            *final(self) == *final(ret),
            *ret == (TextFormatter { decimal_separator: decimal_separator, ..*old(self) }),
    {
        self.decimal_separator = decimal_separator;
        self
    }

    /// Sets whether the digits of the whole part stand in groups of three.
    pub fn set_use_thousand_separator(&mut self, use_thousand_separator: bool) -> (ret: &mut Self)
        ensures
            *final(self) == *final(ret),
            *ret == (TextFormatter {
                use_thousand_separator: use_thousand_separator,
                ..*old(self)
            }),
    {
        self.use_thousand_separator = use_thousand_separator;
        self
    }

    /// Sets the thousands separator.
    pub fn set_thousand_separator(&mut self, thousand_separator: char) -> (ret: &mut Self)
        ensures
            *final(self) == *final(ret),
            *ret == (TextFormatter { thousand_separator: thousand_separator, ..*old(self) }),
    {
        self.thousand_separator = thousand_separator;
        self
    }

    /// Sets the alignment.
    pub fn set_alignment(&mut self, alignment: Alignment) -> (ret: &mut Self)
        ensures
            *final(self) == *final(ret),
            *ret == (TextFormatter { alignment: alignment, ..*old(self) }),
    {
        self.alignment = alignment;
        self
    }

    fn chars(&self) -> (r: Vec<char>)
        ensures
            r@ == self.plain(),
    {
        match &self.text {
            Some(t) => to_chars(t.as_str()),
            None => Vec::new(),
        }
    }

    /// The text to read as a number: the text without thousands separators
    /// and with `.` as the decimal point.
    pub fn normalized(&self) -> (r: String)
        ensures
            r@ == self.to_read(),
    {
        let v = self.chars();
        to_text(&normalize(&v, self.thousand_separator, self.decimal_separator))
    }

    /// The width of the text without the whitespace around it.
    pub fn trimmed_width(&self) -> (w: usize)
        ensures
            w == cells(trimmed(self.plain())),
    {
        width_of(&trim(&self.chars()))
    }

    /// Whether the text is a number. What is known already is returned;
    /// else the text is a number where `reading` holds one, and that is
    /// remembered.
    pub fn is_numeric(&mut self, reading: Option<&str>) -> (r: bool)
        ensures
            r == old(self).decided(reading is Some),
            *final(self) == (TextFormatter { is_numeric: Some(r), ..*old(self) }),
    {
        let r = match self.is_numeric {
            Some(known) => known,
            None => reading.is_some(),
        };
        self.is_numeric = Some(r);
        r
    }

    /// The text with every line trimmed and the blank lines taken out. The
    /// result becomes the text; where nothing is left the text is missing
    /// afterwards.
    pub fn clean(&mut self) -> (r: String)
        ensures
            r@ == cleaned(old(self).plain()),
            final(self).plain() == r@,
            final(self).text is Some <==> r@.len() > 0,
            final(self).same_settings(old(self)),
            final(self).is_numeric == old(self).is_numeric,
    {
        let v = self.chars();
        let r = to_text(&clean_chars(&v));
        if r.as_str().unicode_len() == 0 {
            self.text = None;
        } else {
            self.text = Some(r.clone());
        }
        r
    }

    /// The text with every line aligned to the right. The result becomes
    /// the text. A missing text gives the empty text and stays missing.
    pub fn right(&mut self) -> (r: String)
        ensures
            r@ == (if old(self).text is Some {
                right_text(old(self).plain(), old(self).width as nat)
            } else {
                Seq::<char>::empty()
            }),
            final(self).plain() == r@,
            final(self).text is Some <==> old(self).text is Some,
            final(self).same_settings(old(self)),
            final(self).is_numeric == old(self).is_numeric,
    {
        if self.text.is_none() {
            return String::new();
        }
        let v = self.chars();
        let r = to_text(&right_chars(&v, self.width));
        self.text = Some(r.clone());
        r
    }

    /// The text with the leading whitespace of every line taken off. The
    /// result becomes the text.
    pub fn left(&mut self) -> (r: String)
        ensures
            r@ == left_text(old(self).plain()),
            final(self).plain() == r@,
            final(self).text is Some,
            final(self).same_settings(old(self)),
            final(self).is_numeric == old(self).is_numeric,
    {
        let v = self.chars();
        let r = to_text(&left_chars(&v));
        self.text = Some(r.clone());
        r
    }

    /// The text with every line that is not blank centred. The result
    /// becomes the text.
    pub fn center(&mut self) -> (r: String)
        ensures
            r@ == center_text(old(self).plain(), old(self).width as nat),
            final(self).plain() == r@,
            final(self).text is Some,
            final(self).same_settings(old(self)),
            final(self).is_numeric == old(self).is_numeric,
    {
        let v = self.chars();
        let r = to_text(&center_chars(&v, self.width));
        self.text = Some(r.clone());
        r
    }

    /// The text wrapped to the width. The result becomes the text.
    pub fn wrap(&mut self) -> (r: String)
        ensures
            r@ == wrap_text(old(self).plain(), old(self).width),
            final(self).plain() == r@,
            final(self).text is Some,
            final(self).same_settings(old(self)),
            final(self).is_numeric == old(self).is_numeric,
    {
        let v = self.chars();
        let r = to_text(&wrap_lines(&v, self.width));
        self.text = Some(r.clone());
        r
    }

    /// The text with every line cut to the width. The result becomes the
    /// text.
    pub fn truncate(&mut self) -> (r: String)
        ensures
            r@ == truncate_text(old(self).plain(), old(self).width as nat, !old(self).no_ellipsis),
            final(self).plain() == r@,
            final(self).text is Some,
            final(self).same_settings(old(self)),
            final(self).is_numeric == old(self).is_numeric,
    {
        let v = self.chars();
        let r = to_text(&truncate_lines(&v, self.width, !self.no_ellipsis));
        self.text = Some(r.clone());
        r
    }

    fn align(&self, v: &Vec<char>, numeric: bool) -> (r: Vec<char>)
        ensures
            r@ == aligned_text(v@, self.alignment, self.width, numeric),
    {
        align_chars(v, self.alignment, self.width, numeric)
    }

    /// The text framed and aligned, as a text that is no number is shown.
    /// Under the frames `TRUNCATE` and `WRAP` the framed text becomes the
    /// text.
    pub fn format_text(&mut self) -> (r: String)
        ensures
            r@ == old(self).text_shown(),
            final(self).plain() == old(self).framed(),
            old(self).frame != Frame::NONE ==> final(self).text is Some,
            old(self).frame == Frame::NONE ==> final(self).text == old(self).text,
            final(self).same_settings(old(self)),
            final(self).is_numeric == old(self).is_numeric,
    {
        let framed = match self.frame {
            Frame::TRUNCATE => self.truncate(),
            Frame::WRAP => self.wrap(),
            Frame::NONE => to_text(&self.chars()),
        };
        let v = to_chars(framed.as_str());
        to_text(&self.align(&v, false))
    }

    /// The text as a number is shown: grouped and with the decimal
    /// separator as the settings say, and aligned; under `AUTO` to the
    /// right. Where `reading` holds no number the result is empty.
    pub fn format_numeric(&self, reading: Option<&str>) -> (r: String)
        ensures
            r@ == self.numeric_shown(reading_view(reading)),
    {
        match reading {
            Some(rendered) => {
                let v = to_chars(rendered);
                let number = format_number(
                    &v,
                    self.use_thousand_separator,
                    self.thousand_separator,
                    self.decimal_separator,
                );
                to_text(&self.align(&number, true))
            },
            None => String::new(),
        }
    }

    /// The text as it is shown: as a number where `reading` holds one,
    /// else framed and aligned. The result becomes the text, and whether it
    /// is a number is remembered.
    pub fn text(&mut self, reading: Option<&str>) -> (r: String)
        ensures
            r@ == old(self).shown(reading_view(reading)),
            final(self).plain() == r@,
            final(self).text is Some,
            final(self).is_numeric == Some(reading is Some),
            final(self).same_settings(old(self)),
    {
        let r = match reading {
            Some(rendered) => self.format_numeric(reading),
            None => self.format_text(),
        };
        self.is_numeric = Some(reading.is_some());
        self.text = Some(r.clone());
        r
    }

    /// The text as it is shown, by what is known of it: where it is known
    /// to be a number or not, that decides; else the reading does, and
    /// that is remembered. A number leaves the text as it was; of any
    /// other text the framed text becomes the text.
    pub fn formatted(&mut self, reading: Option<&str>) -> (r: String)
        ensures
            r@ == (if old(self).decided(reading is Some) {
                old(self).numeric_shown(reading_view(reading))
            } else {
                old(self).text_shown()
            }),
            final(self).is_numeric == Some(old(self).decided(reading is Some)),
            final(self).plain() == (if old(self).decided(reading is Some) {
                old(self).plain()
            } else {
                old(self).framed()
            }),
            old(self).decided(reading is Some) ==> final(self).text == old(self).text,
            final(self).same_settings(old(self)),
    {
        if self.is_numeric(reading) {
            self.format_numeric(reading)
        } else {
            self.format_text()
        }
    }
}


/// Whether `c` is a hexadecimal digit, in either case.
pub open spec fn is_hex_digit(c: char) -> bool {
    ('0' <= c <= '9') || ('a' <= c <= 'f') || ('A' <= c <= 'F')
}

/// Whether `s` is made of hexadecimal digits only.
pub open spec fn all_hex(s: Seq<char>) -> bool {
    forall|i: int| 0 <= i < s.len() ==> is_hex_digit(#[trigger] s[i])
}

/// The message that rejects `s` as a hexadecimal text.
pub open spec fn hex_error(s: Seq<char>) -> Seq<char> {
    "'"@ + s + "' is not a valid hex string"@
}

/// `s` itself where it is made of hexadecimal digits only (the empty text
/// is); else the message that rejects it.
pub open spec fn hex_checked(s: Seq<char>) -> Result<Seq<char>, Seq<char>> {
    if all_hex(s) {
        Ok(s)
    } else {
        Err(hex_error(s))
    }
}

/// The views of a checked text.
pub open spec fn checked_view(r: Result<String, String>) -> Result<Seq<char>, Seq<char>> {
    match r {
        Ok(s) => Ok(s@),
        Err(e) => Err(e@),
    }
}

/// Checks that `s` is made of hexadecimal digits only.
pub fn hex(s: &str) -> (r: Result<String, String>)
    ensures
        checked_view(r) == hex_checked(s@),
{
    let v = to_chars(s);
    let mut i: usize = 0;
    while i < v.len()
        invariant
            i <= v.len(),
            v@ == s@,
            forall|k: int| 0 <= k < i ==> is_hex_digit(#[trigger] v@[k]),
        decreases v.len() - i,
    {
        let c = v[i];
        let digit = ('0' <= c && c <= '9') || ('a' <= c && c <= 'f') || ('A' <= c && c <= 'F');
        if !digit {
            let mut e = String::from_str("'");
            e.append(s);
            e.append("' is not a valid hex string");
            assert(!is_hex_digit(s@[i as int]));
            return Err(e);
        }
        i += 1;
    }
    Ok(String::from_str(s))
}

impl TextFormatter {
    /// Checks that the text is made of hexadecimal digits only. A missing
    /// text is rejected with a message of its own.
    pub fn is_hex(&self) -> (r: Result<String, String>)
        ensures
            checked_view(r) == (match self.text {
                Some(t) => hex_checked(t@),
                None => Err("No text provided"@),
            }),
    {
        match &self.text {
            Some(t) => hex(t.as_str()),
            None => Err(String::from_str("No text provided")),
        }
    }
}

/// The width asked for, or the default width.
pub open spec fn width_or_default(width: Option<usize>) -> usize {
    match width {
        Some(w) => w,
        None => DEFAULT_WIDTH,
    }
}

fn chars_of(text: Option<&str>) -> (r: Vec<char>)
    ensures
        r@ == text_view(text),
{
    match text {
        Some(t) => to_chars(t),
        None => Vec::new(),
    }
}

fn width_or(width: Option<usize>) -> (r: usize)
    ensures
        r == width_or_default(width),
{
    match width {
        Some(w) => w,
        None => DEFAULT_WIDTH,
    }
}

/// The text with every line trimmed and the blank lines taken out. A
/// missing text counts as empty.
pub fn clean(text: Option<&str>) -> (r: String)
    ensures
        r@ == cleaned(text_view(text)),
{
    to_text(&clean_chars(&chars_of(text)))
}

/// The text with every line aligned to the right, at the greater of
/// `width` (48 where none is given) and the width of the widest line. A
/// missing text gives the empty text.
pub fn right(text: Option<&str>, width: Option<usize>) -> (r: String)
    ensures
        r@ == (if text is Some {
            right_text(text_view(text), width_or_default(width) as nat)
        } else {
            Seq::<char>::empty()
        }),
{
    match text {
        Some(t) => to_text(&right_chars(&to_chars(t), width_or(width))),
        None => String::new(),
    }
}

/// The text with the leading whitespace of every line taken off.
pub fn left(text: Option<&str>) -> (r: String)
    ensures
        r@ == left_text(text_view(text)),
{
    to_text(&left_chars(&chars_of(text)))
}

/// The text wrapped to `width` columns (48 where none is given).
pub fn wrap(text: Option<&str>, width: Option<usize>) -> (r: String)
    ensures
        r@ == wrap_text(text_view(text), width_or_default(width)),
{
    to_text(&wrap_lines(&chars_of(text), width_or(width)))
}

/// The text with every line that is not blank centred, at the greater of
/// `width` (48 where none is given) and the width of the widest line.
pub fn center(text: Option<&str>, width: Option<usize>) -> (r: String)
    ensures
        r@ == center_text(text_view(text), width_or_default(width) as nat),
{
    to_text(&center_chars(&chars_of(text), width_or(width)))
}

/// The text with every line cut to `width` columns (48 where none is
/// given); the ellipsis is shown unless `no_ellipsis` holds `true`.
pub fn truncate(text: Option<&str>, width: Option<usize>, no_ellipsis: Option<bool>) -> (r: String)
    ensures
        r@ == truncate_text(
            text_view(text),
            width_or_default(width) as nat,
            no_ellipsis != Some(true),
        ),
{
    let use_ellipsis = match no_ellipsis {
        Some(no) => !no,
        None => true,
    };
    to_text(&truncate_lines(&chars_of(text), width_or(width), use_ellipsis))
}

/// The text as a formatter with the given settings shows it: as a number
/// where `reading` holds one, else framed and aligned. A setting that is
/// not given has its default, and a missing text counts as empty. The
/// reading is that of the text without its thousands separators and with
/// `.` for its decimal separator.
pub fn text(
    content: Option<&str>,
    reading: Option<&str>,
    width: Option<usize>,
    frame: Option<Frame>,
    no_ellipsis: Option<bool>,
    decimal_separator: Option<char>,
    use_thousand_separator: Option<bool>,
    thousand_separator: Option<char>,
    alignment: Option<Alignment>,
) -> (r: String)
    ensures
        r@ == shown_text(
            text_view(content),
            reading_view(reading),
            width.unwrap_or(DEFAULT_WIDTH),
            frame.unwrap_or(Frame::TRUNCATE),
            !no_ellipsis.unwrap_or(false),
            use_thousand_separator.unwrap_or(false),
            thousand_separator.unwrap_or(','),
            decimal_separator.unwrap_or('.'),
            alignment.unwrap_or(Alignment::AUTO),
        ),
{
    let owned: Option<String> = match content {
        Some(t) => Some(String::from_str(t)),
        None => None,
    };
    let mut formatter = TextFormatter::new(owned);
    if let Some(w) = width {
        formatter.set_width(w);
    }
    if let Some(f) = frame {
        formatter.set_frame(f);
    }
    if let Some(n) = no_ellipsis {
        formatter.set_no_ellipsis(n);
    }
    if let Some(d) = decimal_separator {
        formatter.set_decimal_separator(d);
    }
    if let Some(u) = use_thousand_separator {
        formatter.set_use_thousand_separator(u);
    }
    if let Some(t) = thousand_separator {
        formatter.set_thousand_separator(t);
    }
    if let Some(a) = alignment {
        formatter.set_alignment(a);
    }
    formatter.text(reading)
}

} // verus!
