//! One cell of a table: its raw text, the text as it is shown, and what is
//! known of its being a number.
//!
//! A cell goes through three steps. It is made from its raw text; `format`
//! brings it into the form in which it is shown, a number as numbers are
//! shown and any other text fitted into the width; `align` pads it to the
//! width, a number on the right unless the alignment says otherwise. The
//! reading of the cell as a number comes from outside (see the `number`
//! module): it is the reading of the text that `normalized` hands out.
use crate::chars::{
    clean_chars, cleaned, join, joined, slice, split, split_fields, to_chars, to_text, trim,
    trimmed, views,
};
use crate::frame::nl;
use crate::layout::{fit_cell, fitted, place, placed, side};
use crate::number::{format_number, normalize, normalized, number_text};
use crate::text::{
    align_chars, aligned_text, reading_view, Alignment, Frame, DEFAULT_DECIMAL_DIGITS,
    DEFAULT_WIDTH,
};
use crate::width::{cells, width_of};
use vstd::prelude::*;

verus! {

/// A text fitted into `width` columns by the rule of the frame, its lines
/// joined by line feeds. A cell of width zero has no width to fit into:
/// its text stays as it is, whatever the frame.
pub open spec fn framed_cell(
    s: Seq<char>,
    frame: Frame,
    width: usize,
    use_ellipsis: bool,
) -> Seq<char> {
    if width == 0 {
        s
    } else {
        joined(fitted(s, frame, width, use_ellipsis), nl())
    }
}

/// A text with each of its lines padded to `width` columns on the given
/// side. The lines are the pieces between line feeds.
pub open spec fn aligned_cell(s: Seq<char>, side: Alignment, width: usize) -> Seq<char> {
    let ls = split_fields(s, nl());
    joined(Seq::new(ls.len(), |i: int| placed(ls[i], side, width as nat)), nl())
}

fn newline() -> (r: Vec<char>)
    ensures
        r@ == nl(),
{
    let mut r: Vec<char> = Vec::new();
    r.push('\n');
    assert(r@ =~= nl());
    r
}

/// A text fitted into `width` columns by the rule of the frame.
pub fn frame_cell(v: &Vec<char>, frame: Frame, width: usize, use_ellipsis: bool) -> (r: Vec<char>)
    ensures
        r@ == framed_cell(v@, frame, width, use_ellipsis),
{
    if width == 0 {
        let r = slice(v, 0, v.len());
        assert(v@.subrange(0, v@.len() as int) =~= v@);
        r
    } else {
        join(&fit_cell(v, frame, width, use_ellipsis), &newline())
    }
}

/// A text with each of its lines padded to `width` columns on the given
/// side.
pub fn align_cell(v: &Vec<char>, side: Alignment, width: usize) -> (r: Vec<char>)
    ensures
        r@ == aligned_cell(v@, side, width),
{
    let lines = split(v, &newline());
    let mut out: Vec<Vec<char>> = Vec::new();
    let mut i: usize = 0;
    while i < lines.len()
        invariant
            i <= lines.len(),
            out.len() == i,
            forall|k: int| 0 <= k < i ==> out@[k]@ == placed(lines@[k]@, side, width as nat),
        decreases lines.len() - i,
    {
        out.push(place(&lines[i], side, width));
        i += 1;
    }
    proof {
        let ls = split_fields(v@, nl());
        assert(views(lines@) == ls);
        assert forall|k: int| 0 <= k < ls.len() implies views(out@)[k] == placed(
            ls[k],
            side,
            width as nat,
        ) by {
            assert(views(lines@)[k] == lines@[k]@);
        }
        assert(views(out@) =~= Seq::new(ls.len(), |i: int| placed(ls[i], side, width as nat)));
    }
    join(&out, &newline())
}

/// One cell: its text and the settings by which it is shown.
#[derive(Clone, Debug)]
pub struct Formatter {
    /// The raw text.
    pub input_text: String,
    /// The text as it is shown; at first the raw text, cleaned.
    pub formatted_text: String,
    /// The width, in columns, of the cell.
    pub width: usize,
    /// How a text that is too wide is made to fit.
    pub frame: Frame,
    /// Whether a truncated text ends with the ellipsis.
    pub ellipsis: bool,
    /// Whether a number is rendered with a fixed number of decimal places.
    /// This is for the one who reads the numbers: the rendering is part of
    /// a reading.
    pub pad_decimal_digits: bool,
    /// That number of decimal places.
    pub max_decimal_digits: usize,
    /// The character that separates the whole part from the fraction.
    pub decimal_separator: char,
    /// Whether the digits of the whole part stand in groups of three.
    pub use_thousand_separator: bool,
    /// The character between those groups.
    pub thousand_separator: char,
    /// On which side the text stands.
    pub alignment: Alignment,
    /// Whether the text is a number, once that is known.
    pub is_numeric: Option<bool>,
}

impl Formatter {
    /// The cell of the raw text `input` and the shown text `formatted`
    /// with the settings that a new one has.
    pub open spec fn initial(input: String, formatted: String) -> Formatter {
        Formatter {
            input_text: input,
            formatted_text: formatted,
            width: DEFAULT_WIDTH,
            frame: Frame::TRUNCATE,
            ellipsis: true,
            pad_decimal_digits: false,
            max_decimal_digits: DEFAULT_DECIMAL_DIGITS,
            decimal_separator: '.',
            use_thousand_separator: false,
            thousand_separator: ',',
            alignment: Alignment::AUTO,
            is_numeric: None,
        }
    }

    /// The cell with another shown text.
    pub open spec fn with_text(self, formatted: Seq<char>, other: Formatter) -> bool {
        &&& other.formatted_text@ == formatted
        &&& other.input_text == self.input_text
        &&& other.width == self.width
        &&& other.frame == self.frame
        &&& other.ellipsis == self.ellipsis
        &&& other.pad_decimal_digits == self.pad_decimal_digits
        &&& other.max_decimal_digits == self.max_decimal_digits
        &&& other.decimal_separator == self.decimal_separator
        &&& other.use_thousand_separator == self.use_thousand_separator
        &&& other.thousand_separator == self.thousand_separator
        &&& other.alignment == self.alignment
    }

    /// Whether the cell counts as a number: what is known of it decides,
    /// and where nothing is known, whether there is a reading.
    pub open spec fn decided(&self, has_reading: bool) -> bool {
        match self.is_numeric {
            Some(known) => known,
            None => has_reading,
        }
    }

    /// The number `rendered` as this cell shows it.
    pub open spec fn number_shown(&self, rendered: Seq<char>) -> Seq<char> {
        number_text(
            rendered,
            self.use_thousand_separator,
            self.thousand_separator,
            self.decimal_separator,
        )
    }

    /// The shown text fitted into the width by the rule of the frame.
    pub open spec fn framed(&self) -> Seq<char> {
        framed_cell(self.formatted_text@, self.frame, self.width, self.ellipsis)
    }

    /// The side on which the cell stands: under `AUTO` the right for a
    /// number and the left for any other text; else as the alignment says.
    pub open spec fn side_of(&self, numeric: bool) -> Alignment {
        side(self.alignment, numeric)
    }

    /// A cell of `input` with the default settings: 48 columns, truncation
    /// with an ellipsis, automatic alignment, no thousands separator, `.`
    /// as the decimal point. The shown text is the raw text, cleaned.
    pub fn new(input: String) -> (r: Self)
        ensures
            r.input_text == input,
            r.formatted_text@ == cleaned(input@),
            r == Formatter::initial(r.input_text, r.formatted_text),
    {
        let shown = to_text(&clean_chars(&to_chars(input.as_str())));
        Formatter {
            input_text: input,
            formatted_text: shown,
            width: DEFAULT_WIDTH,
            frame: Frame::TRUNCATE,
            ellipsis: true,
            pad_decimal_digits: false,
            max_decimal_digits: DEFAULT_DECIMAL_DIGITS,
            decimal_separator: '.',
            use_thousand_separator: false,
            thousand_separator: ',',
            alignment: Alignment::AUTO,
            is_numeric: None,
        }
    }

    /// Sets the width.
    pub fn set_width(&mut self, width: usize) -> (ret: &mut Self)
        ensures
            *final(self) == *final(ret),
            *ret == (Formatter { width: width, ..*old(self) }),
    {
        self.width = width;
        self
    }

    /// Sets the frame.
    pub fn set_frame(&mut self, frame: Frame) -> (ret: &mut Self)
        ensures
            *final(self) == *final(ret),
            *ret == (Formatter { frame: frame, ..*old(self) }),
    {
        self.frame = frame;
        self
    }

    /// Sets whether a truncated text ends with the ellipsis.
    pub fn set_ellipsis(&mut self, ellipsis: bool) -> (ret: &mut Self)
        ensures
            *final(self) == *final(ret),
            *ret == (Formatter { ellipsis: ellipsis, ..*old(self) }),
    {
        self.ellipsis = ellipsis;
        self
    }

    /// Sets whether a truncated text is left without the ellipsis.
    pub fn set_no_ellipsis(&mut self, no_ellipsis: bool) -> (ret: &mut Self)
        ensures
            *final(self) == *final(ret),
            *ret == (Formatter { ellipsis: !no_ellipsis, ..*old(self) }),
    {
        self.ellipsis = !no_ellipsis;
        self
    }

    /// Sets whether a number is rendered with a fixed number of decimal
    /// places.
    pub fn set_pad_decimal_digits(&mut self, pad_decimal_digits: bool) -> (ret: &mut Self)
        ensures
            *final(self) == *final(ret),
            *ret == (Formatter { pad_decimal_digits: pad_decimal_digits, ..*old(self) }),
    {
        self.pad_decimal_digits = pad_decimal_digits;
        self
    }

    /// Sets the number of decimal places.
    pub fn set_max_decimal_digits(&mut self, max_decimal_digits: usize) -> (ret: &mut Self)
        ensures
            *final(self) == *final(ret),
            *ret == (Formatter { max_decimal_digits: max_decimal_digits, ..*old(self) }),
    {
        self.max_decimal_digits = max_decimal_digits;
        self
    }

    /// Sets the decimal separator.
    pub fn set_decimal_separator(&mut self, decimal_separator: char) -> (ret: &mut Self)
        ensures
            *final(self) == *final(ret),
            *ret == (Formatter { decimal_separator: decimal_separator, ..*old(self) }),
    {
        self.decimal_separator = decimal_separator;
        self
    }

    /// Sets whether the digits of the whole part stand in groups of three.
    pub fn set_use_thousand_separator(&mut self, use_thousand_separator: bool) -> (ret: &mut Self)
        ensures
            *final(self) == *final(ret),
            *ret == (Formatter { use_thousand_separator: use_thousand_separator, ..*old(self) }),
    {
        self.use_thousand_separator = use_thousand_separator;
        self
    }

    /// Sets the thousands separator.
    pub fn set_thousand_separator(&mut self, thousand_separator: char) -> (ret: &mut Self)
        ensures
            *final(self) == *final(ret),
            *ret == (Formatter { thousand_separator: thousand_separator, ..*old(self) }),
    {
        self.thousand_separator = thousand_separator;
        self
    }

    /// Sets the alignment.
    pub fn set_alignment(&mut self, alignment: Alignment) -> (ret: &mut Self)
        ensures
            *final(self) == *final(ret),
            *ret == (Formatter { alignment: alignment, ..*old(self) }),
    {
        self.alignment = alignment;
        self
    }

    /// The text to read as a number: the shown text without thousands
    /// separators and with `.` as the decimal point.
    pub fn normalized(&self) -> (r: String)
        ensures
            r@ == normalized(self.formatted_text@, self.thousand_separator, self.decimal_separator),
    {
        let v = to_chars(self.formatted_text.as_str());
        to_text(&normalize(&v, self.thousand_separator, self.decimal_separator))
    }

    /// Whether the cell is a number. What is known already is returned;
    /// else the cell is a number where `reading` holds one, and that is
    /// remembered.
    pub fn is_numeric(&mut self, reading: Option<&str>) -> (r: bool)
        ensures
            r == old(self).decided(reading is Some),
            *final(self) == (Formatter { is_numeric: Some(r), ..*old(self) }),
    {
        let r = match self.is_numeric {
            Some(known) => known,
            None => reading.is_some(),
        };
        self.is_numeric = Some(r);
        r
    }

    /// The width of the shown text without the whitespace around it.
    pub fn trimmed_width(&self) -> (w: usize)
        ensures
            w == cells(trimmed(self.formatted_text@)),
    {
        width_of(&trim(&to_chars(self.formatted_text.as_str())))
    }

    /// Fits the shown text into the width by the rule of the frame. A
    /// width of zero is no width to fit into and leaves the text as it is.
    pub fn wrap_or_truncate(&mut self) -> (ret: &mut Self)
        ensures
            *final(self) == *final(ret),
            old(self).with_text(old(self).framed(), *ret),
            ret.is_numeric == old(self).is_numeric,
    {
        let v = to_chars(self.formatted_text.as_str());
        self.formatted_text = to_text(&frame_cell(&v, self.frame, self.width, self.ellipsis));
        self
    }

    /// Brings the cell into the form in which it is shown. Where `reading`
    /// holds a number, the shown text becomes the number as numbers are
    /// shown, whatever its width; else the shown text is fitted into the
    /// width, which a width of zero leaves as it is. Whether the cell is a
    /// number is remembered.
    pub fn format(&mut self, reading: Option<&str>) -> (ret: &mut Self)
        ensures
            *final(self) == *final(ret),
            old(self).with_text(
                match reading_view(reading) {
                    Some(rendered) => old(self).number_shown(rendered),
                    None => old(self).framed(),
                },
                *ret,
            ),
            ret.is_numeric == Some(reading is Some),
    {
        match reading {
            Some(rendered) => {
                let v = to_chars(rendered);
                self.formatted_text = to_text(
                    &format_number(
                        &v,
                        self.use_thousand_separator,
                        self.thousand_separator,
                        self.decimal_separator,
                    ),
                );
                self.is_numeric = Some(true);
            },
            None => {
                let v = to_chars(self.formatted_text.as_str());
                self.formatted_text = to_text(
                    &frame_cell(&v, self.frame, self.width, self.ellipsis),
                );
                self.is_numeric = Some(false);
            },
        }
        self
    }

    /// Pads each line of the shown text to the width: on the right side
    /// where the alignment is `RIGHT`, or `AUTO` and the cell is a number;
    /// in the middle where it is `CENTER`; else on the left. Whether the
    /// cell is a number is what is known of it, or, where nothing is
    /// known, whether `reading` holds a number; it is remembered.
    pub fn align(&mut self, reading: Option<&str>) -> (ret: &mut Self)
        ensures
            *final(self) == *final(ret),
            old(self).with_text(
                aligned_cell(
                    old(self).formatted_text@,
                    old(self).side_of(old(self).decided(reading is Some)),
                    old(self).width,
                ),
                *ret,
            ),
            ret.is_numeric == Some(old(self).decided(reading is Some)),
    {
        let numeric = match self.is_numeric {
            Some(known) => known,
            None => reading.is_some(),
        };
        self.is_numeric = Some(numeric);
        let v = to_chars(self.formatted_text.as_str());
        self.formatted_text = to_text(&align_cell(&v, self.pick_side(numeric), self.width));
        self
    }

    fn pick_side(&self, numeric: bool) -> (r: Alignment)
        ensures
            r == self.side_of(numeric),
    {
        match self.alignment {
            Alignment::AUTO => if numeric {
                Alignment::RIGHT
            } else {
                Alignment::LEFT
            },
            Alignment::LEFT => Alignment::LEFT,
            Alignment::RIGHT => Alignment::RIGHT,
            Alignment::CENTER => Alignment::CENTER,
        }
    }

    /// The shown text fitted into the width and aligned, as a text that
    /// is no number is shown: under `AUTO` it is left as it is, under
    /// `LEFT` the leading whitespace of its lines is taken off, under
    /// `RIGHT` and `CENTER` its lines are padded.
    pub fn format_text(&self) -> (r: String)
        ensures
            r@ == aligned_text(self.framed(), self.alignment, self.width, false),
    {
        let v = to_chars(self.formatted_text.as_str());
        let framed = frame_cell(&v, self.frame, self.width, self.ellipsis);
        to_text(&align_chars(&framed, self.alignment, self.width, false))
    }

    /// What `format_numeric` returns: the number as numbers are shown,
    /// aligned; under `AUTO` to the right. Nothing where there is no
    /// reading.
    pub open spec fn numeric_shown(&self, reading: Option<Seq<char>>) -> Seq<char> {
        match reading {
            Some(rendered) => aligned_text(
                self.number_shown(rendered),
                self.alignment,
                self.width,
                true,
            ),
            None => Seq::empty(),
        }
    }

    /// The cell as a number is shown: grouped and with the decimal
    /// separator as the settings say, and aligned; under `AUTO` to the
    /// right. Where `reading` holds no number the result is empty.
    pub fn format_numeric(&self, reading: Option<&str>) -> (r: String)
        ensures
            r@ == self.numeric_shown(reading_view(reading)),
    {
        match reading {
            Some(rendered) => {
                let v = to_chars(rendered);
                let number = format_number(
                    &v,
                    self.use_thousand_separator,
                    self.thousand_separator,
                    self.decimal_separator,
                );
                to_text(&align_chars(&number, self.alignment, self.width, true))
            },
            None => String::new(),
        }
    }

    /// The cell as it is shown, by what is known of it: where it is known
    /// to be a number or not, that decides; else the reading does, and
    /// that is remembered. The shown text of the cell stays as it was.
    pub fn formatted(&mut self, reading: Option<&str>) -> (r: String)
        ensures
            r@ == (if old(self).decided(reading is Some) {
                old(self).numeric_shown(reading_view(reading))
            } else {
                aligned_text(old(self).framed(), old(self).alignment, old(self).width, false)
            }),
            *final(self) == (Formatter {
                is_numeric: Some(old(self).decided(reading is Some)),
                ..*old(self)
            }),
    {
        if self.is_numeric(reading) {
            self.format_numeric(reading)
        } else {
            self.format_text()
        }
    }
}

} // verus!
