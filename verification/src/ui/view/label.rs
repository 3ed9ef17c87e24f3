//! A view that shows one attributed string.

use crate::graphics::Color;
use crate::graphics::Font;
use crate::graphics::Rectangle;
use crate::text::attributed_string::Attribute;
use crate::text::attributed_string::AttributedString;
use crate::text::attributed_string::Key;
use crate::text::attributed_string::RichText;
use std::ops::Range;
use vstd::prelude::*;

verus! {

/// A view that shows text in a font and a color.
#[derive(Debug)]
pub struct Label {
    frame: Rectangle,
    font: Font,
    text_color: Color,
    text: AttributedString,
}

/// What a [`Label`] stands for.
pub struct LabelModel {
    pub frame: Rectangle,
    pub font: Font,
    pub text_color: Color,
    pub text: RichText,
}

impl View for Label {
    type V = LabelModel;

    closed spec fn view(&self) -> LabelModel {
        LabelModel {
            frame: self.frame,
            font: self.font,
            text_color: self.text_color,
            text: self.text@,
        }
    }
}

impl LabelModel {
    /// The label with another text.
    pub open spec fn with_text(self, text: RichText) -> LabelModel {
        LabelModel { text, ..self }
    }
}

impl Label {
    /// The text of the label is well formed.
    pub open spec fn wf(&self) -> bool {
        self@.text.wf()
    }

    /// The text of a well-formed label can be counted in a `usize`.
    pub proof fn lemma_len_fits(&self)
        requires
            self.wf(),
        ensures
            self@.text.len() <= usize::MAX,
    {
        self.text.lemma_len_fits();
    }

    /// A label with black, unformatted `text` whose default font is `font`.
    pub fn new(frame: Rectangle, font: Font, text: String) -> (label: Label)
        ensures
            label.wf(),
            label@ == (LabelModel {
                frame,
                font,
                text_color: Color::opaque(0, 0, 0),
                text: RichText::plain(label@.text.id, text@).with_default(
                    Key::Font,
                    Attribute::Font { font },
                ),
            }),
    {
        let mut text = AttributedString::new(text);
        text.set_default_attribute(Key::Font, Attribute::Font { font });
        Label { frame, font, text_color: Color::black(), text }
    }

    /// Replaces the whole text by `text`, without formatting of its own.
    pub fn set_text(&mut self, text: String)
        requires
            old(self).wf(),
        ensures
            final(self).wf(),
            final(self)@ == old(self)@.with_text(
                old(self)@.text.replaced(0, old(self)@.text.len() as int, text@),
            ),
    {
        let len: usize = self.text.len();
        self.text.replace_range(0, len, text.as_str());
    }

    /// Replaces the characters in `range` by `text`. An empty range makes
    /// this an insertion at `range.start`.
    pub fn replace_text_in_range(&mut self, range: Range<usize>, text: &str)
        requires
            old(self).wf(),
            range.start <= range.end <= old(self)@.text.len(),
        ensures
            final(self).wf(),
            final(self)@ == old(self)@.with_text(
                old(self)@.text.replaced(range.start as int, range.end as int, text@),
            ),
    {
        self.text.replace_range(range.start, range.end, text);
    }

    pub fn text(&self) -> (text: &AttributedString)
        ensures
            text@ == self@.text,
    {
        &self.text
    }

    pub fn frame(&self) -> (frame: &Rectangle)
        ensures
            *frame == self@.frame,
    {
        &self.frame
    }

    pub fn font(&self) -> (font: &Font)
        ensures
            *font == self@.font,
    {
        &self.font
    }

    pub fn text_color(&self) -> (color: &Color)
        ensures
            *color == self@.text_color,
    {
        &self.text_color
    }
}

} // verus!
