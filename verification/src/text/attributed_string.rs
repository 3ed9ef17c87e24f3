//! Strings whose characters carry formatting attributes, and windows onto
//! ranges of such strings.

use crate::graphics::Color;
use crate::graphics::Font;
use crate::text::splice::splice;
use std::str::Chars;
use vstd::prelude::*;
use vstd::std_specs::cmp::PartialEqSpecImpl;
use vstd::std_specs::iter::IteratorSpec;

verus! {

/// A formatting value, tagged with its kind.
#[derive(PartialEq, Eq, Structural, Debug, Clone, Copy)]
pub enum Attribute {
    Color { color: Color },
    Font { font: Font },
}

impl Attribute {
    /// The key under which a value of this kind is normally stored.
    pub open spec fn key(&self) -> Key {
        match self {
            Attribute::Color { .. } => Key::Color,
            Attribute::Font { .. } => Key::Font,
        }
    }

    /// The color held by a color attribute.
    pub fn color(&self) -> (color: &Color)
        requires
            self is Color,
        ensures
            *color == self->color,
    {
        match self {
            Attribute::Color { color } => color,
            Attribute::Font { .. } => unreached(),
        }
    }

    /// The font held by a font attribute.
    pub fn font(&self) -> (font: &Font)
        requires
            self is Font,
        ensures
            *font == self->font,
    {
        match self {
            Attribute::Font { font } => font,
            Attribute::Color { .. } => unreached(),
        }
    }
}

/// The kinds of formatting a character can carry.
#[derive(PartialEq, Eq, Structural, Hash, Debug, Clone, Copy)]
pub enum Key {
    Color,
    Font,
}

/// A table from keys to attribute values, with one slot per key.
#[derive(Debug, Clone, Copy)]
pub struct AttributeContainer {
    color: Option<Attribute>,
    font: Option<Attribute>,
}

impl View for AttributeContainer {
    type V = Map<Key, Attribute>;

    closed spec fn view(&self) -> Map<Key, Attribute> {
        Map::new(|key: Key| self.slot(key) is Some, |key: Key| self.slot(key)->0)
    }
}

impl AttributeContainer {
    spec fn slot(&self, key: Key) -> Option<Attribute> {
        match key {
            Key::Color => self.color,
            Key::Font => self.font,
        }
    }

    /// The table without entries.
    pub fn new() -> (table: AttributeContainer)
        ensures
            table@ == Map::<Key, Attribute>::empty(),
    {
        let table = AttributeContainer { color: None, font: None };
        table
    }

    /// Stores `attribute` under `key` and returns the value it replaces.
    pub fn insert(&mut self, key: Key, attribute: Attribute) -> (previous: Option<Attribute>)
        ensures
            final(self)@ == old(self)@.insert(key, attribute),
            previous == if old(self)@.contains_key(key) {
                Some(old(self)@[key])
            } else {
                None::<Attribute>
            },
    {
        let previous = match key {
            Key::Color => {
                let previous = self.color;
                self.color = Some(attribute);
                previous
            },
            Key::Font => {
                let previous = self.font;
                self.font = Some(attribute);
                previous
            },
        };
        previous
    }

    /// The value stored under `key`, if there is one.
    pub fn get(&self, key: &Key) -> (found: Option<&Attribute>)
        ensures
            found is Some <==> self@.contains_key(*key),
            found is Some ==> *found->0 == self@[*key],
    {
        match key {
            Key::Color => self.color.as_ref(),
            Key::Font => self.font.as_ref(),
        }
    }

    /// Whether a value is stored under `key`.
    pub fn contains_key(&self, key: &Key) -> (present: bool)
        ensures
            present == self@.contains_key(*key),
    {
        match key {
            Key::Color => self.color.is_some(),
            Key::Font => self.font.is_some(),
        }
    }
}

/// What an [`AttributedString`] stands for: its identity, its characters, one
/// attribute table per character, and the table of defaults.
pub struct RichText {
    pub id: u128,
    pub text: Seq<char>,
    pub attributes: Seq<Map<Key, Attribute>>,
    pub defaults: Map<Key, Attribute>,
}

/// The defaults a new string starts with: black text in the standard font.
pub open spec fn baseline_attributes() -> Map<Key, Attribute> {
    Map::<Key, Attribute>::empty().insert(
        Key::Color,
        Attribute::Color { color: Color::opaque(0, 0, 0) },
    ).insert(Key::Font, Attribute::Font { font: Font::standard() })
}

/// `count` tables without entries.
pub open spec fn blank_attributes(count: nat) -> Seq<Map<Key, Attribute>> {
    Seq::new(count, |i: int| Map::<Key, Attribute>::empty())
}

impl RichText {
    /// There is one attribute table per character, and every key has a default.
    pub open spec fn wf(self) -> bool {
        &&& self.attributes.len() == self.text.len()
        &&& forall|key: Key| #[trigger] self.defaults.contains_key(key)
    }

    /// The number of characters.
    pub open spec fn len(self) -> nat {
        self.text.len()
    }

    /// Unformatted text with the baseline defaults.
    pub open spec fn plain(id: u128, text: Seq<char>) -> RichText {
        RichText {
            id,
            text,
            attributes: blank_attributes(text.len()),
            defaults: baseline_attributes(),
        }
    }

    /// Every value is stored under the key of its kind: colors under
    /// `Key::Color`, fonts under `Key::Font`. The tables do not ask for
    /// this; a text that starts plain and is only given values under their
    /// own keys has it, and then reads a color for `Key::Color` and a font
    /// for `Key::Font`.
    pub open spec fn well_kinded(self) -> bool {
        &&& forall|key: Key|
            self.defaults.contains_key(key) ==> (#[trigger] self.defaults[key]).key() == key
        &&& forall|index: int, key: Key|
            0 <= index < self.attributes.len() && self.attributes[index].contains_key(key) ==> (
            #[trigger] self.attributes[index][key]).key() == key
    }

    /// The value of `key` at character `index`: the character's own value
    /// where it has one, the default otherwise.
    pub open spec fn attribute_for(self, index: int, key: Key) -> Attribute {
        if self.attributes[index].contains_key(key) {
            self.attributes[index][key]
        } else {
            self.defaults[key]
        }
    }

    /// The text after `key` was given the default `attribute`.
    pub open spec fn with_default(self, key: Key, attribute: Attribute) -> RichText {
        RichText { defaults: self.defaults.insert(key, attribute), ..self }
    }

    /// The text after character `index` was given `attribute` for `key`.
    pub open spec fn with_attribute(self, index: int, key: Key, attribute: Attribute) -> RichText {
        RichText {
            attributes: self.attributes.update(
                index,
                self.attributes[index].insert(key, attribute),
            ),
            ..self
        }
    }

    /// The text after the characters at `[start, end)` were replaced by
    /// `replacement`. The tables of the replaced characters leave with them;
    /// the new characters start without entries.
    pub open spec fn replaced(self, start: int, end: int, replacement: Seq<char>) -> RichText {
        RichText {
            text: splice(self.text, start, end, replacement),
            attributes: splice(
                self.attributes,
                start,
                end,
                blank_attributes(replacement.len()),
            ),
            ..self
        }
    }
}

/// Whether `id` has the version and variant bits of a random (version 4)
/// UUID packed into a `u128`.
pub open spec fn is_random_identifier(id: u128) -> bool {
    id & 0xF000_C000_0000_0000_0000u128 == 0x4000_8000_0000_0000_0000u128
}

/// Draws an identifier with `uuid::Uuid::new_v4` and packs its bytes into a
/// `u128` with `Uuid::as_u128`. The value is random, so nothing is claimed of
/// it but the version and variant bits that `new_v4` sets on every identifier.
/// `new_v4` panics when the operating system cannot supply random bytes.
#[verifier::external_body]
fn new_identifier() -> (id: u128)
    ensures
        is_random_identifier(id),
{
    uuid::Uuid::new_v4().as_u128()
}

/// A string with formatting attributes per character.
///
/// Two attributed strings are equal when they are the same string, not when
/// they read the same: equality compares the identifiers handed out by `new`.
#[derive(Debug)]
pub struct AttributedString {
    id: u128,
    text: String,
    attributes: Vec<AttributeContainer>,
    default_attributes: AttributeContainer,
}

impl View for AttributedString {
    type V = RichText;

    closed spec fn view(&self) -> RichText {
        RichText {
            id: self.id,
            text: self.text@,
            attributes: self.attributes@.map_values(|table: AttributeContainer| table@),
            defaults: self.default_attributes@,
        }
    }
}

impl AttributedString {
    /// The invariant of the type, stated on what the string stands for.
    pub open spec fn wf(&self) -> bool {
        self@.wf()
    }

    /// Unformatted `text` under a new identity.
    pub fn new(text: String) -> (string: AttributedString)
        ensures
            string.wf(),
            string@ == RichText::plain(string@.id, text@),
            is_random_identifier(string@.id),
    {
        let mut default_attributes = AttributeContainer::new();
        default_attributes.insert(Key::Color, Attribute::Color { color: Color::black() });
        default_attributes.insert(Key::Font, Attribute::Font { font: Font::default() });
        let count: usize = text.as_str().unicode_len();
        let mut attributes: Vec<AttributeContainer> = Vec::new();
        let mut i: usize = 0;
        while i < count
            invariant
                i <= count,
                attributes@.len() == i,
                forall|j: int| 0 <= j < i ==> (#[trigger] attributes@[j])@ == Map::<Key, Attribute>::empty(),
            decreases count - i,
        {
            attributes.push(AttributeContainer::new());
            i = i + 1;
        }
        let string = AttributedString { id: new_identifier(), text, attributes, default_attributes };
        assert(string@.attributes =~= blank_attributes(text@.len()));
        string
    }

    /// The characters as a string slice.
    pub fn text(&self) -> (text: &str)
        ensures
            text@ == self@.text,
    {
        self.text.as_str()
    }

    /// The characters of a well-formed string can be counted in a `usize`.
    pub proof fn lemma_len_fits(&self)
        requires
            self.wf(),
        ensures
            self@.len() <= usize::MAX,
    {
        assert(self.attributes@.len() == self.attributes.len());
    }

    /// The number of characters.
    pub fn len(&self) -> (len: usize)
        requires
            self.wf(),
        ensures
            len == self@.len(),
    {
        self.attributes.len()
    }

    /// An iterator over the characters.
    pub fn chars(&self) -> (chars: Chars<'_>)
        ensures
            chars.remaining() == self@.text,
    {
        broadcast use vstd::string::axiom_spec_iter;

        self.text.as_str().chars()
    }

    /// Makes `attribute` the value of `key` for every character that has no
    /// value of its own for it.
    pub fn set_default_attribute(&mut self, key: Key, attribute: Attribute)
        requires
            old(self).wf(),
        ensures
            final(self).wf(),
            final(self)@ == old(self)@.with_default(key, attribute),
    {
        self.default_attributes.insert(key, attribute);
        assert forall|other: Key| #[trigger] self@.defaults.contains_key(other) by {
            assert(old(self)@.defaults.contains_key(other));
        }
    }

    /// Gives the character at `index` its own value for `key`.
    pub fn set_attribute_for(&mut self, index: usize, key: Key, attribute: Attribute)
        requires
            old(self).wf(),
            index < old(self)@.len(),
        ensures
            final(self).wf(),
            final(self)@ == old(self)@.with_attribute(index as int, key, attribute),
    {
        let mut table = self.attributes[index];
        table.insert(key, attribute);
        self.attributes[index] = table;
        assert(self@.attributes =~= old(self)@.attributes.update(
            index as int,
            old(self)@.attributes[index as int].insert(key, attribute),
        ));
        assert forall|other: Key| #[trigger] self@.defaults.contains_key(other) by {
            assert(old(self)@.defaults.contains_key(other));
        }
    }

    /// The value of `key` for the character at `index`: its own where it has
    /// one, the default otherwise.
    pub fn get_attribute_for(&self, index: usize, key: Key) -> (attribute: &Attribute)
        requires
            self.wf(),
            index < self@.len(),
        ensures
            *attribute == self@.attribute_for(index as int, key),
    {
        match self.attributes[index].get(&key) {
            Some(attribute) => attribute,
            None => {
                self.default_attributes.get(&key).unwrap()
            },
        }
    }

    /// Replaces the characters at `[start, end)` by `replacement`, and their
    /// attribute tables by one empty table per new character. Every change
    /// of the text goes through here, so text and tables stay in step.
    pub fn replace_range(&mut self, start: usize, end: usize, replacement: &str)
        requires
            old(self).wf(),
            start <= end <= old(self)@.len(),
        ensures
            final(self).wf(),
            final(self)@ == old(self)@.replaced(start as int, end as int, replacement@),
    {
        let len: usize = self.attributes.len();
        let mut text = self.text.as_str().substring_char(0, start).to_owned();
        text.append(replacement);
        text.append(self.text.as_str().substring_char(end, len));
        let added: usize = replacement.unicode_len();
        let mut blanks: Vec<AttributeContainer> = Vec::new();
        let mut i: usize = 0;
        while i < added
            invariant
                i <= added,
                blanks@.len() == i,
                forall|j: int|
                    0 <= j < i ==> (#[trigger] blanks@[j])@ == Map::<Key, Attribute>::empty(),
            decreases added - i,
        {
            blanks.push(AttributeContainer::new());
            i = i + 1;
        }
        let mut tail = self.attributes.split_off(end);
        self.attributes.truncate(start);
        self.attributes.append(&mut blanks);
        self.attributes.append(&mut tail);
        self.text = text;
        assert(self@.attributes =~= old(self)@.replaced(
            start as int,
            end as int,
            replacement@,
        ).attributes);
    }

    /// The lines of the text: the stretches between newline characters, none
    /// of which holds a newline. The last line is always there, empty where
    /// the text is empty or ends in a newline.
    pub fn lines(&self) -> (lines: Vec<AttributedSubstring>)
        requires
            self.wf(),
        ensures
            splits_into_lines(self@.text, lines@),
            forall|k: int| 0 <= k < lines.len() ==> (#[trigger] lines[k]).within(self@),
    {
        broadcast use vstd::string::axiom_spec_iter;

        let len: usize = self.attributes.len();
        let mut lines: Vec<AttributedSubstring> = Vec::new();
        let mut start: usize = 0;
        let mut i: usize = 0;
        for c in it: self.text.as_str().chars()
            invariant
                i == it.index(),
                it.seq() == self@.text,
                len == self@.text.len(),
                lines_so_far(self@.text, lines@, start as int, i as int),
                forall|k: int| 0 <= k < lines.len() ==> (#[trigger] lines[k]).owner == self.id,
        {
            if c == '\n' {
                lines.push(AttributedSubstring { owner: self.id, start, end: i });
                start = i + 1;
            }
            i = i + 1;
        }
        lines.push(AttributedSubstring { owner: self.id, start, end: len });
        lines
    }

    /// The window onto the single character at `char_index`.
    pub fn substring_for_char(&self, char_index: usize) -> (window: AttributedSubstring)
        requires
            self.wf(),
            char_index < self@.len(),
        ensures
            window.within(self@),
            window.start == char_index,
            window.end == char_index + 1,
    {
        proof {
            self.lemma_len_fits();
        }
        AttributedSubstring { owner: self.id, start: char_index, end: char_index + 1 }
    }
}

/// A window onto the characters `[start, end)` of the attributed string with
/// identifier `owner`. It holds no text: every operation takes the string and
/// maps the window's indices to the string's.
#[derive(Clone, Copy, Debug, PartialEq, Eq, Structural)]
pub struct AttributedSubstring {
    pub owner: u128,
    pub start: usize,
    pub end: usize,
}

/// Whether `lines` cuts `text` at its newlines: the lines follow each other
/// with one newline between neighbours, the first starts the text, the last
/// ends it, and no line holds a newline.
pub open spec fn splits_into_lines(text: Seq<char>, lines: Seq<AttributedSubstring>) -> bool {
    &&& lines.len() >= 1
    &&& lines[0].start == 0
    &&& lines.last().end == text.len()
    &&& forall|k: int| 0 <= k < lines.len() ==> (#[trigger] lines[k]).start <= lines[k].end
    &&& forall|k: int|
        0 <= k < lines.len() - 1 ==> {
            &&& (#[trigger] lines[k]).end < text.len()
            &&& text[lines[k].end as int] == '\n'
            &&& lines[k + 1].start == lines[k].end + 1
        }
    &&& forall|k: int, j: int|
        #![trigger lines[k], text[j]]
        0 <= k < lines.len() && lines[k].start <= j < lines[k].end ==> text[j] != '\n'
}

/// What `lines` holds after the characters before `upto` were read, with the
/// line that is still open starting at `start`.
spec fn lines_so_far(text: Seq<char>, lines: Seq<AttributedSubstring>, start: int, upto: int) -> bool {
    &&& 0 <= start <= upto <= text.len()
    &&& lines.len() == 0 ==> start == 0
    &&& lines.len() > 0 ==> lines[0].start == 0 && start == lines.last().end + 1
    &&& forall|j: int| start <= j < upto ==> text[j] != '\n'
    &&& forall|k: int|
        0 <= k < lines.len() ==> {
            &&& (#[trigger] lines[k]).start <= lines[k].end < upto
            &&& text[lines[k].end as int] == '\n'
        }
    &&& forall|k: int| 0 <= k < lines.len() - 1 ==> lines[k + 1].start == (#[trigger] lines[k]).end + 1
    &&& forall|k: int, j: int|
        #![trigger lines[k], text[j]]
        0 <= k < lines.len() && lines[k].start <= j < lines[k].end ==> text[j] != '\n'
}

impl AttributedSubstring {
    /// The window lies inside `owner` and was made for it.
    pub open spec fn within(&self, owner: RichText) -> bool {
        &&& self.owner == owner.id
        &&& self.start <= self.end <= owner.len()
    }

    /// The number of characters in the window.
    pub open spec fn len(&self) -> nat {
        (self.end - self.start) as nat
    }

    /// Whether the window holds the owner's character `index`.
    pub open spec fn covers(&self, index: int) -> bool {
        self.start <= index < self.end
    }

    /// What is read at the window's `index` for `key`: the owner's value at
    /// `start + index`.
    pub open spec fn attribute_in(&self, owner: RichText, index: int, key: Key) -> Attribute {
        owner.attribute_for(self.start + index, key)
    }

    /// The owner after `attribute` was written at the window's `index`.
    pub open spec fn written(&self, owner: RichText, index: int, key: Key, attribute: Attribute) -> RichText {
        owner.with_attribute(self.start + index, key, attribute)
    }

    /// The characters of the window.
    pub fn text<'a>(&self, owner: &'a AttributedString) -> (text: &'a str)
        requires
            owner.wf(),
            self.within(owner@),
        ensures
            text@ == owner@.text.subrange(self.start as int, self.end as int),
    {
        owner.text.as_str().substring_char(self.start, self.end)
    }

    /// An iterator over the characters of the window.
    pub fn chars<'a>(&self, owner: &'a AttributedString) -> (chars: Chars<'a>)
        requires
            owner.wf(),
            self.within(owner@),
        ensures
            chars.remaining() == owner@.text.subrange(self.start as int, self.end as int),
    {
        broadcast use vstd::string::axiom_spec_iter;

        self.text(owner).chars()
    }

    /// Gives the owner's character at `start + index` its own value for `key`.
    pub fn set_attribute_for(
        &self,
        owner: &mut AttributedString,
        index: usize,
        key: Key,
        attribute: Attribute,
    )
        requires
            old(owner).wf(),
            self.within(old(owner)@),
            self.start + index < old(owner)@.len(),
        ensures
            final(owner).wf(),
            final(owner)@ == self.written(old(owner)@, index as int, key, attribute),
    {
        proof {
            owner.lemma_len_fits();
        }
        owner.set_attribute_for(self.start + index, key, attribute);
    }

    /// The value of `key` for the owner's character at `start + index`.
    pub fn get_attribute_for<'a>(&self, owner: &'a AttributedString, index: usize, key: Key) -> (attribute: &'a Attribute)
        requires
            owner.wf(),
            self.within(owner@),
            self.start + index < owner@.len(),
        ensures
            *attribute == self.attribute_in(owner@, index as int, key),
    {
        proof {
            owner.lemma_len_fits();
        }
        owner.get_attribute_for(self.start + index, key)
    }

    /// The window onto the single character at the window's `char_index`.
    pub fn substring_for_char(&self, owner: &AttributedString, char_index: usize) -> (window: AttributedSubstring)
        requires
            owner.wf(),
            self.within(owner@),
            self.start + char_index < owner@.len(),
        ensures
            window.within(owner@),
            window.start == self.start + char_index,
            window.end == self.start + char_index + 1,
    {
        proof {
            owner.lemma_len_fits();
        }
        owner.substring_for_char(self.start + char_index)
    }
}

impl PartialEq for AttributedString {
    fn eq(&self, other: &AttributedString) -> (same: bool)
    {
        self.id == other.id
    }
}

impl PartialEqSpecImpl for AttributedString {
    open spec fn obeys_eq_spec() -> bool {
        true
    }

    open spec fn eq_spec(&self, other: &AttributedString) -> bool {
        self@.id == other@.id
    }
}

/// Replacing a range inside a well-formed text leaves it well formed, with
/// as many characters more as the replacement has more than the range.
pub proof fn lemma_replaced_wf(text: RichText, start: int, end: int, replacement: Seq<char>)
    requires
        text.wf(),
        0 <= start <= end <= text.len(),
    ensures
        text.replaced(start, end, replacement).wf(),
        text.replaced(start, end, replacement).len() == text.len() - (end - start)
            + replacement.len(),
        text.replaced(start, end, replacement).text == splice(text.text, start, end, replacement),
{
}

/// Replacing a range leaves the formatting of every other character alone:
/// what lies before the range reads as before, what lies behind it reads as
/// before at its new index, and the new characters read the defaults.
pub proof fn lemma_replaced_keeps_formatting(
    text: RichText,
    start: int,
    end: int,
    replacement: Seq<char>,
    at: int,
    asked: Key,
)
    requires
        text.wf(),
        0 <= start <= end <= text.len(),
        0 <= at < text.len() - (end - start) + replacement.len(),
    ensures
        text.replaced(start, end, replacement).attribute_for(at, asked) == if at < start {
            text.attribute_for(at, asked)
        } else if at < start + replacement.len() {
            text.defaults[asked]
        } else {
            text.attribute_for(at - replacement.len() + (end - start), asked)
        },
{
}

/// A text is cut into lines in one way only.
pub proof fn lemma_lines_are_determined(
    text: Seq<char>,
    lines: Seq<AttributedSubstring>,
    others: Seq<AttributedSubstring>,
)
    requires
        splits_into_lines(text, lines),
        splits_into_lines(text, others),
        forall|k: int| 0 <= k < lines.len() ==> (#[trigger] lines[k]).owner == lines[0].owner,
        forall|k: int| 0 <= k < others.len() ==> (#[trigger] others[k]).owner == lines[0].owner,
    ensures
        lines == others,
{
    lemma_lines_agree(text, lines, others, lines.len() - 1);
}

/// Two ways of cutting a text into lines agree on the lines up to `k`, and
/// have both reached their last line at `k` or neither has.
proof fn lemma_lines_agree(
    text: Seq<char>,
    lines: Seq<AttributedSubstring>,
    others: Seq<AttributedSubstring>,
    k: int,
)
    requires
        splits_into_lines(text, lines),
        splits_into_lines(text, others),
        forall|j: int| 0 <= j < lines.len() ==> (#[trigger] lines[j]).owner == lines[0].owner,
        forall|j: int| 0 <= j < others.len() ==> (#[trigger] others[j]).owner == lines[0].owner,
        0 <= k < lines.len(),
    ensures
        k < others.len(),
        forall|j: int| 0 <= j <= k ==> lines[j] == others[j],
        k == lines.len() - 1 <==> k == others.len() - 1,
    decreases k,
{
    if k > 0 {
        lemma_lines_agree(text, lines, others, k - 1);
        assert(lines[k - 1] == others[k - 1]);
    }
}

/// A well-kinded text reads, for every key, a value of the kind of the key.
pub proof fn lemma_well_kinded_reads(text: RichText, at: int, asked: Key)
    requires
        text.wf(),
        text.well_kinded(),
        0 <= at < text.len(),
    ensures
        text.attribute_for(at, asked).key() == asked,
        asked == Key::Color ==> text.attribute_for(at, asked) is Color,
        asked == Key::Font ==> text.attribute_for(at, asked) is Font,
{
}

/// Plain text is well kinded.
pub proof fn lemma_plain_is_well_kinded(id: u128, text: Seq<char>)
    ensures
        RichText::plain(id, text).well_kinded(),
{
}

/// A text stays well kinded when it is given a value under the key of its
/// kind, as a default or for one character.
pub proof fn lemma_well_kinded_after_set(text: RichText, index: int, key: Key, attribute: Attribute)
    requires
        text.well_kinded(),
        attribute.key() == key,
    ensures
        text.with_default(key, attribute).well_kinded(),
        0 <= index < text.attributes.len() ==> text.with_attribute(
            index,
            key,
            attribute,
        ).well_kinded(),
{
}

/// A text stays well kinded when a range of it is replaced.
pub proof fn lemma_well_kinded_after_replace(
    text: RichText,
    start: int,
    end: int,
    replacement: Seq<char>,
)
    requires
        text.well_kinded(),
        0 <= start <= end <= text.attributes.len(),
    ensures
        text.replaced(start, end, replacement).well_kinded(),
{
}

/// A character reads back the value written for it under the key it was
/// written for; every other character and key reads as before.
pub proof fn lemma_attribute_after_set(
    text: RichText,
    index: int,
    key: Key,
    attribute: Attribute,
    at: int,
    asked: Key,
)
    requires
        text.wf(),
        0 <= index < text.len(),
        0 <= at < text.len(),
    ensures
        text.with_attribute(index, key, attribute).wf(),
        text.with_attribute(index, key, attribute).attribute_for(at, asked) == if at == index
            && asked == key {
            attribute
        } else {
            text.attribute_for(at, asked)
        },
{
}

/// A new default for `key` is what every character without a value of its
/// own for `key` reads from then on; characters with a value of their own,
/// and other keys, read as before.
pub proof fn lemma_attribute_after_default_change(
    text: RichText,
    key: Key,
    attribute: Attribute,
    at: int,
    asked: Key,
)
    requires
        text.wf(),
        0 <= at < text.len(),
    ensures
        text.with_default(key, attribute).wf(),
        text.with_default(key, attribute).attribute_for(at, asked) == if asked == key
            && !text.attributes[at].contains_key(key) {
            attribute
        } else {
            text.attribute_for(at, asked)
        },
{
}

/// Unformatted text reads the baseline default everywhere.
pub proof fn lemma_plain_text_reads_baseline(id: u128, text: Seq<char>, at: int, asked: Key)
    requires
        0 <= at < text.len(),
    ensures
        RichText::plain(id, text).wf(),
        RichText::plain(id, text).attribute_for(at, asked) == baseline_attributes()[asked],
{
}

/// A value written through one window at its index `local` is what the owner
/// reads at `writer.start + local`, and what any window reads at the index
/// that stands for the same character. Every other read through a window is
/// as before; a window that does not cover the character reads nothing new.
pub proof fn lemma_write_through_window(
    owner: RichText,
    writer: AttributedSubstring,
    local: int,
    key: Key,
    attribute: Attribute,
    reader: AttributedSubstring,
    at: int,
    asked: Key,
)
    requires
        owner.wf(),
        writer.within(owner),
        reader.within(owner),
        0 <= local < writer.len(),
        0 <= at < reader.len(),
    ensures
        writer.written(owner, local, key, attribute).wf(),
        writer.written(owner, local, key, attribute).attribute_for(writer.start + local, key)
            == attribute,
        reader.attribute_in(writer.written(owner, local, key, attribute), at, asked)
            == if reader.start + at == writer.start + local && asked == key {
            attribute
        } else {
            reader.attribute_in(owner, at, asked)
        },
        !reader.covers(writer.start + local) ==> reader.attribute_in(
            writer.written(owner, local, key, attribute),
            at,
            asked,
        ) == reader.attribute_in(owner, at, asked),
{
}

} // verus!
