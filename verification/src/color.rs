//! The two color representations the picker moves between, and the values a
//! slider can hand to a color.
//!
//! A perceptual color carries four binary32 numbers. They are held here as
//! their 32-bit words: the picker stores, copies, compares and clamps them,
//! and never does arithmetic on them.

use vstd::prelude::*;

verus! {

/// The word of the binary32 number zero.
pub const ZERO: u32 = 0;

/// The word of the binary32 number one half.
pub const HALF: u32 = 0x3f00_0000;

/// The word of the binary32 number one.
pub const ONE: u32 = 0x3f80_0000;

/// The word of the binary32 number nearest to pi.
pub const PI: u32 = 0x4049_0fdb;

/// The word of the binary32 number nearest to minus pi.
pub const MINUS_PI: u32 = 0xc049_0fdb;

/// Whether `word` encodes a binary32 "not a number".
pub open spec fn word_is_nan(word: u32) -> bool {
    (0x7f80_0000 < word && word <= 0x7fff_ffff) || 0xff80_0000 < word
}

/// Whether `word` encodes a binary32 zero of either sign.
pub open spec fn word_is_zero(word: u32) -> bool {
    word == 0 || word == 0x8000_0000
}

/// Numeric equality of two binary32 words: a "not a number" equals nothing,
/// the two zeros equal each other, and any other number equals only its own
/// word.
pub open spec fn words_equal(a: u32, b: u32) -> bool {
    &&& !word_is_nan(a)
    &&& !word_is_nan(b)
    &&& (a == b || (word_is_zero(a) && word_is_zero(b)))
}

/// Decides numeric equality of two binary32 words.
pub fn same_number(a: u32, b: u32) -> (equal: bool)
    ensures
        equal == words_equal(a, b),
{
    let a_nan = (0x7f80_0000 < a && a <= 0x7fff_ffff) || 0xff80_0000 < a;
    let b_nan = (0x7f80_0000 < b && b <= 0x7fff_ffff) || 0xff80_0000 < b;
    let a_zero = a == 0 || a == 0x8000_0000;
    let b_zero = b == 0 || b == 0x8000_0000;
    !a_nan && !b_nan && (a == b || (a_zero && b_zero))
}

/// Where a word that is a number stands among the binary32 numbers: a
/// greater number has a greater place, and the two zeros share one.
pub open spec fn place(word: u32) -> int {
    if word < 0x8000_0000 {
        word as int
    } else {
        0x8000_0000 - word
    }
}

/// Whether `word` is a number from `low` to `high`.
pub open spec fn word_in_range(word: u32, low: u32, high: u32) -> bool {
    !word_is_nan(word) && place(low) <= place(word) <= place(high)
}

/// The number of the range from `low` to `high` that is nearest to `word`;
/// `low` where `word` is no number at all.
pub open spec fn word_clamped(word: u32, low: u32, high: u32) -> u32 {
    if word_is_nan(word) || place(word) < place(low) {
        low
    } else if place(word) > place(high) {
        high
    } else {
        word
    }
}

/// Clamping lands in the range, and leaves what is in the range alone.
pub proof fn lemma_clamped_word_in_range(word: u32, low: u32, high: u32)
    requires
        word_in_range(low, low, high),
        word_in_range(high, low, high),
    ensures
        word_in_range(word_clamped(word, low, high), low, high),
        word_in_range(word, low, high) ==> word_clamped(word, low, high) == word,
        word_clamped(word_clamped(word, low, high), low, high) == word_clamped(word, low, high),
{
}

/// Brings a binary32 word into the range from `low` to `high`.
pub fn clamp_word(word: u32, low: u32, high: u32) -> (clamped: u32)
    ensures
        clamped == word_clamped(word, low, high),
{
    let nan = (0x7f80_0000 < word && word <= 0x7fff_ffff) || 0xff80_0000 < word;
    if nan {
        return low;
    }
    let at: i64 = if word < 0x8000_0000 { word as i64 } else { 0x8000_0000i64 - word as i64 };
    let floor: i64 = if low < 0x8000_0000 { low as i64 } else { 0x8000_0000i64 - low as i64 };
    let ceiling: i64 = if high < 0x8000_0000 { high as i64 } else { 0x8000_0000i64 - high as i64 };
    if at < floor {
        low
    } else if at > ceiling {
        high
    } else {
        word
    }
}

/// A gamma-encoded display color: four 8-bit channels, red, green and blue
/// already scaled by alpha.
#[derive(Clone, Copy, Debug, PartialEq, Eq, Hash, Structural)]
pub struct DisplayColor {
    pub r: u8,
    pub g: u8,
    pub b: u8,
    pub a: u8,
}

impl DisplayColor {
    /// The channels in wire order: red, green, blue, alpha.
    pub open spec fn bytes(self) -> Seq<u8> {
        seq![self.r, self.g, self.b, self.a]
    }

    /// The color as it is read back into the perceptual space. Color bytes
    /// that were scaled by an alpha of zero say nothing of the color they
    /// came from, so a fully transparent color is read as transparent black.
    pub open spec fn read_back(self) -> DisplayColor {
        if self.a == 0 {
            DisplayColor { r: 0, g: 0, b: 0, a: 0 }
        } else {
            self
        }
    }

    pub fn new(r: u8, g: u8, b: u8, a: u8) -> (color: Self)
        ensures
            color == (DisplayColor { r, g, b, a }),
    {
        DisplayColor { r, g, b, a }
    }

    /// The color to hand to a conversion into the perceptual space: this
    /// one, or transparent black where this one is fully transparent.
    pub fn readable(self) -> (read: DisplayColor)
        ensures
            read == self.read_back(),
    {
        if self.a == 0 {
            DisplayColor { r: 0, g: 0, b: 0, a: 0 }
        } else {
            self
        }
    }

    /// Reads a color from its four wire bytes.
    pub fn from_bytes(bytes: [u8; 4]) -> (color: Self)
        ensures
            color.bytes() == bytes@,
    {
        let color = DisplayColor { r: bytes[0], g: bytes[1], b: bytes[2], a: bytes[3] };
        assert(color.bytes() =~= bytes@);
        color
    }

    /// Writes a color as its four wire bytes.
    pub fn to_bytes(self) -> (bytes: [u8; 4])
        ensures
            bytes@ == self.bytes(),
    {
        let bytes = [self.r, self.g, self.b, self.a];
        assert(bytes@ =~= self.bytes());
        bytes
    }
}

/// One of the four numbers of a perceptual color, each with a slider of its
/// own.
#[derive(Clone, Copy, Debug, PartialEq, Eq, Structural)]
pub enum Channel {
    Alpha,
    Hue,
    Chroma,
    Lightness,
}

impl Channel {
    /// The two ends of the channel's slider, as binary32 words: alpha and
    /// lightness run from zero to one, hue from minus pi to pi, and chroma
    /// from zero to one half, which is about as far as a display can follow.
    pub open spec fn bounds(self) -> (u32, u32) {
        match self {
            Channel::Alpha => (ZERO, ONE),
            Channel::Hue => (MINUS_PI, PI),
            Channel::Chroma => (ZERO, HALF),
            Channel::Lightness => (ZERO, ONE),
        }
    }

    /// Whether the channel is an angle. The two ends of its slider then point
    /// the same way, and only the upper one counts as a value.
    pub open spec fn wraps(self) -> bool {
        self == Channel::Hue
    }

    /// Whether `word` is a number within the channel's bounds: from the
    /// lower end to the upper one, without the lower end where the channel
    /// wraps.
    pub open spec fn admits(self, word: u32) -> bool {
        let (low, high) = self.bounds();
        &&& word_in_range(word, low, high)
        &&& self.wraps() ==> place(low) < place(word)
    }

    /// The value that the channel takes for `word`: the number within the
    /// bounds that is nearest to it, with the upper end standing in for the
    /// lower one where the channel wraps.
    pub open spec fn nearest(self, word: u32) -> u32 {
        let (low, high) = self.bounds();
        let clamped = word_clamped(word, low, high);
        if self.wraps() && clamped == low {
            high
        } else {
            clamped
        }
    }

    /// The value `word` as this channel's slider hands it on.
    pub open spec fn value(self, word: u32) -> SliderValue {
        match self {
            Channel::Alpha => SliderValue::Alpha(word),
            Channel::Hue => SliderValue::Hue(word),
            Channel::Chroma => SliderValue::Chroma(word),
            Channel::Lightness => SliderValue::Lightness(word),
        }
    }

    /// The ends of the channel's slider.
    pub fn range(self) -> (range: (u32, u32))
        ensures
            range == self.bounds(),
    {
        match self {
            Channel::Alpha => (ZERO, ONE),
            Channel::Hue => (MINUS_PI, PI),
            Channel::Chroma => (ZERO, HALF),
            Channel::Lightness => (ZERO, ONE),
        }
    }

    /// Brings a word within the channel's bounds.
    pub fn clamp(self, word: u32) -> (clamped: u32)
        ensures
            clamped == self.nearest(word),
            self.admits(clamped),
            self.admits(word) ==> clamped == word,
    {
        let (low, high) = self.range();
        proof {
            lemma_clamped_word_in_range(word, low, high);
        }
        let clamped = clamp_word(word, low, high);
        match self {
            Channel::Hue => {
                if clamped == low {
                    high
                } else {
                    clamped
                }
            },
            _ => clamped,
        }
    }

    /// Wraps a word as a value of this channel's slider.
    pub fn at(self, word: u32) -> (value: SliderValue)
        ensures
            value == self.value(word),
    {
        match self {
            Channel::Alpha => SliderValue::Alpha(word),
            Channel::Hue => SliderValue::Hue(word),
            Channel::Chroma => SliderValue::Chroma(word),
            Channel::Lightness => SliderValue::Lightness(word),
        }
    }
}

/// What a channel takes for a word lies within its bounds, and is the word
/// itself where that lay within them.
pub proof fn lemma_nearest_is_admitted(channel: Channel, word: u32)
    ensures
        channel.admits(channel.nearest(word)),
        channel.admits(word) ==> channel.nearest(word) == word,
        channel.nearest(channel.nearest(word)) == channel.nearest(word),
{
    let (low, high) = channel.bounds();
    lemma_clamped_word_in_range(word, low, high);
}

/// Bringing a color within its bounds yields a color within its bounds, and
/// changes nothing of a color that was within them.
pub proof fn lemma_nominal_is_nominal(color: PerceptualColor)
    ensures
        color.nominal().is_nominal(),
        color.is_nominal() ==> color.nominal() == color,
        color.nominal().nominal() == color.nominal(),
{
    lemma_nearest_is_admitted(Channel::Lightness, color.lightness);
    lemma_nearest_is_admitted(Channel::Chroma, color.chroma);
    lemma_nearest_is_admitted(Channel::Hue, color.hue);
    lemma_nearest_is_admitted(Channel::Alpha, color.alpha);
}

/// Every number that a slider value writes lies within the bounds of its
/// channel, so a color that was within bounds is within bounds after any
/// sequence of slider values.
pub proof fn lemma_updates_keep_nominal(color: PerceptualColor, values: Seq<SliderValue>)
    requires
        color.is_nominal(),
    ensures
        color.updated_by_all(values).is_nominal(),
    decreases values.len(),
{
    if values.len() > 0 {
        lemma_updates_keep_nominal(color, values.drop_last());
        lemma_update_writes_within_bounds(color.updated_by_all(values.drop_last()), values.last());
    }
}

/// The fields that a slider value writes are within bounds afterwards,
/// whatever the color held before; the fields it does not write are
/// untouched.
pub proof fn lemma_update_writes_within_bounds(color: PerceptualColor, value: SliderValue)
    ensures
        match value {
            SliderValue::Alpha(_) => Channel::Alpha.admits(color.updated(value).alpha),
            SliderValue::Hue(_) => Channel::Hue.admits(color.updated(value).hue),
            SliderValue::Chroma(_) => Channel::Chroma.admits(color.updated(value).chroma),
            SliderValue::Lightness(_) => Channel::Lightness.admits(color.updated(value).lightness),
            SliderValue::ChromaLightness(_, _) => Channel::Chroma.admits(
                color.updated(value).chroma,
            ) && Channel::Lightness.admits(color.updated(value).lightness),
        },
        color.is_nominal() ==> color.updated(value).is_nominal(),
{
    match value {
        SliderValue::Alpha(w) => lemma_nearest_is_admitted(Channel::Alpha, w),
        SliderValue::Hue(w) => lemma_nearest_is_admitted(Channel::Hue, w),
        SliderValue::Chroma(w) => lemma_nearest_is_admitted(Channel::Chroma, w),
        SliderValue::Lightness(w) => lemma_nearest_is_admitted(Channel::Lightness, w),
        SliderValue::ChromaLightness(c, l) => {
            lemma_nearest_is_admitted(Channel::Chroma, c);
            lemma_nearest_is_admitted(Channel::Lightness, l);
        },
    }
}

/// A value that one of the picker's five sliders hands to a color. Each
/// number is a binary32 word. A drag may carry it past the ends of the
/// slider; the color takes it clamped.
#[derive(Clone, Copy, Debug, PartialEq, Eq, Structural)]
pub enum SliderValue {
    Alpha(u32),
    Hue(u32),
    Chroma(u32),
    Lightness(u32),
    /// The two-dimensional slider: chroma along the horizontal axis,
    /// lightness along the vertical one.
    ChromaLightness(u32, u32),
}

/// A color in the cylindrical perceptual space, with alpha kept apart from
/// the color. Each field is a binary32 word and is stored exactly as given:
/// the hue of a color without chroma means nothing to the eye, and is kept
/// all the same.
#[derive(Clone, Copy, Debug, PartialEq, Eq, Structural)]
pub struct PerceptualColor {
    pub lightness: u32,
    pub chroma: u32,
    pub hue: u32,
    pub alpha: u32,
}

impl PerceptualColor {
    /// The fields in wire order: lightness, chroma, hue, alpha.
    pub open spec fn words(self) -> Seq<u32> {
        seq![self.lightness, self.chroma, self.hue, self.alpha]
    }

    /// The number held for `channel`.
    pub open spec fn word_of(self, channel: Channel) -> u32 {
        match channel {
            Channel::Alpha => self.alpha,
            Channel::Hue => self.hue,
            Channel::Chroma => self.chroma,
            Channel::Lightness => self.lightness,
        }
    }

    /// Whether each of the four numbers lies within the bounds of its
    /// channel.
    pub open spec fn is_nominal(self) -> bool {
        &&& Channel::Lightness.admits(self.lightness)
        &&& Channel::Chroma.admits(self.chroma)
        &&& Channel::Hue.admits(self.hue)
        &&& Channel::Alpha.admits(self.alpha)
    }

    /// This color with each of the four numbers brought within the bounds of
    /// its channel.
    pub open spec fn nominal(self) -> PerceptualColor {
        PerceptualColor {
            lightness: Channel::Lightness.nearest(self.lightness),
            chroma: Channel::Chroma.nearest(self.chroma),
            hue: Channel::Hue.nearest(self.hue),
            alpha: Channel::Alpha.nearest(self.alpha),
        }
    }

    /// This color with alpha one.
    pub open spec fn made_opaque(self) -> PerceptualColor {
        PerceptualColor { alpha: ONE, ..self }
    }

    /// This color after a slider has handed it `value`: the slider's own
    /// field or fields take the value, clamped to the bounds of the channel;
    /// the others stay.
    pub open spec fn updated(self, value: SliderValue) -> PerceptualColor {
        match value {
            SliderValue::Alpha(alpha) => PerceptualColor {
                alpha: Channel::Alpha.nearest(alpha),
                ..self
            },
            SliderValue::Hue(hue) => PerceptualColor { hue: Channel::Hue.nearest(hue), ..self },
            SliderValue::Chroma(chroma) => PerceptualColor {
                chroma: Channel::Chroma.nearest(chroma),
                ..self
            },
            SliderValue::Lightness(lightness) => PerceptualColor {
                lightness: Channel::Lightness.nearest(lightness),
                ..self
            },
            SliderValue::ChromaLightness(chroma, lightness) => PerceptualColor {
                lightness: Channel::Lightness.nearest(lightness),
                chroma: Channel::Chroma.nearest(chroma),
                ..self
            },
        }
    }

    /// This color after a whole sequence of slider values, the first applied
    /// first.
    pub open spec fn updated_by_all(self, values: Seq<SliderValue>) -> PerceptualColor
        decreases values.len(),
    {
        if values.len() == 0 {
            self
        } else {
            self.updated_by_all(values.drop_last()).updated(values.last())
        }
    }

    /// Whether every field of the two colors is the same number.
    pub open spec fn numerically_equal(self, other: PerceptualColor) -> bool {
        &&& words_equal(self.lightness, other.lightness)
        &&& words_equal(self.chroma, other.chroma)
        &&& words_equal(self.hue, other.hue)
        &&& words_equal(self.alpha, other.alpha)
    }

    pub fn new(lightness: u32, chroma: u32, hue: u32, alpha: u32) -> (color: Self)
        ensures
            color == (PerceptualColor { lightness, chroma, hue, alpha }),
    {
        PerceptualColor { lightness, chroma, hue, alpha }
    }

    /// Reads a color from its four wire words.
    pub fn from_words(words: [u32; 4]) -> (color: Self)
        ensures
            color.words() == words@,
    {
        let color = PerceptualColor {
            lightness: words[0],
            chroma: words[1],
            hue: words[2],
            alpha: words[3],
        };
        assert(color.words() =~= words@);
        color
    }

    /// Writes a color as its four wire words.
    pub fn to_words(self) -> (words: [u32; 4])
        ensures
            words@ == self.words(),
    {
        let words = [self.lightness, self.chroma, self.hue, self.alpha];
        assert(words@ =~= self.words());
        words
    }

    /// Reads one channel, for the mark that shows where its slider stands.
    pub fn channel(&self, channel: Channel) -> (word: u32)
        ensures
            word == self.word_of(channel),
    {
        match channel {
            Channel::Alpha => self.alpha,
            Channel::Hue => self.hue,
            Channel::Chroma => self.chroma,
            Channel::Lightness => self.lightness,
        }
    }

    /// The color the gradients of a pass are drawn from: this one, opaque.
    pub fn opaque(self) -> (color: Self)
        ensures
            color == self.made_opaque(),
    {
        PerceptualColor { alpha: ONE, ..self }
    }

    /// Hands the color a slider value. What is written lies within the
    /// bounds of its channel, so a color within bounds stays within them.
    pub fn apply(self, value: SliderValue) -> (color: Self)
        ensures
            color == self.updated(value),
            self.is_nominal() ==> color.is_nominal(),
    {
        match value {
            SliderValue::Alpha(alpha) => PerceptualColor {
                alpha: Channel::Alpha.clamp(alpha),
                ..self
            },
            SliderValue::Hue(hue) => PerceptualColor { hue: Channel::Hue.clamp(hue), ..self },
            SliderValue::Chroma(chroma) => PerceptualColor {
                chroma: Channel::Chroma.clamp(chroma),
                ..self
            },
            SliderValue::Lightness(lightness) => PerceptualColor {
                lightness: Channel::Lightness.clamp(lightness),
                ..self
            },
            SliderValue::ChromaLightness(chroma, lightness) => PerceptualColor {
                lightness: Channel::Lightness.clamp(lightness),
                chroma: Channel::Chroma.clamp(chroma),
                ..self
            },
        }
    }

    /// Hands the color a sequence of slider values in order.
    pub fn apply_all(self, values: &Vec<SliderValue>) -> (color: Self)
        ensures
            color == self.updated_by_all(values@),
            self.is_nominal() ==> color.is_nominal(),
    {
        let mut color = self;
        let mut i: usize = 0;
        while i < values.len()
            invariant
                i <= values.len(),
                color == self.updated_by_all(values@.take(i as int)),
                self.is_nominal() ==> color.is_nominal(),
            decreases values.len() - i,
        {
            assert(values@.take(i + 1).drop_last() =~= values@.take(i as int));
            color = color.apply(values[i]);
            i += 1;
        }
        assert(values@.take(i as int) =~= values@);
        color
    }

    /// Brings the color within the bounds of its channels. A color that is
    /// within them already comes back as it is.
    pub fn clamped(self) -> (color: Self)
        ensures
            color == self.nominal(),
            color.is_nominal(),
            self.is_nominal() ==> color == self,
    {
        PerceptualColor {
            lightness: Channel::Lightness.clamp(self.lightness),
            chroma: Channel::Chroma.clamp(self.chroma),
            hue: Channel::Hue.clamp(self.hue),
            alpha: Channel::Alpha.clamp(self.alpha),
        }
    }

    /// Compares the two colors field by field, as numbers.
    pub fn same_value(&self, other: &PerceptualColor) -> (same: bool)
        ensures
            same == self.numerically_equal(*other),
    {
        same_number(self.lightness, other.lightness) && same_number(self.chroma, other.chroma)
            && same_number(self.hue, other.hue) && same_number(self.alpha, other.alpha)
    }
}

} // verus!
