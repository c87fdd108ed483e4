//! Text values and the presets and errors of text measurement.
use vstd::prelude::*;

verus! {

/// A piece of text.
#[derive(Debug)]
pub struct Text {
    pub inner: String,
}

/// Builds a [`Text`].
#[derive(Debug)]
pub struct TextBuilder {
    inner: String,
}

impl TextBuilder {
    /// A builder holding empty text.
    pub fn new() -> (b: TextBuilder)
        ensures
            b.spec_inner() == Seq::<char>::empty(),
    {
        TextBuilder { inner: String::new() }
    }

    pub closed spec fn spec_inner(&self) -> Seq<char> {
        self.inner@
    }

    /// Replaces the text.
    pub fn with_str(self, text: &str) -> (b: TextBuilder)
        ensures
            b.spec_inner() == text@,
    {
        TextBuilder { inner: text.to_owned() }
    }

    pub fn build(self) -> (t: Text)
        ensures
            t.inner@ == self.spec_inner(),
    {
        Text { inner: self.inner }
    }
}

/// A predefined format for a piece of text, such as a title or a heading.
#[derive(Clone, Copy, Debug, PartialEq, Eq, Structural)]
pub enum PresetFont {
    Title,
    Subtitle,
    Header1,
    Header2,
    Header3,
    Strong,
    Normal,
    Italic,
}

impl PresetFont {
    /// Every preset, from the most to the least prominent.
    pub fn all() -> (r: Vec<PresetFont>)
        ensures
            r@ == seq![
                PresetFont::Title,
                PresetFont::Subtitle,
                PresetFont::Header1,
                PresetFont::Header2,
                PresetFont::Header3,
                PresetFont::Strong,
                PresetFont::Normal,
                PresetFont::Italic,
            ],
    {
        let r = vec![
            PresetFont::Title,
            PresetFont::Subtitle,
            PresetFont::Header1,
            PresetFont::Header2,
            PresetFont::Header3,
            PresetFont::Strong,
            PresetFont::Normal,
            PresetFont::Italic,
        ];
        assert(r@ =~= seq![
            PresetFont::Title,
            PresetFont::Subtitle,
            PresetFont::Header1,
            PresetFont::Header2,
            PresetFont::Header3,
            PresetFont::Strong,
            PresetFont::Normal,
            PresetFont::Italic,
        ]);
        r
    }
}

/// Why text could not be measured.
#[derive(Debug)]
pub enum FontEngineError {
    /// The font engine was left unusable by a failure elsewhere.
    MutexPoisoned(String),
    /// A font could not be loaded.
    FontNotLoaded(String),
    /// The requested font is not known.
    FontNotFound(String),
    /// A measured value does not fit the unit of the drawing.
    PrimitiveCastF32,
}

impl FontEngineError {
    /// The error for a measured value that does not fit the unit of the drawing.
    pub fn primitive() -> (e: FontEngineError)
        ensures
            e is PrimitiveCastF32,
    {
        FontEngineError::PrimitiveCastF32
    }
}

} // verus!
