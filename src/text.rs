//! Text handles: a font is a native text format, a layout a native text
//! layout, each reached through a builder as piet's text API asks.

use vstd::prelude::*;

verus! {

/// The text engine, holding the native factory that makes formats and layouts.
pub struct Text<F>(F);

impl<F> View for Text<F> {
    type V = F;

    closed spec fn view(&self) -> F {
        self.0
    }
}

impl<F> Text<F> {
    pub fn new(factory: F) -> (r: Self)
        ensures
            r@ == factory,
    {
        Text(factory)
    }

    pub fn factory(&self) -> (r: &F)
        ensures
            *r == self@,
    {
        &self.0
    }
}

/// A font: a native text format.
pub struct Font<T>(T);

impl<T> View for Font<T> {
    type V = T;

    closed spec fn view(&self) -> T {
        self.0
    }
}

impl<T> Font<T> {
    pub fn text_format(&self) -> (r: &T)
        ensures
            *r == self@,
    {
        &self.0
    }
}

/// A font that is ready to be built from its native text format.
pub struct FontBuilder<T> {
    text_format: T,
}

impl<T> View for FontBuilder<T> {
    type V = T;

    closed spec fn view(&self) -> T {
        self.text_format
    }
}

impl<T> FontBuilder<T> {
    pub fn new(text_format: T) -> (r: Self)
        ensures
            r@ == text_format,
    {
        FontBuilder { text_format }
    }

    /// The font of this text format.
    pub fn build(self) -> (r: Font<T>)
        ensures
            r@ == self@,
    {
        Font(self.text_format)
    }
}

/// A laid-out run of text: a native text layout.
pub struct TextLayout<L>(L);

impl<L> View for TextLayout<L> {
    type V = L;

    closed spec fn view(&self) -> L {
        self.0
    }
}

impl<L> TextLayout<L> {
    pub fn layout(&self) -> (r: &L)
        ensures
            *r == self@,
    {
        &self.0
    }
}

/// A text layout that is ready to be built from its native layout.
pub struct TextLayoutBuilder<L> {
    text_layout: L,
}

impl<L> View for TextLayoutBuilder<L> {
    type V = L;

    closed spec fn view(&self) -> L {
        self.text_layout
    }
}

impl<L> TextLayoutBuilder<L> {
    pub fn new(text_layout: L) -> (r: Self)
        ensures
            r@ == text_layout,
    {
        TextLayoutBuilder { text_layout }
    }

    /// The layout that this builder holds.
    pub fn build(self) -> (r: TextLayout<L>)
        ensures
            r@ == self@,
    {
        TextLayout(self.text_layout)
    }
}

} // verus!
