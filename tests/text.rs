use piet_d2d::text::{FontBuilder, Text, TextLayoutBuilder};

#[test]
fn font_builder_gives_its_format() {
    let font = FontBuilder::new(String::from("Segoe UI 12")).build();
    assert_eq!(font.text_format(), "Segoe UI 12");
}

#[test]
fn layout_builder_gives_its_layout() {
    let layout = TextLayoutBuilder::new(vec![1u32, 2, 3]).build();
    assert_eq!(layout.layout(), &vec![1u32, 2, 3]);
}

#[test]
fn text_holds_its_factory() {
    let text = Text::new(7u8);
    assert_eq!(*text.factory(), 7);
}
