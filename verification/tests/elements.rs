use native_shell::elements::{Element, IntoElement, SharedString};
use native_shell::interactive_text::InteractiveText;
use native_shell::styled_text::StyledText;
use std::borrow::Cow;

/// A container that takes any element.
struct Div;

impl Div {
    fn child<E: IntoElement>(self, child: E) -> Div {
        let _ = child.into_element();
        self
    }
}

fn div() -> Div {
    Div
}

#[test]
fn test_into_element_for() {
    let _ = div().child("static str");
    let _ = div().child("String".to_string());
    let _ = div().child(Cow::Borrowed("Cow"));
    let _ = div().child(SharedString::new("SharedString"));
}

#[test]
fn texts_keep_their_characters() {
    assert_eq!("static str".into_element(), "static str");
    assert_eq!("String".to_string().into_element().0, "String");
    assert_eq!(Cow::Borrowed("Cow").into_element().0, "Cow");
    assert_eq!(Cow::<'static, str>::Owned("owned".to_string()).into_element().0, "owned");
    assert_eq!(SharedString::new("shared").into_element().0, "shared");
}

#[test]
fn only_interactive_text_has_a_name() {
    assert_eq!("text".id(), None);
    assert_eq!(SharedString::new("text").id(), None);
    let styled = StyledText::<u8, u8>::new("text".to_string()).into_element();
    assert_eq!(styled.id(), None);
    let interactive =
        InteractiveText::<u8, u8, (), (), ()>::new("links".to_string(), styled).into_element();
    assert_eq!(interactive.id(), Some("links".to_string()));
    assert_eq!(interactive.text().text(), "text");
}
