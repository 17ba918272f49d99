//! What can be put where an element is asked for.

use crate::interactive_text::InteractiveText;
use crate::styled_text::StyledText;
use std::borrow::Cow;
use vstd::prelude::*;

verus! {

/// A string that elements share.
#[derive(Debug)]
pub struct SharedString(pub String);

impl SharedString {
    /// The shared string of a text.
    pub fn new(text: &str) -> (shared: SharedString)
        ensures
            shared.0@ == text@,
    {
        SharedString(text.to_owned())
    }
}

/// What has a place in a tree of elements.
pub trait Element: Sized {
    /// The name under which state is kept for the element.
    spec fn name(&self) -> Option<Seq<char>>;

    /// The name under which state is kept for the element.
    fn id(&self) -> (id: Option<String>)
        ensures
            match id {
                Some(id) => self.name() == Some(id@),
                None => self.name() is None,
            },
    ;
}

/// What can be put where an element is asked for.
pub trait IntoElement: Sized {
    type Element: Element;

    /// Whether an element is what this becomes.
    spec fn becomes(self, element: Self::Element) -> bool;

    /// The element.
    fn into_element(self) -> (element: Self::Element)
        ensures
            self.becomes(element),
    ;
}

impl Element for &'static str {
    open spec fn name(&self) -> Option<Seq<char>> {
        None
    }

    fn id(&self) -> (id: Option<String>) {
        None
    }
}

impl Element for SharedString {
    open spec fn name(&self) -> Option<Seq<char>> {
        None
    }

    fn id(&self) -> (id: Option<String>) {
        None
    }
}

impl<S: Copy, H> Element for StyledText<S, H> {
    open spec fn name(&self) -> Option<Seq<char>> {
        None
    }

    fn id(&self) -> (id: Option<String>) {
        None
    }
}

impl<S: Copy, H, Click, Hover, Tooltip> Element for InteractiveText<S, H, Click, Hover, Tooltip> {
    open spec fn name(&self) -> Option<Seq<char>> {
        Some(self@.element_id)
    }

    fn id(&self) -> (id: Option<String>) {
        Some(self.element_name().to_owned())
    }
}

impl IntoElement for &'static str {
    type Element = &'static str;

    open spec fn becomes(self, element: &'static str) -> bool {
        element == self
    }

    fn into_element(self) -> (element: &'static str) {
        self
    }
}

impl IntoElement for String {
    type Element = SharedString;

    open spec fn becomes(self, element: SharedString) -> bool {
        element.0 == self
    }

    fn into_element(self) -> (element: SharedString) {
        SharedString(self)
    }
}

impl IntoElement for Cow<'static, str> {
    type Element = SharedString;

    open spec fn becomes(self, element: SharedString) -> bool {
        element.0@ == self@
    }

    fn into_element(self) -> (element: SharedString) {
        match self {
            Cow::Borrowed(text) => SharedString(text.to_owned()),
            Cow::Owned(text) => SharedString(text),
        }
    }
}

impl IntoElement for SharedString {
    type Element = SharedString;

    open spec fn becomes(self, element: SharedString) -> bool {
        element == self
    }

    fn into_element(self) -> (element: SharedString) {
        self
    }
}

impl<S: Copy, H> IntoElement for StyledText<S, H> {
    type Element = StyledText<S, H>;

    open spec fn becomes(self, element: StyledText<S, H>) -> bool {
        element == self
    }

    fn into_element(self) -> (element: StyledText<S, H>) {
        self
    }
}

impl<S: Copy, H, Click, Hover, Tooltip> IntoElement for InteractiveText<
    S,
    H,
    Click,
    Hover,
    Tooltip,
> {
    type Element = InteractiveText<S, H, Click, Hover, Tooltip>;

    open spec fn becomes(self, element: InteractiveText<S, H, Click, Hover, Tooltip>) -> bool {
        element == self
    }

    fn into_element(self) -> (element: InteractiveText<S, H, Click, Hover, Tooltip>) {
        self
    }
}

/// A text becomes an element that holds the same characters, whichever way it is held.
pub proof fn law_texts_keep_their_characters(
    text: String,
    cow: Cow<'static, str>,
    literal: &'static str,
    shared: SharedString,
    element: SharedString,
    plain: &'static str,
)
    ensures
        text.becomes(element) ==> element.0@ == text@,
        cow.becomes(element) ==> element.0@ == cow@,
        shared.becomes(element) ==> element.0@ == shared.0@,
        literal.becomes(plain) ==> plain@ == literal@,
{
}

/// Styled and interactive texts are elements as they are.
pub proof fn law_styled_texts_become_themselves<S: Copy, H, Click, Hover, Tooltip>(
    styled: StyledText<S, H>,
    element: StyledText<S, H>,
    interactive: InteractiveText<S, H, Click, Hover, Tooltip>,
    other: InteractiveText<S, H, Click, Hover, Tooltip>,
)
    ensures
        styled.becomes(element) ==> element@ == styled@,
        interactive.becomes(other) ==> other@ == interactive@,
{
}

/// State is kept for interactive texts alone, under the name that they were given.
pub proof fn law_only_interactive_texts_have_a_name<S: Copy, H, Click, Hover, Tooltip>(
    styled: StyledText<S, H>,
    interactive: InteractiveText<S, H, Click, Hover, Tooltip>,
    shared: SharedString,
    literal: &'static str,
)
    ensures
        interactive.name() == Some(interactive@.element_id),
        styled.name() is None && shared.name() is None && literal.name() is None,
{
}

} // verus!
