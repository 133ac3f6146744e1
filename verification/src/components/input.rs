use vstd::prelude::*;

verus! {

/// A labelled text field: the text it holds and the label shown with it.
#[derive(Debug)]
pub struct MyInput {
    value: String,
    label: String,
    with_error: bool,
}

/// What a text field reports: its text after an edit.
#[derive(Debug, Clone)]
pub enum MyInputMessage {
    InputChanged(String),
}

impl MyInput {
    /// The text in the field.
    pub closed spec fn text(&self) -> Seq<char> {
        self.value@
    }

    /// The label of the field.
    pub closed spec fn caption(&self) -> Seq<char> {
        self.label@
    }

    /// Whether the field is marked as holding an error.
    pub closed spec fn flagged(&self) -> bool {
        self.with_error
    }

    /// A field with the given text and label, not marked as an error.
    pub fn new(value: &str, label: &str) -> (field: Self)
        ensures
            field.text() == value@,
            field.caption() == label@,
            !field.flagged(),
    {
        Self { label: label.to_owned(), value: value.to_owned(), with_error: false }
    }

    /// Replaces the text by the one that the message carries; the label and
    /// the error mark stay.
    pub fn update(&mut self, message: MyInputMessage)
        ensures
            final(self).text() == (match message {
                MyInputMessage::InputChanged(value) => value@,
            }),
            final(self).caption() == old(self).caption(),
            final(self).flagged() == old(self).flagged(),
    {
        match message {
            MyInputMessage::InputChanged(value) => self.value = value,
        }
    }

    /// The text in the field.
    pub fn value(&self) -> (value: &str)
        ensures
            value@ == self.text(),
    {
        self.value.as_str()
    }

    /// The label of the field.
    pub fn label(&self) -> (label: &str)
        ensures
            label@ == self.caption(),
    {
        self.label.as_str()
    }
}

} // verus!
