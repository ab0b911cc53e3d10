use vstd::prelude::*;
use vstd::string::*;
use crate::sc_string::StringBuilder;

verus! {

/// A JSON value, held as its text.
pub struct LogicJSONNode {
    pub text: String,
}

impl View for LogicJSONNode {
    type V = Seq<char>;

    open spec fn view(&self) -> Seq<char> {
        self.text@
    }
}

impl LogicJSONNode {
    /// An object without members.
    pub fn new_json_object() -> (r: Self)
        ensures
            r@ == "{}"@,
    {
        Self { text: String::from_str("{}") }
    }

    /// The value that `text` spells.
    pub fn from_text(text: &str) -> (r: Self)
        ensures
            r@ == text@,
    {
        Self { text: String::from_str(text) }
    }

    /// Replaces the value by the one that `text` spells.
    pub fn set_text(&mut self, text: &str)
        ensures
            final(self)@ == text@,
    {
        self.text = String::from_str(text);
    }

    /// Puts the text of the value behind what `string_builder` holds.
    pub fn write_to_string(&self, string_builder: &mut StringBuilder)
        ensures
            final(string_builder)@ == old(string_builder)@ + self@,
    {
        string_builder.append(self.text.as_str());
    }
}

} // verus!
