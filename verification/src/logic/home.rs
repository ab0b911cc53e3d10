use vstd::prelude::*;
use vstd::string::*;

verus! {

/// A player's base, held as the text that describes it.
pub struct LogicClientHome {
    pub home_json: String,
}

impl View for LogicClientHome {
    type V = Seq<char>;

    open spec fn view(&self) -> Seq<char> {
        self.home_json@
    }
}

impl LogicClientHome {
    /// A base without a description.
    pub fn new() -> (r: Self)
        ensures
            r@ == Seq::<char>::empty(),
    {
        Self { home_json: String::new() }
    }

    pub fn set_home_json(&mut self, home_json: &str)
        ensures
            final(self)@ == home_json@,
    {
        self.home_json = String::from_str(home_json);
    }

    pub fn get_home_json(&self) -> (r: &str)
        ensures
            r@ == self@,
    {
        self.home_json.as_str()
    }
}

} // verus!
