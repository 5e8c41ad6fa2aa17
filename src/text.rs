//! A text component: the message shown to a player.
use vstd::prelude::*;

verus! {

/// A plain text component.
#[derive(Debug)]
pub struct Text {
    pub text: String,
}

impl From<String> for Text {
    fn from(text: String) -> (r: Text) {
        Text { text }
    }
}

impl vstd::std_specs::convert::FromSpecImpl<String> for Text {
    open spec fn obeys_from_spec() -> bool {
        true
    }

    open spec fn from_spec(text: String) -> Text {
        Text { text }
    }
}

} // verus!
