//! The menu action that carries data.

use vstd::prelude::*;
use vstd::std_specs::cmp::PartialEqSpecImpl;

verus! {

/// Asks for a page to be opened in the system's browser.
#[derive(Debug)]
pub struct OpenBrowser {
    pub url: String,
}

impl Clone for OpenBrowser {
    fn clone(&self) -> (copy: OpenBrowser)
        ensures
            copy == *self,
    {
        OpenBrowser { url: self.url.clone() }
    }
}

impl PartialEq for OpenBrowser {
    fn eq(&self, other: &OpenBrowser) -> (equal: bool) {
        self.url == other.url
    }
}

impl PartialEqSpecImpl for OpenBrowser {
    open spec fn obeys_eq_spec() -> bool {
        true
    }

    open spec fn eq_spec(&self, other: &OpenBrowser) -> bool {
        self.url@ == other.url@
    }
}

} // verus!
