//! One credential record and its mathematical model.

use vstd::prelude::*;

verus! {

/// One stored credential. The site identifies it.
#[derive(Debug)]
pub struct Entry {
    pub site: String,
    pub username: String,
    pub password: String,
}

/// What an [`Entry`] holds, as sequences of characters.
pub ghost struct EntryView {
    pub site: Seq<char>,
    pub username: Seq<char>,
    pub password: Seq<char>,
}

impl View for Entry {
    type V = EntryView;

    open spec fn view(&self) -> EntryView {
        EntryView { site: self.site@, username: self.username@, password: self.password@ }
    }
}

impl DeepView for Entry {
    type V = EntryView;

    open spec fn deep_view(&self) -> EntryView {
        self.view()
    }
}

impl Clone for Entry {
    fn clone(&self) -> (copy: Self)
        ensures
            copy@ == self@,
    {
        Entry {
            site: self.site.clone(),
            username: self.username.clone(),
            password: self.password.clone(),
        }
    }
}

} // verus!
