use vstd::prelude::*;

verus! {

/// One journal record.
#[derive(Clone, Debug)]
pub struct Entry {
    pub title: String,
    /// Seconds since the Unix epoch.
    pub time: u64,
    pub text: String,
}

impl Entry {
    pub fn new(title: String, time: u64, text: String) -> (r: Entry)
        ensures
            r.title == title,
            r.time == time,
            r.text == text,
    {
        Entry { title, time, text }
    }

    /// A field-by-field copy of the entry.
    pub fn duplicate(&self) -> (r: Entry)
        ensures
            r == *self,
    {
        Entry { title: self.title.clone(), time: self.time, text: self.text.clone() }
    }
}

} // verus!
