use vstd::prelude::*;

verus! {

/// The contents of a file, read whole, as text.
pub struct MemoryBuffer {
    text: String,
}

impl MemoryBuffer {
    /// The text held.
    pub closed spec fn view(&self) -> Seq<char> {
        self.text@
    }

    /// A buffer holding the text given.
    pub fn new(text: String) -> (r: MemoryBuffer)
        ensures
            r.view() == text@,
    {
        MemoryBuffer { text }
    }

    /// The text held.
    pub fn as_str(&self) -> (r: &str)
        ensures
            r@ == self.view(),
    {
        self.text.as_str()
    }
}

} // verus!
