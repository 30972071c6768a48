use vstd::prelude::*;

verus! {

/// A primary/secondary pair: the requested locale's value beside the base
/// locale's value. It is a transient view handed to a merge, never stored.
pub struct Fallback<T> {
    pub primary: Option<T>,
    pub secondary: Option<T>,
}

impl<T> Fallback<T> {
    pub fn new(primary: Option<T>, secondary: Option<T>) -> (r: Self)
        ensures
            r.primary == primary,
            r.secondary == secondary,
    {
        Fallback { primary, secondary }
    }

    /// The two sides, as a pair.
    pub fn unzip(self) -> (r: (Option<T>, Option<T>))
        ensures
            r.0 == self.primary,
            r.1 == self.secondary,
    {
        (self.primary, self.secondary)
    }

    /// The primary side when present, else the secondary side.
    pub fn fallback(self) -> (r: Option<T>)
        ensures
            r == (if self.primary is Some {
                self.primary
            } else {
                self.secondary
            }),
    {
        match self.primary {
            Some(p) => Some(p),
            None => self.secondary,
        }
    }
}

} // verus!
