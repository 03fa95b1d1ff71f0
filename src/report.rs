use vstd::prelude::*;

verus! {

/// Remembers the last error reported by the reload loop, so that a broken
/// configuration is reported once and not on every retry.
#[derive(Debug)]
pub struct ErrorReporter {
    /// The message reported last, if any.
    pub last: Option<String>,
}

/// Whether `message` differs from what was reported last, or nothing was.
pub open spec fn is_news(last: Option<String>, message: Seq<char>) -> bool {
    match last {
        None => true,
        Some(prev) => prev@ != message,
    }
}

impl ErrorReporter {
    /// A reporter that has reported nothing yet.
    pub fn new() -> (r: ErrorReporter)
        ensures
            r.last is None,
    {
        ErrorReporter { last: None }
    }

    /// Records `message` as an error of the latest run and tells whether it
    /// should be shown: only when it differs from the one shown last.
    pub fn report(&mut self, message: String) -> (r: bool)
        ensures
            r == is_news(old(self).last, message@),
            r ==> final(self).last == Some(message),
            !r ==> final(self).last == old(self).last,
            final(self).last matches Some(shown) && shown@ == message@,
    {
        let fresh = match &self.last {
            None => true,
            Some(prev) => !prev.eq(&message),
        };
        if fresh {
            self.last = Some(message);
        }
        fresh
    }
}

} // verus!
