//! The log of a session: one line of text for each calculation that
//! succeeded, oldest first.

use vstd::prelude::*;
use crate::text::texts;

verus! {

/// The text of a log entry: the line, ` = `, and the result as it is shown.
pub open spec fn entry_text(line: Seq<char>, result: Seq<char>) -> Seq<char> {
    line + seq![' ', '=', ' '] + result
}

/// An ordered log that only grows at its end, until it is cleared.
#[derive(Clone, Debug)]
pub struct History {
    entries: Vec<String>,
}

impl View for History {
    type V = Seq<Seq<char>>;

    closed spec fn view(&self) -> Seq<Seq<char>> {
        texts(self.entries@)
    }
}

impl History {
    /// An empty log.
    pub fn new() -> (h: History)
        ensures
            h@ == Seq::<Seq<char>>::empty(),
    {
        let h = History { entries: Vec::new() };
        h
    }

    /// The number of entries.
    pub fn len(&self) -> (n: usize)
        ensures
            n == self@.len(),
    {
        self.entries.len()
    }

    /// Whether the log holds no entry.
    pub fn is_empty(&self) -> (r: bool)
        ensures
            r == (self@.len() == 0),
    {
        self.entries.len() == 0
    }

    /// The entry at `index`, counted from zero, if there is one.
    pub fn entry(&self, index: usize) -> (r: Option<&str>)
        ensures
            match r {
                Some(e) => index < self@.len() && e@ == self@[index as int],
                None => index >= self@.len(),
            },
    {
        if index < self.entries.len() {
            Some(self.entries[index].as_str())
        } else {
            None
        }
    }

    /// Appends the entry for a calculation: the line as it was entered and
    /// the result as it is shown. Every earlier entry stays where it was.
    pub fn record(&mut self, line: &str, result: &str)
        ensures
            final(self)@ == old(self)@.push(entry_text(line@, result@)),
    {
        let mut entry = String::from_str(line);
        entry.append(" = ");
        entry.append(result);
        proof {
            reveal_strlit(" = ");
            assert(" = "@ =~= seq![' ', '=', ' ']);
        }
        self.entries.push(entry);
    }

    /// Removes every entry.
    pub fn clear(&mut self)
        ensures
            final(self)@ == Seq::<Seq<char>>::empty(),
    {
        self.entries.clear();
    }

    /// The entries with their numbers, which start at one, in order.
    pub fn numbered(&self) -> (out: Vec<(usize, String)>)
        ensures
            out@.len() == self@.len(),
            forall|i: int| 0 <= i < out@.len() ==> (#[trigger] out@[i]).0 == i + 1 && out@[i].1@ == self@[i],
    {
        let mut out: Vec<(usize, String)> = Vec::new();
        let n: usize = self.entries.len();
        let mut i: usize = 0;
        while i < n
            invariant
                n == self.entries@.len(),
                i <= n,
                out@.len() == i,
                forall|k: int| 0 <= k < i ==> (#[trigger] out@[k]).0 == k + 1 && out@[k].1@ == self@[k],
            decreases n - i,
        {
            out.push((i + 1, self.entries[i].clone()));
            i += 1;
        }
        out
    }
}

} // verus!
