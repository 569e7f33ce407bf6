//! What this machine knows about the Host it belongs to.

use vstd::prelude::*;

verus! {

/// What this machine knows about the Host it belongs to.
#[derive(Debug, Clone)]
pub struct Bond {
    /// The id the Host filed this machine under.
    pub id: String,
    /// The bearer. Required on every request the Host makes.
    pub secret: String,
    /// Where the Host was reached, so this can re-announce when it starts.
    pub host: String,
}

impl Default for Bond {
    /// The bond of a machine nobody has paired: no id, no secret, no Host.
    fn default() -> (r: Bond)
        ensures
            r.id@.len() == 0,
            r.secret@.len() == 0,
            r.host@.len() == 0,
            !r.paired_spec(),
    {
        Bond { id: String::new(), secret: String::new(), host: String::new() }
    }
}

impl Bond {
    /// Whether this machine holds a secret at all.
    pub open spec fn paired_spec(&self) -> bool {
        self.secret@.len() > 0
    }

    /// Whether this machine holds a secret at all. An unpaired machine is a valid machine that
    /// lends nothing.
    pub fn paired(&self) -> (r: bool)
        ensures
            r == self.paired_spec(),
    {
        !self.secret.as_str().is_empty()
    }
}

} // verus!
