//! PIN providers.
use vstd::prelude::*;

verus! {

/// A provider of PINs on the host's side. PINs always travel inline, so it is
/// never asked in earnest and knows none.
#[derive(Debug)]
pub struct HostPin;

impl HostPin {
    /// The secret for a token with this label: none, however often it is asked.
    pub fn request_secret(&self, label: Option<String>, attempts_remaining: Option<u8>) -> (secret:
        Vec<u8>)
        ensures
            secret@ == Seq::<u8>::empty(),
    {
        let _ = label;
        let _ = attempts_remaining;
        Vec::new()
    }
}

} // verus!
