use vstd::prelude::*;

use crate::auth::{valid_key_text, Key};
use crate::user;

verus! {

/// The credential a request carried in its `x-auth-key` header, if it held a
/// well-formed key.
pub struct OptionAuthKey(pub Option<Key>);

impl OptionAuthKey {
    /// The key, if any.
    pub fn as_ref(&self) -> (r: Option<&Key>)
        ensures
            r == match &self.0 {
                Some(k) => Some(k),
                None => None::<&Key>,
            },
    {
        self.0.as_ref()
    }

    /// Reads a header value: a malformed key counts as no key.
    pub fn from_str(s: &str) -> (r: OptionAuthKey)
        ensures
            r.0.is_some() == valid_key_text(s@),
            r.0.is_some() ==> r.0.unwrap()@ == s@,
    {
        match Key::from_str(s) {
            Ok(k) => OptionAuthKey(Some(k)),
            Err(_) => OptionAuthKey(None),
        }
    }
}

/// The envelope of a request or response body: compact binary or JSON text.
#[derive(Clone, Copy, Debug, PartialEq, Eq, Structural)]
pub enum InoutFormat {
    Binary,
    Json,
}

fn chars_are(s: &str, want: &str) -> (r: bool)
    ensures
        r == (s@ == want@),
{
    let n = s.unicode_len();
    if n != want.unicode_len() {
        return false;
    }
    let mut i: usize = 0;
    while i < n
        invariant
            n == s@.len(),
            n == want@.len(),
            i <= n,
            forall|k: int| 0 <= k < i ==> s@[k] == want@[k],
        decreases n - i,
    {
        if s.get_char(i) != want.get_char(i) {
            return false;
        }
        i = i + 1;
    }
    assert(s@ =~= want@);
    true
}

impl InoutFormat {
    /// Reads a path segment: `bin` or `json`; anything else is refused.
    pub fn from_str(s: &str) -> (r: Result<InoutFormat, ()>)
        ensures
            r == (if s@ == "bin"@ {
                Ok::<InoutFormat, ()>(InoutFormat::Binary)
            } else if s@ == "json"@ {
                Ok::<InoutFormat, ()>(InoutFormat::Json)
            } else {
                Err::<InoutFormat, ()>(())
            }),
    {
        if chars_are(s, "bin") {
            Ok(InoutFormat::Binary)
        } else if chars_are(s, "json") {
            Ok(InoutFormat::Json)
        } else {
            Err(())
        }
    }
}

/// Why a request body could not be decoded, with the decoder's message.
#[derive(Clone, Debug, PartialEq, Eq)]
pub enum DecodeVal {
    Json(String),
    Bin(String),
}

/// Why a read by name failed.
#[derive(Clone, Copy, Debug, PartialEq, Eq, Structural)]
pub enum GetByNameError {
    Get(user::GetByNameError),
}

/// Why a search failed.
#[derive(Clone, Copy, Debug, PartialEq, Eq, Structural)]
pub enum SearchError {
    Search(user::SearchError),
}

/// Why a write failed.
#[derive(Clone, Debug, PartialEq, Eq)]
pub enum WriteError {
    DecodeInput(DecodeVal),
    Add(user::AddError),
}

/// Why a removal failed.
#[derive(Clone, Copy, Debug, PartialEq, Eq, Structural)]
pub enum RemoveByNameError {
    Remove(user::RemoveByNameError),
}

} // verus!
