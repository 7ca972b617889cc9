use rand::distributions::DistString;
use vstd::prelude::*;

use crate::username::be_value;

verus! {

/// Length in bytes of an access key.
pub const KEY_LEN: usize = 16;

/// Whether `c` is a printable ASCII character (space to tilde).
pub open spec fn printable(c: char) -> bool {
    ' ' <= c && c <= '~'
}

/// Whether `s` can be an access key: 16 printable ASCII characters.
pub open spec fn valid_key_text(s: Seq<char>) -> bool {
    s.len() == KEY_LEN && forall|i: int| 0 <= i < s.len() ==> printable(#[trigger] s[i])
}

/// The bytes of an ASCII text.
pub open spec fn ascii_bytes(s: Seq<char>) -> Seq<u8> {
    s.map_values(|c: char| c as u8)
}

/// The key under which an access key is filed in the permission index.
pub open spec fn key_value(s: Seq<char>) -> u128 {
    be_value(ascii_bytes(s)) as u128
}

/// Whether `c` is an ASCII letter or digit.
pub open spec fn alphanumeric(c: char) -> bool {
    ('0' <= c && c <= '9') || ('A' <= c && c <= 'Z') || ('a' <= c && c <= 'z')
}

/// An access key: 16 printable ASCII characters, so that it travels in a text header.
#[derive(Debug, PartialEq, Eq)]
pub struct Key {
    text: String,
}

impl View for Key {
    type V = Seq<char>;

    closed spec fn view(&self) -> Seq<char> {
        self.text@
    }
}

impl Key {
    #[verifier::type_invariant]
    spec fn inv(self) -> bool {
        valid_key_text(self.text@)
    }

    /// Parses an access key; it must be 16 printable ASCII characters.
    pub fn from_str(s: &str) -> (r: Result<Key, ()>)
        ensures
            r.is_ok() <==> valid_key_text(s@),
            r.is_ok() ==> r.unwrap()@ == s@,
    {
        if s.unicode_len() != KEY_LEN {
            return Err(());
        }
        let mut i: usize = 0;
        while i < KEY_LEN
            invariant
                s@.len() == KEY_LEN,
                i <= KEY_LEN,
                forall|k: int| 0 <= k < i ==> printable(#[trigger] s@[k]),
            decreases KEY_LEN - i,
        {
            let c = s.get_char(i);
            if c < ' ' || c > '~' {
                return Err(());
            }
            i = i + 1;
        }
        Ok(Key { text: s.to_owned() })
    }

    /// Builds a key from text that is known to be a valid key.
    pub fn from_text(text: String) -> (r: Key)
        requires
            valid_key_text(text@),
        ensures
            r@ == text@,
    {
        Key { text }
    }

    /// The key as text.
    pub fn as_str(&self) -> (r: &str)
        ensures
            r@ == self@,
            valid_key_text(r@),
    {
        proof {
            use_type_invariant(self);
        }
        self.text.as_str()
    }

    /// The key's bytes.
    pub fn as_bytes(&self) -> (r: [u8; KEY_LEN])
        ensures
            r@ == ascii_bytes(self@),
    {
        proof {
            use_type_invariant(self);
        }
        let s = self.text.as_str();
        assert forall|k: int| 0 <= k < s@.len() implies '\0' <= #[trigger] s@[k] <= '\u{7f}' by {
            assert(printable(s@[k]));
        }
        assert(vstd::utf8::is_ascii_chars(s@));
        let mut r: [u8; KEY_LEN] = [0u8; KEY_LEN];
        let mut i: usize = 0;
        while i < KEY_LEN
            invariant
                s@ == self@,
                valid_key_text(s@),
                vstd::utf8::is_ascii_chars(s@),
                i <= KEY_LEN,
                forall|k: int| 0 <= k < i ==> #[trigger] r@[k] == s@[k] as u8,
            decreases KEY_LEN - i,
        {
            r[i] = s.get_ascii(i);
            i = i + 1;
        }
        assert(r@ =~= ascii_bytes(self@));
        r
    }

    /// The key under which this access key is filed.
    pub fn index_key(&self) -> (r: u128)
        ensures
            r == key_value(self@),
    {
        let b = self.as_bytes();
        crate::username::be_u128(&b)
    }
}

/// What an access key permits.
#[derive(Clone, Copy, Debug, PartialEq, Eq, Structural)]
pub struct Desc {
    pub write: bool,
    pub remove: bool,
    pub read: bool,
}

/// The operation classes that access keys govern.
#[derive(Clone, Copy, Debug, PartialEq, Eq, Structural)]
pub enum Op {
    Read,
    Write,
    Remove,
}

impl Op {
    /// The operation's name.
    pub fn name(&self) -> (r: &'static str)
        ensures
            r@ == match self {
                Op::Read => "read"@,
                Op::Write => "write"@,
                Op::Remove => "remove"@,
            },
    {
        match self {
            Op::Read => "read",
            Op::Write => "write",
            Op::Remove => "remove",
        }
    }
}

/// Whether `d` grants `op`.
pub open spec fn grants(d: Desc, op: Op) -> bool {
    match op {
        Op::Read => d.read,
        Op::Write => d.write,
        Op::Remove => d.remove,
    }
}

/// Whether the configuration asks for a credential for `op`.
pub open spec fn required(r: crate::config::RequireAuth, op: Op) -> bool {
    match op {
        Op::Read => r.read,
        Op::Write => r.write,
        Op::Remove => r.remove,
    }
}

impl Desc {
    /// A descriptor that grants nothing.
    pub fn new_all_false() -> (r: Desc)
        ensures
            !r.read && !r.write && !r.remove,
    {
        Desc { read: false, write: false, remove: false }
    }

    /// Whether this descriptor grants `op`.
    pub fn is_op_allowed(&self, op: Op) -> (r: bool)
        ensures
            r == grants(*self, op),
    {
        match op {
            Op::Read => self.read,
            Op::Write => self.write,
            Op::Remove => self.remove,
        }
    }
}

/// Why a key could not be issued.
#[derive(Clone, Copy, Debug, PartialEq, Eq, Structural)]
pub enum GenError {
    Internal,
}

/// Why an operation was refused.
#[derive(Clone, Copy, Debug, PartialEq, Eq, Structural)]
pub enum EnsureAuthError {
    /// A credential is required and none was given.
    Required,
    /// The credential is not known.
    Invalid,
    /// The credential does not grant the operation.
    NotAllowed,
}

/// Relies on rand's `Alphanumeric::sample_string` with the thread-local generator:
/// it returns `KEY_LEN` characters, each an ASCII letter or digit.
#[verifier::external_body]
pub(crate) fn random_key_text() -> (r: String)
    ensures
        r@.len() == KEY_LEN,
        forall|i: int| 0 <= i < r@.len() ==> alphanumeric(#[trigger] r@[i]),
{
    rand::distributions::Alphanumeric.sample_string(&mut rand::thread_rng(), KEY_LEN)
}

} // verus!
