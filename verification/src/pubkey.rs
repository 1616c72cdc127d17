//! 32-byte account keys and their base58 text.

use vstd::prelude::*;

verus! {

/// Number of bytes in an account key.
pub const KEY_LEN: usize = 32;

/// The base58 text of a byte string, in the Bitcoin alphabet.
pub uninterp spec fn base58_text(bytes: Seq<u8>) -> Seq<char>;

/// The byte string that a base58 text stands for, if it is base58 at all.
pub uninterp spec fn base58_bytes(text: Seq<char>) -> Option<Seq<u8>>;

/// `bs58::encode(..).into_string()`: the result is the base58 text of the
/// input, whatever the input.
#[verifier::external_body]
fn bs58_encode(bytes: &[u8]) -> (text: String)
    ensures
        text@ == base58_text(bytes@),
{
    bs58::encode(bytes).into_string()
}

/// `bs58::decode(..).into_vec()`: the decoded bytes where the input is
/// base58 text, nothing where it holds a character outside the alphabet.
#[verifier::external_body]
fn bs58_decode(text: &str) -> (bytes: Option<Vec<u8>>)
    ensures
        match bytes {
            Some(b) => base58_bytes(text@) == Some(b@),
            None => base58_bytes(text@) is None,
        },
{
    bs58::decode(text).into_vec().ok()
}

/// An account key.
#[derive(Clone, Copy, Debug)]
pub struct Pubkey {
    pub bytes: [u8; 32],
}

impl View for Pubkey {
    type V = Seq<u8>;

    open spec fn view(&self) -> Seq<u8> {
        self.bytes@
    }
}

/// The text under which a key is stored.
pub open spec fn key_text(key: Pubkey) -> Seq<char> {
    base58_text(key@)
}

/// The texts under which the keys of an account list are stored.
pub open spec fn key_texts(keys: Seq<Pubkey>) -> Seq<Seq<char>> {
    keys.map_values(|k: Pubkey| key_text(k))
}

/// The key that a text names: the text is base58 for exactly 32 bytes.
pub open spec fn key_named(text: Seq<char>) -> Option<Seq<u8>> {
    match base58_bytes(text) {
        Some(b) => if b.len() == KEY_LEN {
            Some(b)
        } else {
            None
        },
        None => None,
    }
}

impl Pubkey {
    /// The key made of the given bytes.
    pub fn new(bytes: [u8; 32]) -> (key: Pubkey)
        ensures
            key@ == bytes@,
    {
        Pubkey { bytes }
    }

    /// The base58 text of the key.
    pub fn to_base58(&self) -> (text: String)
        ensures
            text@ == key_text(*self),
    {
        bs58_encode(self.bytes.as_slice())
    }

    /// Parses a key from its base58 text.
    ///
    /// Succeeds exactly when the text is base58 for 32 bytes.
    pub fn from_base58(text: &str) -> (key: Option<Pubkey>)
        ensures
            match key {
                Some(k) => key_named(text@) == Some(k@),
                None => key_named(text@) is None,
            },
    {
        match bs58_decode(text) {
            Some(decoded) => {
                if decoded.len() != KEY_LEN {
                    return None;
                }
                let mut bytes: [u8; 32] = [0u8; 32];
                let mut i: usize = 0;
                while i < KEY_LEN
                    invariant
                        i <= KEY_LEN,
                        decoded.len() == KEY_LEN,
                        forall|j: int| 0 <= j < i ==> bytes[j] == decoded[j],
                    decreases KEY_LEN - i,
                {
                    bytes[i] = decoded[i];
                    i += 1;
                }
                assert(bytes@ =~= decoded@);
                Some(Pubkey { bytes })
            },
            None => None,
        }
    }

    /// Whether two keys hold the same bytes.
    pub fn same_as(&self, other: &Pubkey) -> (same: bool)
        ensures
            same == (self@ == other@),
    {
        let mut i: usize = 0;
        while i < KEY_LEN
            invariant
                i <= KEY_LEN,
                forall|j: int| 0 <= j < i ==> self.bytes[j] == other.bytes[j],
            decreases KEY_LEN - i,
        {
            if self.bytes[i] != other.bytes[i] {
                assert(self@[i as int] != other@[i as int]);
                return false;
            }
            i += 1;
        }
        assert(self@ =~= other@);
        true
    }
}

} // verus!
