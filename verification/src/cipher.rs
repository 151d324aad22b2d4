//! The cipher engine: a repeating-key XOR over byte buffers.

use vstd::prelude::*;
use vstd::string::StrSliceExecFns;
use vstd::string::StringSliceAdditionalSpecFns;
use vstd::utf8::encode_scalar;
use vstd::utf8::encode_utf8;

verus! {

/// Whether the engine encrypts or decrypts.  The XOR transform is its own
/// inverse, so the mode never changes the bytes produced; it only selects the
/// derived output name and the buffer-size hint.
#[derive(Clone, Copy, Debug, PartialEq, Eq, Structural)]
pub enum Mode {
    Encrypt,
    Decrypt,
}

/// The failures the library reports: a rejected configuration (bad mode text
/// or an empty key), or a target path that names neither a file nor a
/// directory.  Both are raised before any file could be touched.  Failures
/// of reading or writing stay with the caller, who performs all I/O.
#[derive(Clone, Copy, Debug, PartialEq, Eq, Structural)]
pub enum CipherError {
    ConfigurationError,
    NotFoundError,
}

/// The repeating-key XOR of `data` under `key`: byte `i` of the result is
/// `data[i] ^ key[i % key.len()]`.  The result always has the length of
/// `data`.
pub open spec fn transform_spec(data: Seq<u8>, key: Seq<u8>) -> Seq<u8>
    recommends
        key.len() > 0,
{
    Seq::new(data.len(), |i: int| data[i] ^ key[i % (key.len() as int)])
}

/// The transform is an involution: applying it twice with the same non-empty
/// key restores the original byte sequence, whatever its length.
pub proof fn lemma_transform_involution(data: Seq<u8>, key: Seq<u8>)
    requires
        key.len() > 0,
    ensures
        transform_spec(transform_spec(data, key), key) == data,
{
    let once = transform_spec(data, key);
    let twice = transform_spec(once, key);
    assert forall|i: int| 0 <= i < data.len() implies twice[i] == data[i] by {
        let b = data[i];
        let k = key[i % (key.len() as int)];
        assert((b ^ k) ^ k == b) by (bit_vector);
    }
    assert(twice =~= data);
}

/// The UTF-8 encoding of a text is empty exactly when the text is.
proof fn lemma_encode_utf8_empty(s: Seq<char>)
    ensures
        encode_utf8(s).len() == 0 <==> s.len() == 0,
{
    if s.len() > 0 {
        assert(encode_scalar(s[0] as u32).len() >= 1);
    }
}

/// Compares two string slices character by character.
fn str_eq(a: &str, b: &str) -> (r: bool)
    ensures
        r == (a@ == b@),
{
    let a_len = a.unicode_len();
    let b_len = b.unicode_len();
    if a_len != b_len {
        return false;
    }
    let mut i: usize = 0;
    while i < a_len
        invariant
            a_len == a@.len(),
            b_len == b@.len(),
            a_len == b_len,
            i <= a_len,
            forall|j: int| 0 <= j < i ==> a@[j] == b@[j],
        decreases a_len - i,
    {
        if a.get_char(i) != b.get_char(i) {
            return false;
        }
        i += 1;
    }
    proof {
        assert(a@ =~= b@);
    }
    true
}

/// Holds the key and mode fixed at construction.  The engine is stateless
/// across transform calls: the key is never advanced or mutated, so two calls
/// on the same buffer undo each other.
#[derive(Debug)]
pub struct FileEncryptor {
    /// The cipher key as bytes; never empty.
    pub key: Vec<u8>,
    /// Selected output-naming behaviour; never the transform itself.
    pub mode: Mode,
    /// A hint for callers that read files in chunks.
    pub buffer_size: usize,
}

impl FileEncryptor {
    /// A well-formed engine holds a non-empty key, so that cycling through
    /// the key by `i % key.len()` is defined for every index.
    pub open spec fn wf(&self) -> bool {
        self.key@.len() > 0
    }

    /// Builds an engine from user-supplied text.  The mode must read exactly
    /// `"encrypt"` or `"decrypt"` and the key must be non-empty; any other
    /// configuration is rejected before any file could be touched.
    pub fn new(key: &str, mode: &str) -> (r: Result<FileEncryptor, CipherError>)
        ensures
            r is Err <==> (key@.len() == 0 || (mode@ != "encrypt"@ && mode@ != "decrypt"@)),
            r matches Err(e) ==> e == CipherError::ConfigurationError,
            r matches Ok(enc) ==> {
                &&& enc.wf()
                &&& enc.key@ == key.spec_bytes()
                &&& (enc.mode == Mode::Encrypt <==> mode@ == "encrypt"@)
                &&& (enc.mode == Mode::Decrypt <==> mode@ == "decrypt"@)
                &&& enc.buffer_size == (if mode@ == "encrypt"@ {
                    4096usize
                } else {
                    2048usize
                })
            },
    {
        let is_encrypt = str_eq(mode, "encrypt");
        let is_decrypt = str_eq(mode, "decrypt");
        if !is_encrypt && !is_decrypt {
            return Err(CipherError::ConfigurationError);
        }
        proof {
            reveal_strlit("encrypt");
            reveal_strlit("decrypt");
            assert("encrypt"@ != "decrypt"@) by {
                assert("encrypt"@[0] == 'e');
                assert("decrypt"@[0] == 'd');
            }
        }
        let key_bytes = key.as_bytes_vec();
        if key_bytes.len() == 0 {
            proof {
                lemma_encode_utf8_empty(key@);
            }
            return Err(CipherError::ConfigurationError);
        }
        proof {
            lemma_encode_utf8_empty(key@);
        }
        let buffer_size: usize = if is_encrypt {
            4096
        } else {
            2048
        };
        Ok(FileEncryptor {
            key: key_bytes,
            mode: if is_encrypt {
                Mode::Encrypt
            } else {
                Mode::Decrypt
            },
            buffer_size,
        })
    }

    /// The mode's text, as the configuration named it.
    pub fn mode_name(&self) -> (r: String)
        ensures
            self.mode == Mode::Encrypt ==> r@ == "encrypt"@,
            self.mode == Mode::Decrypt ==> r@ == "decrypt"@,
    {
        match self.mode {
            Mode::Encrypt => "encrypt".to_owned(),
            Mode::Decrypt => "decrypt".to_owned(),
        }
    }

    /// Applies the repeating-key XOR to `data` in place: afterwards byte `i`
    /// is the old byte `i` XORed with `key[i % key.len()]`.  The length never
    /// changes, and a second call restores the original content.
    pub fn xor_cipher(&self, data: &mut Vec<u8>)
        requires
            self.wf(),
        ensures
            final(data)@ == transform_spec(old(data)@, self.key@),
            final(data)@.len() == old(data)@.len(),
            forall|i: int|
                0 <= i < old(data)@.len() ==> final(data)@[i] == (old(data)@[i] ^ self.key@[i % (
                self.key@.len() as int)]),
    {
        let n = data.len();
        let key_len = self.key.len();
        let mut i: usize = 0;
        while i < n
            invariant
                self.wf(),
                key_len == self.key@.len(),
                n == old(data)@.len(),
                data@.len() == n,
                i <= n,
                forall|j: int|
                    0 <= j < i ==> data@[j] == (old(data)@[j] ^ self.key@[j % (key_len as int)]),
                forall|j: int| i <= j < n ==> data@[j] == old(data)@[j],
            decreases n - i,
        {
            let key_byte = self.key[i % key_len];
            let b = data[i];
            data[i] = b ^ key_byte;
            i += 1;
        }
        proof {
            assert(data@ =~= transform_spec(old(data)@, self.key@));
        }
    }
}

} // verus!
