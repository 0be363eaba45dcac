//! The "Encrypterator" encrypted asset format.
//!
//! A file is a 32-byte magic followed by the asset, whose first 32 bytes are
//! XORed with a 32-byte key. The key is derived from a password: the MD5
//! digest of the password, followed by the same digest reversed. Because of
//! that shape, the key of an encrypted PNG can be recovered from its first 16
//! body bytes.
//!
//! [`Reader`] is the state machine of decryption; the bytes themselves are
//! moved by whoever drives it.
use md5::Digest;
use vstd::prelude::*;
use vstd::string::StringSliceAdditionalSpecFns;

verus! {

/// Length of the magic, and of the transformed key.
pub const MAGIC_LEN: usize = 32;

/// The magic at the start of every file: `ART\0ENCRYPTER100FREE\0VERSION\0\0\0\0`.
pub open spec fn magic() -> Seq<u8> {
    seq![
        0x41u8, 0x52u8, 0x54u8, 0u8, 0x45u8, 0x4Eu8, 0x43u8, 0x52u8, 0x59u8, 0x50u8, 0x54u8,
        0x45u8, 0x52u8, 0x31u8, 0x30u8, 0x30u8, 0x46u8, 0x52u8, 0x45u8, 0x45u8, 0u8, 0x56u8,
        0x45u8, 0x52u8, 0x53u8, 0x49u8, 0x4Fu8, 0x4Eu8, 0u8, 0u8, 0u8, 0u8,
    ]
}

/// The first 16 bytes of every PNG file.
pub open spec fn png_header() -> Seq<u8> {
    crate::rpgmvp::png_header()
}

/// The MD5 digest of `data`.
pub uninterp spec fn md5_digest(data: Seq<u8>) -> Seq<u8>;

/// Calls the `md-5` crate: `Md5::new()`, `update(data)`, `finalize()`.
/// The contract claims only that the 16-byte result is the MD5 digest of
/// `data`, a function of `data` alone; what MD5 computes is not stated.
#[verifier::external_body]
fn md5_of(data: &[u8]) -> (digest: [u8; 16])
    ensures
        digest@ == md5_digest(data@),
{
    let mut hasher = md5::Md5::new();
    hasher.update(data);
    let hash = hasher.finalize();
    let mut digest = [0u8; 16];
    digest.copy_from_slice(&hash);
    digest
}

/// A 16-byte half key followed by the same bytes in reverse order.
pub open spec fn mirrored(half: Seq<u8>) -> Seq<u8> {
    half + half.reverse()
}

/// The key a password is turned into.
pub open spec fn transformed_key(password: Seq<u8>) -> Seq<u8> {
    mirrored(md5_digest(password))
}

/// The key recovered from the first body bytes of an encrypted PNG.
pub open spec fn key_from_body(body: Seq<u8>) -> Seq<u8> {
    mirrored(Seq::new(16, |i: int| body[i] ^ png_header()[i]))
}

/// XOR of `data`, which starts `offset` bytes into the body, with the key on
/// the first 32 body positions.
pub open spec fn xor_prefix(data: Seq<u8>, key: Seq<u8>, offset: int) -> Seq<u8> {
    Seq::new(
        data.len(),
        |i: int| if offset + i < 32 { data[i] ^ key[offset + i] } else { data[i] },
    )
}

/// Library error type
#[derive(Debug, Clone, Copy, PartialEq, Eq)]
pub enum Error {
    /// The magic is not the expected one.
    InvalidMagic { actual: [u8; 32] },
    /// The provided buffer is too small.
    BufferTooSmall,
    /// The key is missing.
    MissingKey,
    /// Reading failed: the input ends before the 32 bytes of the magic.
    Io,
}

/// The 32-byte array that holds the bytes of `s`.
pub open spec fn array32(s: Seq<u8>) -> [u8; 32] {
    choose|a: [u8; 32]| a@ == s
}

/// What reading the magic from the start of `input` gives: the number of
/// bytes it takes, or the error.
pub open spec fn magic_read(input: Seq<u8>) -> Result<int, Error> {
    if input.len() < 32 {
        Err(Error::Io)
    } else if input.subrange(0, 32) != magic() {
        Err(Error::InvalidMagic { actual: array32(input.subrange(0, 32)) })
    } else {
        Ok(32)
    }
}

/// Prepare the encryption key: the MD5 digest of the password, then the digest reversed.
///
/// The result always has length 32.
fn transform_encryption_key(input: &str) -> (key: [u8; 32])
    ensures
        key@ == transformed_key(input.spec_bytes()),
{
    let hash = md5_of(input.as_bytes());
    let mut key: [u8; 32] = [0; 32];
    let mut i: usize = 0;
    while i < 16
        invariant
            i <= 16,
            hash@ == md5_digest(input.spec_bytes()),
            forall|j: int| 0 <= j < i ==> key@[j] == hash@[j],
            forall|j: int| 0 <= j < i ==> key@[31 - j] == hash@[j],
        decreases 16 - i,
    {
        key[i] = hash[i];
        key[31 - i] = hash[i];
        i = i + 1;
    }
    assert(key@ =~= mirrored(hash@));
    key
}

/// The reading state.
#[derive(Debug, Clone, Copy)]
pub enum State {
    /// Need to read the magic.
    Magic,
    /// The magic has been read, but the key is missing.
    BodyStartNoKey,
    /// The magic has been read, and the encrypted part of the body must now be read.
    BodyStart { key: [u8; 32], offset: usize },
    /// The encrypted part has been read, and now the unencrypted rest of the file must be read.
    Body,
}

/// The phase of a reader, without its key.
#[derive(Debug, Clone, Copy, PartialEq, Eq)]
pub enum ReaderPhase {
    /// The magic must be read and checked next.
    Magic,
    /// The magic is checked, the key is not known yet.
    KeyPending,
    /// Inside the encrypted start of the body.
    BodyStart,
    /// Past the encrypted start of the body.
    Body,
}

/// The decrypting state machine.
#[derive(Debug, Clone, Copy)]
pub struct Reader {
    state: State,
}

impl Reader {
    /// The state of this reader.
    pub closed spec fn spec_state(&self) -> State {
        self.state
    }

    /// Well-formedness: the offset into the encrypted part stays below 32.
    pub open spec fn wf(&self) -> bool {
        match self.spec_state() {
            State::BodyStart { offset, .. } => offset < 32,
            _ => true,
        }
    }

    /// The key, while the encrypted part is being read.
    pub open spec fn spec_key(&self) -> Option<Seq<u8>> {
        match self.spec_state() {
            State::BodyStart { key, .. } => Some(key@),
            _ => None,
        }
    }

    /// How many bytes of the body this reader has decrypted, where it counts.
    pub open spec fn body_position(&self) -> int {
        match self.spec_state() {
            State::BodyStart { offset, .. } => offset as int,
            _ => 32,
        }
    }

    /// Make a new Reader, which expects the magic first.
    pub fn new() -> (r: Self)
        ensures
            r.spec_state() is Magic,
            r.wf(),
    {
        Reader { state: State::Magic }
    }

    /// The phase this reader is in.
    pub fn phase(&self) -> (p: ReaderPhase)
        ensures
            (p is Magic) == (self.spec_state() is Magic),
            (p is KeyPending) == (self.spec_state() is BodyStartNoKey),
            (p is BodyStart) == (self.spec_state() is BodyStart),
            (p is Body) == (self.spec_state() is Body),
    {
        match self.state {
            State::Magic => ReaderPhase::Magic,
            State::BodyStartNoKey => ReaderPhase::KeyPending,
            State::BodyStart { .. } => ReaderPhase::BodyStart,
            State::Body => ReaderPhase::Body,
        }
    }

    /// Verify the magic, given the first 32 bytes of the file, if it hasn't been done yet.
    pub fn read_magic(&mut self, buffer: [u8; 32]) -> (r: Result<(), Error>)
        requires
            old(self).wf(),
        ensures
            final(self).wf(),
            !(old(self).spec_state() is Magic) ==> r is Ok && *final(self) == *old(self),
            old(self).spec_state() is Magic && buffer@ != magic() ==> r == Err::<(), Error>(
                Error::InvalidMagic { actual: buffer },
            ) && *final(self) == *old(self),
            old(self).spec_state() is Magic && buffer@ == magic() ==> r is Ok
                && final(self).spec_state() is BodyStartNoKey,
    {
        match self.state {
            State::Magic => {},
            _ => return Ok(()),
        }
        let expected = magic_array();
        let mut i: usize = 0;
        while i < 32
            invariant
                i <= 32,
                expected@ == magic(),
                *self == *old(self),
                old(self).spec_state() is Magic,
                forall|j: int| 0 <= j < i ==> buffer@[j] == expected@[j],
            decreases 32 - i,
        {
            if buffer[i] != expected[i] {
                return Err(Error::InvalidMagic { actual: buffer });
            }
            i = i + 1;
        }
        assert(buffer@ =~= magic());
        self.state = State::BodyStartNoKey;
        Ok(())
    }

    /// The bytes of `input` after what this reader still needs of the magic,
    /// or the error of reading it.
    pub open spec fn past_magic(&self, input: Seq<u8>) -> Result<Seq<u8>, Error> {
        if self.spec_state() is Magic {
            match magic_read(input) {
                Ok(n) => Ok(input.subrange(n, input.len() as int)),
                Err(e) => Err(e),
            }
        } else {
            Ok(input)
        }
    }

    /// Reads the magic from the start of `input` where it is still to be
    /// read: returns how many bytes it took, 32 or 0.
    fn take_magic(&mut self, input: &[u8]) -> (r: Result<usize, Error>)
        requires
            old(self).wf(),
        ensures
            final(self).wf(),
            !(old(self).spec_state() is Magic) ==> r == Ok::<usize, Error>(0) && *final(self)
                == *old(self),
            old(self).spec_state() is Magic ==> match magic_read(input@) {
                Ok(n) => r == Ok::<usize, Error>(n as usize) && final(self).spec_state() is BodyStartNoKey,
                Err(e) => r == Err::<usize, Error>(e) && *final(self) == *old(self),
            },
    {
        match self.state {
            State::Magic => {},
            _ => return Ok(0),
        }
        if input.len() < 32 {
            return Err(Error::Io);
        }
        let mut buffer: [u8; 32] = [0; 32];
        let mut i: usize = 0;
        while i < 32
            invariant
                i <= 32,
                input@.len() >= 32,
                forall|j: int| 0 <= j < i ==> buffer@[j] == input@[j],
            decreases 32 - i,
        {
            buffer[i] = input[i];
            i = i + 1;
        }
        assert(buffer@ =~= input@.subrange(0, 32));
        proof {
            lemma_array32_choice(buffer);
        }
        match self.read_magic(buffer) {
            Ok(()) => Ok(32),
            Err(e) => Err(e),
        }
    }

    /// Determine the encryption key, in its transformed state, from `input`,
    /// the bytes available where the reader stands: the magic is read first
    /// where it has not been, and the key is recovered from the first 16
    /// bytes of the body that follow.
    ///
    /// If the key has already been determined by any means, this is a nop.
    ///
    /// This only works for encrypted pngs, whose first 16 bytes are known.
    pub fn guess_key(&mut self, input: &[u8]) -> (r: Result<(), Error>)
        requires
            old(self).wf(),
        ensures
            final(self).wf(),
            match old(self).past_magic(input@) {
                Err(e) => r == Err::<(), Error>(e) && *final(self) == *old(self),
                Ok(rest) => if old(self).spec_state() is BodyStart || old(self).spec_state() is Body {
                    r is Ok && *final(self) == *old(self)
                } else if rest.len() < 16 {
                    r == Err::<(), Error>(Error::BufferTooSmall) && final(self).spec_state() is BodyStartNoKey
                } else {
                    r is Ok && final(self).spec_key() == Some(key_from_body(rest))
                        && final(self).body_position() == 0
                },
            },
    {
        let start = match self.take_magic(input) {
            Ok(n) => n,
            Err(e) => return Err(e),
        };
        match self.state {
            State::BodyStartNoKey => {},
            _ => return Ok(()),
        }
        let ghost rest = input@.subrange(start as int, input@.len() as int);
        if input.len() - start < 16 {
            return Err(Error::BufferTooSmall);
        }
        let png = crate::rpgmvp::png_header_bytes();
        let ghost half = Seq::new(16, |i: int| rest[i] ^ png_header()[i]);
        let mut key: [u8; 32] = [0; 32];
        let mut i: usize = 0;
        while i < 16
            invariant
                i <= 16,
                start + 16 <= input.len(),
                rest == input@.subrange(start as int, input@.len() as int),
                png@ == png_header(),
                half == Seq::new(16, |i: int| rest[i] ^ png_header()[i]),
                forall|j: int| 0 <= j < i ==> key@[j] == half[j],
                forall|j: int| 0 <= j < i ==> key@[31 - j] == half[j],
            decreases 16 - i,
        {
            assert(rest[i as int] == input@[start + i]);
            let b = input[start + i] ^ png[i];
            key[i] = b;
            key[31 - i] = b;
            i = i + 1;
        }
        assert(key@ =~= mirrored(half));
        self.state = State::BodyStart { key, offset: 0 };
        Ok(())
    }

    /// Set the key manually from a password, reading the magic from `input`
    /// first where it has not been read.
    ///
    /// This will transform the key before use.
    /// This prevents the Reader from guessing the key.
    pub fn set_key(&mut self, input: &[u8], key: &str) -> (r: Result<(), Error>)
        requires
            old(self).wf(),
        ensures
            final(self).wf(),
            match old(self).past_magic(input@) {
                Err(e) => r == Err::<(), Error>(e) && *final(self) == *old(self),
                Ok(_) => r is Ok && if old(self).spec_state() is BodyStart || old(self).spec_state() is Body {
                    *final(self) == *old(self)
                } else {
                    final(self).spec_key() == Some(transformed_key(key.spec_bytes()))
                        && final(self).body_position() == 0
                },
            },
    {
        match self.take_magic(input) {
            Ok(_) => {},
            Err(e) => return Err(e),
        }
        match self.state {
            State::BodyStartNoKey => {},
            _ => return Ok(()),
        }
        let key = transform_encryption_key(key);
        self.state = State::BodyStart { key, offset: 0 };
        Ok(())
    }

    /// How many bytes the next read from the body may take, for a buffer of `buffer_len` bytes:
    /// no more than what is left of the encrypted part while inside it.
    pub fn read_len(&self, buffer_len: usize) -> (n: usize)
        requires
            self.wf(),
        ensures
            self.spec_state() is BodyStart ==> n == if buffer_len < 32 - self.body_position() {
                buffer_len as int
            } else {
                32 - self.body_position()
            },
            !(self.spec_state() is BodyStart) ==> n == buffer_len,
    {
        match self.state {
            State::BodyStart { offset, .. } => {
                if buffer_len < 32 - offset {
                    buffer_len
                } else {
                    32 - offset
                }
            },
            _ => buffer_len,
        }
    }

    /// Decrypt the first `n` bytes of `buffer`, just read from the body.
    pub fn decrypt(&mut self, buffer: &mut Vec<u8>, n: usize)
        requires
            old(self).wf(),
            old(self).spec_state() is BodyStart || old(self).spec_state() is Body,
            n <= old(buffer)@.len(),
            old(self).spec_state() is BodyStart ==> old(self).body_position() + n <= 32,
        ensures
            final(self).wf(),
            final(self).body_position() == if old(self).body_position() + n < 32 {
                old(self).body_position() + n
            } else {
                32
            },
            old(self).body_position() + n < 32 ==> final(self).spec_key() == old(self).spec_key(),
            final(buffer)@.len() == old(buffer)@.len(),
            old(self).spec_state() is BodyStart ==> final(buffer)@.subrange(0, n as int)
                == xor_prefix(
                old(buffer)@.subrange(0, n as int),
                old(self).spec_key()->0,
                old(self).body_position(),
            ),
            old(self).spec_state() is Body ==> final(buffer)@ == old(buffer)@,
            final(buffer)@.subrange(n as int, old(buffer)@.len() as int) == old(
                buffer,
            )@.subrange(n as int, old(buffer)@.len() as int),
    {
        let ghost original = buffer@;
        match self.state {
            State::BodyStart { key, offset } => {
                let mut i: usize = 0;
                while i < n
                    invariant
                        i <= n,
                        offset + n <= 32,
                        n <= original.len(),
                        buffer@.len() == original.len(),
                        forall|j: int|
                            0 <= j < i ==> buffer@[j] == original[j] ^ key@[offset + j],
                        forall|j: int| i <= j < original.len() ==> buffer@[j] == original[j],
                    decreases n - i,
                {
                    let b = buffer[i] ^ key[offset + i];
                    buffer.set(i, b);
                    i = i + 1;
                }
                let new_offset = offset + n;
                if new_offset == 32 {
                    self.state = State::Body;
                } else {
                    self.state = State::BodyStart { key, offset: new_offset };
                }
                assert(buffer@.subrange(0, n as int) =~= xor_prefix(
                    original.subrange(0, n as int),
                    key@,
                    offset as int,
                ));
                assert(buffer@.subrange(n as int, original.len() as int) =~= original.subrange(
                    n as int,
                    original.len() as int,
                ));
            },
            _ => {},
        }
    }
}

impl Reader {
    /// Decrypts the whole rest of the body, as reading to its end does: the
    /// bytes left of the encrypted part are XORed with the key, the others
    /// are kept. Before a key is known, this fails with `MissingKey`, after
    /// reading the magic from the start of `body` where it is still to be read.
    pub fn read_body(&mut self, body: &mut Vec<u8>) -> (r: Result<(), Error>)
        requires
            old(self).wf(),
        ensures
            final(self).wf(),
            old(self).spec_state() is Magic ==> final(body)@ == old(body)@ && r == match magic_read(
                old(body)@,
            ) {
                Ok(_) => Err::<(), Error>(Error::MissingKey),
                Err(e) => Err(e),
            },
            old(self).spec_state() is BodyStartNoKey ==> r == Err::<(), Error>(Error::MissingKey)
                && *final(self) == *old(self) && final(body)@ == old(body)@,
            !(old(self).spec_state() is BodyStartNoKey) && !(old(self).spec_state() is Magic) ==> r is Ok
                && final(self).body_position()
                == if old(self).body_position() + old(body)@.len() < 32 {
                old(self).body_position() + old(body)@.len()
            } else {
                32
            },
            old(self).spec_state() is BodyStart ==> final(body)@ == xor_prefix(
                old(body)@,
                old(self).spec_key()->0,
                old(self).body_position(),
            ),
            old(self).spec_state() is Body ==> final(body)@ == old(body)@,
    {
        match self.state {
            State::Magic => {
                return match self.take_magic(body.as_slice()) {
                    Ok(_) => Err(Error::MissingKey),
                    Err(e) => Err(e),
                };
            },
            State::BodyStartNoKey => return Err(Error::MissingKey),
            _ => {},
        }
        let ghost original = body@;
        let ghost pos = self.body_position();
        let ghost key = self.spec_key();
        let n = self.read_len(body.len());
        self.decrypt(body, n);
        proof {
            if old(self).spec_state() is BodyStart {
                let k = key->0;
                assert forall|i: int| 0 <= i < original.len() implies body@[i] == xor_prefix(
                    original,
                    k,
                    pos,
                )[i] by {
                    if i < n {
                        assert(body@[i] == body@.subrange(0, n as int)[i]);
                        assert(original[i] == original.subrange(0, n as int)[i]);
                    } else {
                        assert(body@[i] == body@.subrange(n as int, original.len() as int)[i - n]);
                        assert(original[i] == original.subrange(n as int, original.len() as int)[i
                            - n]);
                    }
                }
                assert(body@ =~= xor_prefix(original, k, pos));
            }
        }
        Ok(())
    }
}

/// Reading with a guessed key gives the PNG header first: whatever the first
/// 16 body bytes hold, the key recovered from them turns them into the PNG
/// header.
pub proof fn lemma_guessed_key_reads_png_header(body: Seq<u8>)
    requires
        body.len() >= 16,
    ensures
        xor_prefix(body, key_from_body(body), 0).subrange(0, 16) == png_header(),
{
    let key = key_from_body(body);
    let out = xor_prefix(body, key, 0);
    assert forall|i: int| 0 <= i < 16 implies out[i] == png_header()[i] by {
        let b = body[i];
        let p = png_header()[i];
        assert(key[i] == b ^ p);
        assert((b ^ (b ^ p)) == p) by (bit_vector);
    }
    assert(out.subrange(0, 16) =~= png_header());
}

proof fn lemma_array32_choice(a: [u8; 32])
    ensures
        array32(a@) == a,
{
    let c = array32(a@);
    assert(c@ == a@);
    assert forall|i: int| 0 <= i < 32 implies c[i] == a[i] by {
        assert(c@[i] == a@[i]);
    }
    assert(c =~= a);
}

/// The magic as an array.
pub fn magic_array() -> (a: [u8; 32])
    ensures
        a@ == magic(),
{
    let a: [u8; 32] = [
        0x41, 0x52, 0x54, 0, 0x45, 0x4E, 0x43, 0x52, 0x59, 0x50, 0x54, 0x45, 0x52, 0x31, 0x30,
        0x30, 0x46, 0x52, 0x45, 0x45, 0, 0x56, 0x45, 0x52, 0x53, 0x49, 0x4F, 0x4E, 0, 0, 0, 0,
    ];
    assert(a@ =~= magic());
    a
}

/// The key a password is turned into has the mirrored shape that key recovery
/// relies on: guessing the key of a PNG encrypted under a password gives the
/// same key as setting that password.
pub proof fn lemma_guess_key_agrees_with_set_key(password: Seq<u8>, plain: Seq<u8>)
    requires
        md5_digest(password).len() == 16,
        plain.len() >= 32,
        plain.subrange(0, 16) == png_header(),
    ensures
        key_from_body(xor_prefix(plain, transformed_key(password), 0)) == transformed_key(
            password,
        ),
{
    let key = transformed_key(password);
    let h = md5_digest(password);
    let body = xor_prefix(plain, key, 0);
    let half = Seq::new(16, |i: int| body[i] ^ png_header()[i]);
    assert forall|i: int| 0 <= i < 16 implies half[i] == h[i] by {
        let p = plain[i];
        let k = key[i];
        assert(p == plain.subrange(0, 16)[i]);
        assert(k == h[i]);
        assert((p ^ k) ^ p == k) by (bit_vector);
    }
    assert(half =~= h);
}

/// Decrypting what was encrypted under the same key and body position gives the bytes back.
pub proof fn lemma_xor_prefix_involution(data: Seq<u8>, key: Seq<u8>, offset: int)
    requires
        0 <= offset,
        key.len() == 32,
    ensures
        xor_prefix(xor_prefix(data, key, offset), key, offset) == data,
{
    let once = xor_prefix(data, key, offset);
    let twice = xor_prefix(once, key, offset);
    assert forall|i: int| 0 <= i < data.len() implies twice[i] == data[i] by {
        if offset + i < 32 {
            let a = data[i];
            let k = key[offset + i];
            assert((a ^ k) ^ k == a) by (bit_vector);
        }
    }
    assert(twice =~= data);
}

/// Decrypting in pieces is decrypting the whole.
pub proof fn lemma_xor_prefix_split(a: Seq<u8>, b: Seq<u8>, key: Seq<u8>, offset: int)
    requires
        0 <= offset,
    ensures
        xor_prefix(a + b, key, offset) == xor_prefix(a, key, offset) + xor_prefix(
            b,
            key,
            offset + a.len(),
        ),
{
    assert(xor_prefix(a + b, key, offset) =~= xor_prefix(a, key, offset) + xor_prefix(
        b,
        key,
        offset + a.len(),
    ));
}

} // verus!

verus! {

/// What decrypting a whole asset gives: the magic is read and checked, and
/// the body is decrypted with the key of the password where one is given,
/// else with the key recovered from the first 16 body bytes.
pub open spec fn decrypted_asset(file: Seq<u8>, password: Option<Seq<u8>>) -> Result<
    Seq<u8>,
    Error,
> {
    match magic_read(file) {
        Err(e) => Err(e),
        Ok(n) => {
            let body = file.subrange(n, file.len() as int);
            match password {
                Some(p) => Ok(xor_prefix(body, transformed_key(p), 0)),
                None => if body.len() < 16 {
                    Err(Error::BufferTooSmall)
                } else {
                    Ok(xor_prefix(body, key_from_body(body), 0))
                },
            }
        }
    }
}

/// The bytes of a password, where one is given.
pub open spec fn password_bytes(password: Option<&str>) -> Option<Seq<u8>> {
    match password {
        Some(p) => Some(p.spec_bytes()),
        None => None,
    }
}

/// Decrypts a whole asset held in memory: reads the magic, sets the key of
/// `password` or guesses the key, and reads the body to its end.
pub fn decrypt_asset(file: &[u8], password: Option<&str>) -> (r: Result<Vec<u8>, Error>)
    ensures
        match (r, decrypted_asset(file@, password_bytes(password))) {
            (Ok(v), Ok(d)) => v@ == d,
            (Err(e), Err(d)) => e == d,
            _ => false,
        },
{
    let mut reader = Reader::new();
    let keyed = match password {
        Some(p) => reader.set_key(file, p),
        None => reader.guess_key(file),
    };
    match keyed {
        Ok(()) => {},
        Err(e) => return Err(e),
    }
    let mut body: Vec<u8> = Vec::new();
    let mut i: usize = 32;
    while i < file.len()
        invariant
            32 <= i <= file@.len(),
            body@ == file@.subrange(32, i as int),
        decreases file@.len() - i,
    {
        body.push(file[i]);
        i = i + 1;
        assert(body@ =~= file@.subrange(32, i as int));
    }
    match reader.read_body(&mut body) {
        Ok(()) => {},
        Err(e) => return Err(e),
    }
    Ok(body)
}

/// The pieces of a body, one after the other.
pub open spec fn joined(pieces: Seq<Seq<u8>>) -> Seq<u8>
    decreases pieces.len(),
{
    if pieces.len() == 0 {
        seq![]
    } else {
        pieces[0] + joined(pieces.drop_first())
    }
}

/// What reading a body in pieces gives: each piece decrypted at the body
/// position where the one before it ended.
pub open spec fn decrypt_pieces(pieces: Seq<Seq<u8>>, key: Seq<u8>, offset: int) -> Seq<u8>
    decreases pieces.len(),
{
    if pieces.len() == 0 {
        seq![]
    } else {
        xor_prefix(pieces[0], key, offset) + decrypt_pieces(
            pieces.drop_first(),
            key,
            offset + pieces[0].len(),
        )
    }
}

/// Reading a body to its end, in pieces of any sizes, gives the body with
/// its first 32 bytes XORed with the key and the rest unchanged.
pub proof fn lemma_read_in_pieces(pieces: Seq<Seq<u8>>, key: Seq<u8>, offset: int)
    requires
        0 <= offset,
    ensures
        decrypt_pieces(pieces, key, offset) == xor_prefix(joined(pieces), key, offset),
    decreases pieces.len(),
{
    if pieces.len() > 0 {
        lemma_read_in_pieces(pieces.drop_first(), key, offset + pieces[0].len());
        lemma_xor_prefix_split(pieces[0], joined(pieces.drop_first()), key, offset);
    }
}

/// Reading past the encrypted part keeps the bytes: at any body position
/// from 32 on, decrypting leaves a piece as it is.
pub proof fn lemma_read_past_key(data: Seq<u8>, key: Seq<u8>, offset: int)
    requires
        offset >= 32,
    ensures
        xor_prefix(data, key, offset) == data,
{
    assert(xor_prefix(data, key, offset) =~= data);
}

} // verus!

verus! {

/// The key of a password holds its MD5 digest and then the digest backwards:
/// byte `i` and byte `31 - i` are both byte `i` of the digest.
pub proof fn lemma_transformed_key_shape(password: Seq<u8>)
    requires
        md5_digest(password).len() == 16,
    ensures
        transformed_key(password).len() == 32,
        forall|i: int|
            0 <= i < 16 ==> #[trigger] transformed_key(password)[i] == md5_digest(password)[i]
                && transformed_key(password)[31 - i] == md5_digest(password)[i],
{
}

/// The magic is the text `ART\0ENCRYPTER100FREE\0VERSION` and four zero bytes.
pub proof fn lemma_magic_literal()
    ensures
        magic() == seq![
            0x41u8, 0x52, 0x54, 0, 0x45, 0x4E, 0x43, 0x52, 0x59, 0x50, 0x54, 0x45, 0x52, 0x31,
            0x30, 0x30, 0x46, 0x52, 0x45, 0x45, 0, 0x56, 0x45, 0x52, 0x53, 0x49, 0x4F, 0x4E, 0, 0,
            0, 0,
        ],
{
}

} // verus!
