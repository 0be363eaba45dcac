//! The "rpgmvp" encrypted image format.
//!
//! A file is a 16-byte header (magic, version, padding) followed by the image,
//! whose first 16 bytes are XORed with a 16-byte key. The rest of the image is
//! stored as is. Since every image is a PNG, the key can be recovered from the
//! encrypted file alone by XORing its first body bytes with the PNG header.
//!
//! [`Reader`] and [`Writer`] are the state machines of decryption and
//! encryption; the bytes themselves are moved by whoever drives them.
use vstd::prelude::*;

verus! {

/// Length of the file header, and of the key.
pub const HEADER_LEN: usize = 16;

/// The magic at the start of every file: `RPGMV` and four zeros.
pub open spec fn magic() -> Seq<u8> {
    seq![0x52u8, 0x50u8, 0x47u8, 0x4Du8, 0x56u8, 0u8, 0u8, 0u8, 0u8]
}

/// The only supported version.
pub open spec fn version() -> Seq<u8> {
    seq![3u8, 1u8, 0u8]
}

/// The header padding.
pub open spec fn header_padding() -> Seq<u8> {
    seq![0u8, 0u8, 0u8, 0u8]
}

/// The whole 16-byte header of a valid file.
pub open spec fn header_bytes() -> Seq<u8> {
    magic() + version() + header_padding()
}

/// The first 16 bytes of every PNG file: the signature and the start of the IHDR chunk.
pub open spec fn png_header() -> Seq<u8> {
    seq![
        0x89u8, 0x50u8, 0x4Eu8, 0x47u8, 0x0Du8, 0x0Au8, 0x1Au8, 0x0Au8,
        0u8, 0u8, 0u8, 0x0Du8, 0x49u8, 0x48u8, 0x44u8, 0x52u8,
    ]
}

/// The errors of this format.
#[derive(Debug, Clone, Copy, PartialEq, Eq)]
pub enum Error {
    /// The magic is not `RPGMV` followed by four zeros.
    InvalidMagic { magic: [u8; 9] },
    /// The version is not `3.1.0`.
    InvalidVersion { version: [u8; 3] },
    /// The header padding is not zero.
    InvalidHeaderPadding { padding: [u8; 4] },
    /// Fewer bytes are available than the step needs.
    BufferTooSmall,
}

/// What checking a 16-byte header gives: the first of its three parts that
/// does not hold the expected bytes decides the error.
pub open spec fn header_check(header: Seq<u8>) -> Result<(), Error> {
    if header.subrange(0, 9) != magic() {
        Err(Error::InvalidMagic { magic: arbitrary_array9(header.subrange(0, 9)) })
    } else if header.subrange(9, 12) != version() {
        Err(Error::InvalidVersion { version: arbitrary_array3(header.subrange(9, 12)) })
    } else if header.subrange(12, 16) != header_padding() {
        Err(Error::InvalidHeaderPadding { padding: arbitrary_array4(header.subrange(12, 16)) })
    } else {
        Ok(())
    }
}

/// The 9-byte array that holds the bytes of `s`.
pub open spec fn arbitrary_array9(s: Seq<u8>) -> [u8; 9] {
    choose|a: [u8; 9]| a@ == s
}

/// The 3-byte array that holds the bytes of `s`.
pub open spec fn arbitrary_array3(s: Seq<u8>) -> [u8; 3] {
    choose|a: [u8; 3]| a@ == s
}

/// The 4-byte array that holds the bytes of `s`.
pub open spec fn arbitrary_array4(s: Seq<u8>) -> [u8; 4] {
    choose|a: [u8; 4]| a@ == s
}

/// The key that turns the first 16 bytes of an encrypted body back into the PNG header.
pub open spec fn key_from_body(body: Seq<u8>) -> Seq<u8> {
    Seq::new(16, |i: int| body[i] ^ png_header()[i])
}

/// XOR of `data` with `key`, where `data` starts `offset` bytes into the body:
/// the bytes at body positions below 16 are XORed with the key byte of that
/// position, the others are kept.
pub open spec fn xor_prefix(data: Seq<u8>, key: Seq<u8>, offset: int) -> Seq<u8> {
    Seq::new(
        data.len(),
        |i: int| if offset + i < 16 { data[i] ^ key[offset + i] } else { data[i] },
    )
}

/// The encrypted file of the image `plain` under `key`.
pub open spec fn encrypted_file(key: Seq<u8>, plain: Seq<u8>) -> Seq<u8> {
    header_bytes() + xor_prefix(plain, key, 0)
}

/// The phase of a reader, without its key.
#[derive(Debug, Clone, Copy, PartialEq, Eq)]
pub enum ReaderPhase {
    /// The header must be read and checked next.
    Header,
    /// The header is checked, the key is not known yet.
    KeyPending,
    /// The key is known and the body is being decrypted.
    Body,
}

/// The reader state.
#[derive(Debug, Clone, Copy)]
pub enum ReaderState {
    /// Reads header next
    Header,
    /// Reads the start of the body next, but no key has been determined
    BodyInitialNoKey,
    /// Reads the start of the body next, and a key has been determined
    BodyInitial { key: [u8; 16], offset: usize },
    /// Reads the body next, past the encrypted beginning
    Body { key: [u8; 16] },
}

/// The decrypting side of the format.
#[derive(Debug, Clone, Copy)]
pub struct Reader {
    state: ReaderState,
}

impl Reader {
    /// The state of this reader.
    pub closed spec fn spec_state(&self) -> ReaderState {
        self.state
    }

    /// Well-formedness: the offset into the encrypted part stays below 16.
    pub open spec fn wf(&self) -> bool {
        match self.spec_state() {
            ReaderState::BodyInitial { offset, .. } => offset < 16,
            _ => true,
        }
    }

    /// How many bytes of the body this reader has decrypted so far, where it counts.
    pub open spec fn body_position(&self) -> int {
        match self.spec_state() {
            ReaderState::BodyInitial { offset, .. } => offset as int,
            _ => 16,
        }
    }

    /// The key this reader decrypts with, once known.
    pub open spec fn spec_key(&self) -> Option<Seq<u8>> {
        match self.spec_state() {
            ReaderState::BodyInitial { key, .. } => Some(key@),
            ReaderState::Body { key } => Some(key@),
            _ => None,
        }
    }

    /// Make a new reader, which expects the header first.
    pub fn new() -> (r: Self)
        ensures
            r.spec_state() is Header,
            r.wf(),
    {
        Reader { state: ReaderState::Header }
    }

    /// The phase this reader is in.
    pub fn phase(&self) -> (p: ReaderPhase)
        ensures
            (p is Header) == (self.spec_state() is Header),
            (p is KeyPending) == (self.spec_state() is BodyInitialNoKey),
            (p is Body) == (self.spec_state() is BodyInitial || self.spec_state() is Body),
    {
        match self.state {
            ReaderState::Header => ReaderPhase::Header,
            ReaderState::BodyInitialNoKey => ReaderPhase::KeyPending,
            _ => ReaderPhase::Body,
        }
    }

    /// Read and validate the header from the bytes available at the start of the file.
    ///
    /// Returns how many of those bytes the header took: 16, or 0 when the header
    /// was already read.
    pub fn read_header(&mut self, buffer: &[u8]) -> (r: Result<usize, Error>)
        requires
            old(self).wf(),
        ensures
            final(self).wf(),
            !(old(self).spec_state() is Header) ==> r == Ok::<usize, Error>(0) && *final(self)
                == *old(self),
            old(self).spec_state() is Header && buffer@.len() < 16 ==> r == Err::<usize, Error>(
                Error::BufferTooSmall,
            ) && *final(self) == *old(self),
            old(self).spec_state() is Header && buffer@.len() >= 16 ==> match header_check(
                buffer@.subrange(0, 16),
            ) {
                Ok(_) => r == Ok::<usize, Error>(16) && final(self).spec_state() is BodyInitialNoKey,
                Err(e) => r == Err::<usize, Error>(e) && *final(self) == *old(self),
            },
    {
        match self.state {
            ReaderState::Header => {},
            _ => return Ok(0),
        }
        if buffer.len() < 16 {
            return Err(Error::BufferTooSmall);
        }
        let ghost header = buffer@.subrange(0, 16);
        let magic_bytes: [u8; 9] = [
            buffer[0],
            buffer[1],
            buffer[2],
            buffer[3],
            buffer[4],
            buffer[5],
            buffer[6],
            buffer[7],
            buffer[8],
        ];
        let version_bytes: [u8; 3] = [buffer[9], buffer[10], buffer[11]];
        let padding_bytes: [u8; 4] = [buffer[12], buffer[13], buffer[14], buffer[15]];
        assert(magic_bytes@ =~= header.subrange(0, 9));
        assert(version_bytes@ =~= header.subrange(9, 12));
        assert(padding_bytes@ =~= header.subrange(12, 16));
        if !(magic_bytes[0] == 0x52 && magic_bytes[1] == 0x50 && magic_bytes[2] == 0x47 && magic_bytes[3] == 0x4D
            && magic_bytes[4] == 0x56 && magic_bytes[5] == 0 && magic_bytes[6] == 0 && magic_bytes[7] == 0 && magic_bytes[8]
            == 0) {
            assert(header.subrange(0, 9) != magic()) by {
                if header.subrange(0, 9) == magic() {
                    assert(magic_bytes@ == magic());
                }
            }
            proof {
                lemma_array9_choice(magic_bytes);
            }
            return Err(Error::InvalidMagic { magic: magic_bytes });
        }
        assert(header.subrange(0, 9) =~= magic());
        if !(version_bytes[0] == 3 && version_bytes[1] == 1 && version_bytes[2] == 0) {
            assert(header.subrange(9, 12) != version()) by {
                if header.subrange(9, 12) == version() {
                    assert(version_bytes@ == version());
                }
            }
            proof {
                lemma_array3_choice(version_bytes);
            }
            return Err(Error::InvalidVersion { version: version_bytes });
        }
        assert(header.subrange(9, 12) =~= version());
        if !(padding_bytes[0] == 0 && padding_bytes[1] == 0 && padding_bytes[2] == 0 && padding_bytes[3] == 0) {
            assert(header.subrange(12, 16) != header_padding()) by {
                if header.subrange(12, 16) == header_padding() {
                    assert(padding_bytes@ == header_padding());
                }
            }
            proof {
                lemma_array4_choice(padding_bytes);
            }
            return Err(Error::InvalidHeaderPadding { padding: padding_bytes });
        }
        assert(header.subrange(12, 16) =~= header_padding());
        self.state = ReaderState::BodyInitialNoKey;
        Ok(16)
    }

    /// The bytes of `input` after what this reader still needs of the header,
    /// or the error of reading it.
    pub open spec fn past_header(&self, input: Seq<u8>) -> Result<Seq<u8>, Error> {
        if self.spec_state() is Header {
            if input.len() < 16 {
                Err(Error::BufferTooSmall)
            } else {
                match header_check(input.subrange(0, 16)) {
                    Ok(_) => Ok(input.subrange(16, input.len() as int)),
                    Err(e) => Err(e),
                }
            }
        } else {
            Ok(input)
        }
    }

    /// Determine the encryption key from `input`, the bytes available where
    /// the reader stands: the header is read first where it has not been,
    /// and the key is recovered from the first 16 bytes of the body.
    ///
    /// Once known, the key is returned again without looking at `input`.
    pub fn extract_key(&mut self, input: &[u8]) -> (r: Result<[u8; 16], Error>)
        requires
            old(self).wf(),
        ensures
            final(self).wf(),
            old(self).spec_key() is Some ==> (r matches Ok(k) && k@ == old(self).spec_key()->0
                && *final(self) == *old(self)),
            old(self).spec_key() is None ==> match old(self).past_header(input@) {
                Err(e) => r == Err::<[u8; 16], Error>(e) && *final(self) == *old(self),
                Ok(rest) => if rest.len() < 16 {
                    r == Err::<[u8; 16], Error>(Error::BufferTooSmall)
                        && final(self).spec_state() is BodyInitialNoKey
                } else {
                    r matches Ok(k) && k@ == key_from_body(rest) && final(self).spec_key() == Some(
                        k@,
                    ) && final(self).body_position() == 0
                },
            },
    {
        let start = match self.state {
            ReaderState::BodyInitial { key, .. } => return Ok(key),
            ReaderState::Body { key } => return Ok(key),
            ReaderState::Header => match self.read_header(input) {
                Ok(n) => n,
                Err(e) => return Err(e),
            },
            ReaderState::BodyInitialNoKey => 0,
        };
        let ghost rest = input@.subrange(start as int, input@.len() as int);
        if input.len() - start < 16 {
            return Err(Error::BufferTooSmall);
        }
        let png: [u8; 16] = png_header_bytes();
        let mut key: [u8; 16] = [0; 16];
        let mut i: usize = 0;
        while i < 16
            invariant
                i <= 16,
                start + 16 <= input.len(),
                rest == input@.subrange(start as int, input@.len() as int),
                png@ == png_header(),
                forall|j: int| 0 <= j < i ==> key@[j] == key_from_body(rest)[j],
            decreases 16 - i,
        {
            assert(rest[i as int] == input@[start + i]);
            key[i] = input[start + i] ^ png[i];
            i = i + 1;
        }
        assert(key@ =~= key_from_body(rest));
        self.state = ReaderState::BodyInitial { key, offset: 0 };
        Ok(key)
    }

    /// Decrypt the first `n` bytes of `buffer`, which were just read from the body.
    pub fn decrypt(&mut self, buffer: &mut Vec<u8>, n: usize)
        requires
            old(self).wf(),
            old(self).spec_key() is Some,
            n <= old(buffer)@.len(),
        ensures
            final(self).wf(),
            final(self).spec_key() == old(self).spec_key(),
            final(self).body_position() == if old(self).body_position() + n < 16 {
                old(self).body_position() + n
            } else {
                16
            },
            final(buffer)@.len() == old(buffer)@.len(),
            final(buffer)@.subrange(0, n as int) == xor_prefix(
                old(buffer)@.subrange(0, n as int),
                old(self).spec_key()->0,
                old(self).body_position(),
            ),
            final(buffer)@.subrange(n as int, old(buffer)@.len() as int) == old(
                buffer,
            )@.subrange(n as int, old(buffer)@.len() as int),
    {
        let ghost original = buffer@;
        match self.state {
            ReaderState::BodyInitial { key, offset } => {
                let mut i: usize = 0;
                while i < n && offset + i < 16
                    invariant
                        i <= n,
                        offset < 16,
                        offset + i <= 16,
                        n <= original.len(),
                        buffer@.len() == original.len(),
                        forall|j: int|
                            0 <= j < i ==> buffer@[j] == original[j] ^ key@[offset + j],
                        forall|j: int| i <= j < original.len() ==> buffer@[j] == original[j],
                    decreases n - i,
                {
                    let b = buffer[i] ^ key[offset + i];
                    buffer.set(i, b);
                    i = i + 1;
                }
                let new_offset = offset + i;
                if new_offset == 16 {
                    self.state = ReaderState::Body { key };
                } else {
                    self.state = ReaderState::BodyInitial { key, offset: new_offset };
                }
                assert(buffer@.subrange(0, n as int) =~= xor_prefix(
                    original.subrange(0, n as int),
                    key@,
                    offset as int,
                ));
                assert(buffer@.subrange(n as int, original.len() as int) =~= original.subrange(
                    n as int,
                    original.len() as int,
                ));
            },
            _ => {
                assert(buffer@.subrange(0, n as int) =~= xor_prefix(
                    original.subrange(0, n as int),
                    self.spec_key()->0,
                    16,
                ));
            },
        }
    }
}

proof fn lemma_array9_choice(a: [u8; 9])
    ensures
        arbitrary_array9(a@) == a,
{
    assert(a@ == a@);
    let c = arbitrary_array9(a@);
    assert(c@ == a@);
    assert forall|i: int| 0 <= i < 9 implies c[i] == a[i] by {
        assert(c@[i] == a@[i]);
    }
    assert(c =~= a);
}

proof fn lemma_array3_choice(a: [u8; 3])
    ensures
        arbitrary_array3(a@) == a,
{
    assert(a@ == a@);
    let c = arbitrary_array3(a@);
    assert(c@ == a@);
    assert forall|i: int| 0 <= i < 3 implies c[i] == a[i] by {
        assert(c@[i] == a@[i]);
    }
    assert(c =~= a);
}

proof fn lemma_array4_choice(a: [u8; 4])
    ensures
        arbitrary_array4(a@) == a,
{
    assert(a@ == a@);
    let c = arbitrary_array4(a@);
    assert(c@ == a@);
    assert forall|i: int| 0 <= i < 4 implies c[i] == a[i] by {
        assert(c@[i] == a@[i]);
    }
    assert(c =~= a);
}

/// The PNG header as an array.
pub fn png_header_bytes() -> (a: [u8; 16])
    ensures
        a@ == png_header(),
{
    let a: [u8; 16] = [
        0x89, 0x50, 0x4E, 0x47, 0x0D, 0x0A, 0x1A, 0x0A, 0, 0, 0, 0x0D, 0x49, 0x48, 0x44, 0x52,
    ];
    assert(a@ =~= png_header());
    a
}

/// The writer state
#[derive(Debug, Clone, Copy, PartialEq, Eq)]
pub enum WriterState {
    /// Writes header next
    Header,
    /// Writes the start of the body next
    BodyInitial { offset: usize },
    /// Writes the body next
    Body,
}

impl WriterState {
    /// Check if this is the header state.
    pub fn is_header(&self) -> (b: bool)
        ensures
            b == (*self is Header),
    {
        match self {
            WriterState::Header => true,
            _ => false,
        }
    }
}

/// The encrypting side of the format.
#[derive(Debug, Clone, Copy)]
pub struct Writer {
    state: WriterState,
    key: [u8; 16],
}

impl Writer {
    /// The state of this writer.
    pub closed spec fn spec_state(&self) -> WriterState {
        self.state
    }

    /// The key this writer encrypts with.
    pub closed spec fn spec_key(&self) -> Seq<u8> {
        self.key@
    }

    /// Well-formedness: the offset into the encrypted part stays below 16.
    pub open spec fn wf(&self) -> bool {
        match self.spec_state() {
            WriterState::BodyInitial { offset } => offset < 16,
            _ => true,
        }
    }

    /// How many bytes of the body this writer has encrypted so far, where it counts.
    pub open spec fn body_position(&self) -> int {
        match self.spec_state() {
            WriterState::BodyInitial { offset } => offset as int,
            _ => 16,
        }
    }

    /// Make a new writer with the given key; it writes the header first.
    pub fn new(key: [u8; 16]) -> (w: Self)
        ensures
            w.spec_state() is Header,
            w.spec_key() == key@,
            w.wf(),
    {
        Writer { state: WriterState::Header, key }
    }

    /// The state of this writer.
    pub fn state(&self) -> (s: WriterState)
        ensures
            s == self.spec_state(),
    {
        self.state
    }

    /// Write the header: the bytes to write, which are empty when the header was written before.
    pub fn write_header(&mut self) -> (bytes: Vec<u8>)
        requires
            old(self).wf(),
        ensures
            final(self).wf(),
            final(self).spec_key() == old(self).spec_key(),
            old(self).spec_state() is Header ==> bytes@ == header_bytes()
                && final(self).spec_state() == (WriterState::BodyInitial { offset: 0 }),
            !(old(self).spec_state() is Header) ==> bytes@.len() == 0 && *final(self) == *old(
                self,
            ),
    {
        if !self.state.is_header() {
            return Vec::new();
        }
        let bytes: Vec<u8> = vec![0x52, 0x50, 0x47, 0x4D, 0x56, 0, 0, 0, 0, 3, 1, 0, 0, 0, 0, 0];
        assert(bytes@ =~= header_bytes());
        self.state = WriterState::BodyInitial { offset: 0 };
        bytes
    }

    /// How many bytes of `input` a write takes: as many as the encrypted
    /// part of the body still takes, or all of them past it.
    pub open spec fn write_len(&self, input_len: int) -> int {
        if self.spec_state() is Body {
            input_len
        } else {
            let left = 16 - self.write_position();
            if input_len < left {
                input_len
            } else {
                left
            }
        }
    }

    /// The body position where the next written byte goes.
    pub open spec fn write_position(&self) -> int {
        if self.spec_state() is Header {
            0
        } else {
            self.body_position()
        }
    }

    /// Write the start of `input`: the header first where it has not been
    /// written, then as many bytes as the encrypted part of the body still
    /// takes, XORed with the key, or all of `input` past that part.
    ///
    /// Returns the bytes to write and how many bytes of `input` they hold.
    pub fn encrypt(&mut self, input: &[u8]) -> (r: (Vec<u8>, usize))
        requires
            old(self).wf(),
        ensures
            final(self).wf(),
            final(self).spec_key() == old(self).spec_key(),
            r.1 == old(self).write_len(input@.len() as int),
            r.0@ == (if old(self).spec_state() is Header {
                header_bytes()
            } else {
                seq![]
            }) + xor_prefix(
                input@.subrange(0, r.1 as int),
                old(self).spec_key(),
                old(self).write_position(),
            ),
            !(final(self).spec_state() is Header),
            final(self).body_position() == if old(self).write_position() + r.1 < 16 {
                old(self).write_position() + r.1
            } else {
                16
            },
    {
        let mut out = self.write_header();
        let ghost pre = out@;
        let offset = match self.state {
            WriterState::BodyInitial { offset } => offset,
            _ => 16,
        };
        if offset == 16 {
            let mut j: usize = 0;
            while j < input.len()
                invariant
                    j <= input@.len(),
                    out@ == pre + input@.subrange(0, j as int),
                decreases input@.len() - j,
            {
                out.push(input[j]);
                j = j + 1;
                assert(out@ =~= pre + input@.subrange(0, j as int));
            }
            assert(xor_prefix(input@.subrange(0, j as int), self.key@, 16) =~= input@.subrange(
                0,
                j as int,
            ));
            return (out, input.len());
        }
        let mut i: usize = 0;
        while i < input.len() && offset + i < 16
            invariant
                offset < 16,
                i <= input@.len(),
                offset + i <= 16,
                out@.len() == pre.len() + i,
                out@.subrange(0, pre.len() as int) == pre,
                self.key@ == old(self).spec_key(),
                forall|j: int| 0 <= j < i ==> out@[pre.len() + j] == input@[j] ^ self.key@[offset + j],
            decreases input@.len() - i,
        {
            out.push(input[i] ^ self.key[offset + i]);
            i = i + 1;
        }
        let new_offset = offset + i;
        if new_offset == 16 {
            self.state = WriterState::Body;
        } else {
            self.state = WriterState::BodyInitial { offset: new_offset };
        }
        assert(out@ =~= pre + xor_prefix(input@.subrange(0, i as int), self.key@, offset as int));
        (out, i)
    }
}

/// XOR with a key is its own inverse: decrypting what was encrypted at the
/// same body position gives the original bytes back.
pub proof fn lemma_xor_prefix_involution(data: Seq<u8>, key: Seq<u8>, offset: int)
    requires
        0 <= offset,
        key.len() == 16,
    ensures
        xor_prefix(xor_prefix(data, key, offset), key, offset) == data,
{
    let once = xor_prefix(data, key, offset);
    let twice = xor_prefix(once, key, offset);
    assert forall|i: int| 0 <= i < data.len() implies twice[i] == data[i] by {
        if offset + i < 16 {
            let a = data[i];
            let k = key[offset + i];
            assert((a ^ k) ^ k == a) by (bit_vector);
        }
    }
    assert(twice =~= data);
}

/// Encrypting in pieces is encrypting the whole: the chunks a caller hands
/// one after the other line up with the positions of the body.
pub proof fn lemma_xor_prefix_split(a: Seq<u8>, b: Seq<u8>, key: Seq<u8>, offset: int)
    requires
        0 <= offset,
    ensures
        xor_prefix(a + b, key, offset) == xor_prefix(a, key, offset) + xor_prefix(
            b,
            key,
            offset + a.len(),
        ),
{
    assert(xor_prefix(a + b, key, offset) =~= xor_prefix(a, key, offset) + xor_prefix(
        b,
        key,
        offset + a.len(),
    ));
}

/// The key is recovered from an encrypted file: a PNG image encrypted under
/// any key gives that key back when the reader XORs its body with the PNG header.
pub proof fn lemma_key_recovery(key: Seq<u8>, plain: Seq<u8>)
    requires
        key.len() == 16,
        plain.len() >= 16,
        plain.subrange(0, 16) == png_header(),
    ensures
        encrypted_file(key, plain).subrange(0, 16) == header_bytes(),
        header_check(encrypted_file(key, plain).subrange(0, 16)) == Ok::<(), Error>(()),
        key_from_body(encrypted_file(key, plain).subrange(16, (16 + plain.len()) as int)) == key,
{
    let file = encrypted_file(key, plain);
    assert(file.subrange(0, 16) =~= header_bytes());
    assert(header_bytes().subrange(0, 9) =~= magic());
    assert(header_bytes().subrange(9, 12) =~= version());
    assert(header_bytes().subrange(12, 16) =~= header_padding());
    let body = file.subrange(16, (16 + plain.len()) as int);
    assert(body =~= xor_prefix(plain, key, 0));
    assert forall|i: int| 0 <= i < 16 implies key_from_body(body)[i] == key[i] by {
        let p = plain[i];
        let k = key[i];
        assert(p == png_header()[i]);
        assert((p ^ k) ^ p == k) by (bit_vector);
    }
    assert(key_from_body(body) =~= key);
}

/// Decrypting then encrypting gives the file back: a file whose header checks
/// and whose body is long enough to recover the key is the encryption, under
/// the recovered key, of the image that decryption gives.
pub proof fn lemma_decrypt_encrypt_roundtrip(file: Seq<u8>)
    requires
        file.len() >= 32,
        header_check(file.subrange(0, 16)) == Ok::<(), Error>(()),
    ensures
        ({
            let body = file.subrange(16, file.len() as int);
            let key = key_from_body(body);
            encrypted_file(key, xor_prefix(body, key, 0)) == file
        }),
{
    let body = file.subrange(16, file.len() as int);
    let key = key_from_body(body);
    lemma_xor_prefix_involution(body, key, 0);
    let header = file.subrange(0, 16);
    assert(header.subrange(0, 9) == magic());
    assert(header.subrange(9, 12) == version());
    assert(header.subrange(12, 16) == header_padding());
    assert(header =~= header.subrange(0, 9) + header.subrange(9, 12) + header.subrange(12, 16));
    assert(header =~= header_bytes());
    assert(file =~= header + body);
}

/// Encrypting then decrypting gives the image back, and decryption finds the key by itself.
pub proof fn lemma_encrypt_decrypt_roundtrip(key: Seq<u8>, plain: Seq<u8>)
    requires
        key.len() == 16,
        plain.len() >= 16,
        plain.subrange(0, 16) == png_header(),
    ensures
        ({
            let file = encrypted_file(key, plain);
            let body = file.subrange(16, file.len() as int);
            &&& header_check(file.subrange(0, 16)) == Ok::<(), Error>(())
            &&& key_from_body(body) == key
            &&& xor_prefix(body, key_from_body(body), 0) == plain
        }),
{
    lemma_key_recovery(key, plain);
    let file = encrypted_file(key, plain);
    let body = file.subrange(16, file.len() as int);
    assert(body =~= xor_prefix(plain, key, 0));
    lemma_xor_prefix_involution(plain, key, 0);
}

} // verus!

verus! {

/// What decrypting a whole file gives: the error of its header, too few bytes
/// to hold a header and the key, or the image, whose first 16 bytes are
/// XORed with the key recovered from them.
pub open spec fn decrypted_file(file: Seq<u8>) -> Result<Seq<u8>, Error> {
    if file.len() < 16 {
        Err(Error::BufferTooSmall)
    } else {
        match header_check(file.subrange(0, 16)) {
            Err(e) => Err(e),
            Ok(_) => {
                let body = file.subrange(16, file.len() as int);
                if body.len() < 16 {
                    Err(Error::BufferTooSmall)
                } else {
                    Ok(xor_prefix(body, key_from_body(body), 0))
                }
            },
        }
    }
}

/// Decrypts a whole file held in memory: the header is read and checked, the
/// key is recovered from the start of the body, and the body is decrypted.
pub fn decrypt_file(file: &[u8]) -> (r: Result<Vec<u8>, Error>)
    ensures
        match (r, decrypted_file(file@)) {
            (Ok(v), Ok(d)) => v@ == d,
            (Err(e), Err(d)) => e == d,
            _ => false,
        },
{
    let mut reader = Reader::new();
    let consumed = match reader.read_header(file) {
        Ok(n) => n,
        Err(e) => return Err(e),
    };
    let mut body: Vec<u8> = Vec::new();
    let mut i: usize = consumed;
    while i < file.len()
        invariant
            consumed == 16,
            16 <= i <= file@.len(),
            body@ == file@.subrange(16, i as int),
        decreases file@.len() - i,
    {
        body.push(file[i]);
        i = i + 1;
    }
    assert(body@ == file@.subrange(16, file@.len() as int));
    match reader.extract_key(body.as_slice()) {
        Ok(_) => {},
        Err(e) => return Err(e),
    }
    let len = body.len();
    reader.decrypt(&mut body, len);
    assert(body@.subrange(0, len as int) =~= body@);
    assert(file@.subrange(16, file@.len() as int).subrange(0, len as int) =~= file@.subrange(
        16,
        file@.len() as int,
    ));
    Ok(body)
}

/// Encrypts a whole image held in memory under `key`: the header first, then
/// the image with its first 16 bytes XORed with the key.
pub fn encrypt_file(key: [u8; 16], plain: &[u8]) -> (r: Vec<u8>)
    ensures
        r@ == encrypted_file(key@, plain@),
{
    let mut writer = Writer::new(key);
    let (mut out, taken) = writer.encrypt(plain);
    assert(out@ == header_bytes() + xor_prefix(plain@.subrange(0, taken as int), key@, 0));
    let ghost head = xor_prefix(plain@.subrange(0, taken as int), key@, 0);
    let mut j: usize = taken;
    while j < plain.len()
        invariant
            taken <= j <= plain@.len(),
            head.len() == taken,
            out@ == header_bytes() + head + plain@.subrange(taken as int, j as int),
        decreases plain@.len() - j,
    {
        out.push(plain[j]);
        j = j + 1;
        assert(out@ =~= header_bytes() + head + plain@.subrange(taken as int, j as int));
    }
    proof {
        let n = taken as int;
        lemma_xor_prefix_split(plain@.subrange(0, n), plain@.subrange(n, plain@.len() as int), key@, 0);
        assert(plain@ =~= plain@.subrange(0, n) + plain@.subrange(n, plain@.len() as int));
        assert(xor_prefix(plain@.subrange(n, plain@.len() as int), key@, n) =~= plain@.subrange(
            n,
            plain@.len() as int,
        ));
        assert(out@ =~= encrypted_file(key@, plain@));
    }
    out
}

/// Reading a whole file gives the PNG header first: once the key is recovered
/// from the start of the body, the decrypted image begins with the PNG header
/// and holds the rest of the body unchanged, one byte for each byte of the body.
pub proof fn lemma_decrypted_file_shape(file: Seq<u8>)
    ensures
        decrypted_file(file) matches Ok(d) ==> {
            &&& d.len() == file.len() - 16
            &&& d.subrange(0, 16) == png_header()
            &&& forall|i: int| 16 <= i < d.len() ==> d[i] == file[16 + i]
        },
{
    if let Ok(d) = decrypted_file(file) {
        let body = file.subrange(16, file.len() as int);
        let key = key_from_body(body);
        assert forall|i: int| 0 <= i < 16 implies d[i] == png_header()[i] by {
            let b = body[i];
            let p = png_header()[i];
            assert((b ^ (b ^ p)) == p) by (bit_vector);
        }
        assert(d.subrange(0, 16) =~= png_header());
    }
}

/// Decrypting a file and encrypting the result again under the key recovered
/// from it gives the file back, byte for byte.
pub proof fn lemma_reencrypt_gives_file(file: Seq<u8>)
    ensures
        decrypted_file(file) matches Ok(d) ==> encrypted_file(
            key_from_body(file.subrange(16, file.len() as int)),
            d,
        ) == file,
{
    if let Ok(d) = decrypted_file(file) {
        lemma_decrypt_encrypt_roundtrip(file);
    }
}

/// A PNG image encrypted under any key is decrypted back to the image.
pub proof fn lemma_encrypted_file_decrypts(key: Seq<u8>, plain: Seq<u8>)
    requires
        key.len() == 16,
        plain.len() >= 16,
        plain.subrange(0, 16) == png_header(),
    ensures
        decrypted_file(encrypted_file(key, plain)) == Ok::<Seq<u8>, Error>(plain),
{
    lemma_encrypt_decrypt_roundtrip(key, plain);
    let file = encrypted_file(key, plain);
    assert(file.subrange(0, 16) =~= header_bytes());
}

} // verus!

verus! {

/// The header of every file is `RPGMV`, four zero bytes, the version 3.1.0
/// and four zero bytes; every PNG starts with 0x89 `PNG` `\r\n` 0x1A `\n` and
/// the length and name of the `IHDR` chunk.
pub proof fn lemma_header_bytes_literal()
    ensures
        header_bytes() == seq![
            0x52u8, 0x50, 0x47, 0x4D, 0x56, 0, 0, 0, 0, 3, 1, 0, 0, 0, 0, 0,
        ],
        png_header() == seq![
            0x89u8, 0x50, 0x4E, 0x47, 0x0D, 0x0A, 0x1A, 0x0A, 0, 0, 0, 0x0D, 0x49, 0x48, 0x44, 0x52,
        ],
{
    assert(header_bytes() =~= seq![
        0x52u8, 0x50, 0x47, 0x4D, 0x56, 0, 0, 0, 0, 3, 1, 0, 0, 0, 0, 0,
    ]);
}

} // verus!
