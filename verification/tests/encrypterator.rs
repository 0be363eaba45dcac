use md5::{Digest, Md5};
use rpgmv_tool::encrypterator::{decrypt_asset, magic_array, Error, Reader};
use rpgmv_tool::rpgmvp::png_header_bytes;

fn password_key(password: &str) -> [u8; 32] {
    let digest = Md5::digest(password.as_bytes());
    let mut key = [0u8; 32];
    for i in 0..16 {
        key[i] = digest[i];
        key[31 - i] = digest[i];
    }
    key
}

fn encrypted_png_body(key: &[u8; 32]) -> Vec<u8> {
    let mut plain = png_header_bytes().to_vec();
    plain.extend_from_slice(b"0123456789abcdefXYZ");
    let mut body = plain.clone();
    for i in 0..32 {
        body[i] ^= key[i];
    }
    body
}

#[test]
fn encrypterator_rejects_wrong_magic() {
    let mut reader = Reader::new();
    let mut bad = magic_array();
    bad[0] = b'B';
    assert_eq!(reader.read_magic(bad), Err(Error::InvalidMagic { actual: bad }));
    assert_eq!(reader.read_magic(magic_array()), Ok(()));
}

#[test]
fn encrypterator_guessed_key_matches_password_key() {
    let key = password_key("hunter2");
    let body = encrypted_png_body(&key);

    let mut guessed = Reader::new();
    guessed.read_magic(magic_array()).unwrap();
    guessed.guess_key(&body).unwrap();
    let mut a = body.clone();
    let n = guessed.read_len(a.len());
    guessed.decrypt(&mut a, n);

    let mut set = Reader::new();
    set.read_magic(magic_array()).unwrap();
    set.set_key(&body, "hunter2").unwrap();
    let mut b = body.clone();
    let n = set.read_len(b.len());
    set.decrypt(&mut b, n);

    assert_eq!(a, b);
    assert_eq!(&a[..16], &png_header_bytes()[..]);
}

#[test]
fn encrypterator_needs_sixteen_body_bytes() {
    let mut reader = Reader::new();
    reader.read_magic(magic_array()).unwrap();
    assert_eq!(reader.guess_key(&[0u8; 10]), Err(Error::BufferTooSmall));
}

#[test]
fn encrypterator_reads_whole_body() {
    let key = password_key("hunter2");
    let body = encrypted_png_body(&key);

    let mut missing = Reader::new();
    missing.read_magic(magic_array()).unwrap();
    let mut untouched = body.clone();
    assert_eq!(missing.read_body(&mut untouched), Err(Error::MissingKey));
    assert_eq!(untouched, body);

    let mut reader = Reader::new();
    reader.read_magic(magic_array()).unwrap();
    reader.guess_key(&body).unwrap();
    let mut out = body.clone();
    reader.read_body(&mut out).unwrap();
    let mut plain = png_header_bytes().to_vec();
    plain.extend_from_slice(b"0123456789abcdefXYZ");
    assert_eq!(out, plain);
}

#[test]
fn encrypterator_guesses_key_from_sixteen_bytes() {
    let key = password_key("hunter2");
    let body = encrypted_png_body(&key);
    let mut file = magic_array().to_vec();
    file.extend_from_slice(&body[..20]);

    let mut reader = Reader::new();
    reader.guess_key(&file).unwrap();
    let mut out = body[..20].to_vec();
    reader.read_body(&mut out).unwrap();
    assert_eq!(&out[..16], &png_header_bytes()[..]);

    let mut short = Reader::new();
    assert_eq!(short.guess_key(&file[..40]), Err(Error::BufferTooSmall));
}

#[test]
fn encrypterator_fresh_reader_checks_magic() {
    let mut bad = magic_array();
    bad[1] = b'x';
    let mut reader = Reader::new();
    assert_eq!(
        reader.set_key(&bad, "hunter2"),
        Err(Error::InvalidMagic { actual: bad })
    );
    let mut reader = Reader::new();
    assert_eq!(reader.set_key(&bad[..10], "hunter2"), Err(Error::Io));
    let mut reader = Reader::new();
    let mut body = magic_array().to_vec();
    assert_eq!(reader.read_body(&mut body), Err(Error::MissingKey));
}

#[test]
fn encrypterator_decrypts_whole_asset() {
    let key = password_key("hunter2");
    let body = encrypted_png_body(&key);
    let mut file = magic_array().to_vec();
    file.extend_from_slice(&body);
    let mut plain = png_header_bytes().to_vec();
    plain.extend_from_slice(b"0123456789abcdefXYZ");
    assert_eq!(decrypt_asset(&file, None), Ok(plain.clone()));
    assert_eq!(decrypt_asset(&file, Some("hunter2")), Ok(plain));
    assert_eq!(decrypt_asset(&file[..40], None), Err(Error::BufferTooSmall));
    assert_eq!(decrypt_asset(&file[..5], Some("x")), Err(Error::Io));
}
