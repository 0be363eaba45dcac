use rpgmv_tool::rpgmvp::{decrypt_file, encrypt_file, png_header_bytes, Error, Reader, Writer};

/// An encrypted file made the way the game makes them, from a PNG-like body.
fn sample_file() -> (Vec<u8>, [u8; 16], Vec<u8>) {
    let key: [u8; 16] = [
        0x1f, 0x2e, 0x3d, 0x4c, 0x5b, 0x6a, 0x79, 0x88, 0x97, 0xa6, 0xb5, 0xc4, 0xd3, 0xe2, 0xf1,
        0x00,
    ];
    let mut plain = png_header_bytes().to_vec();
    plain.extend_from_slice(b"\x00\x00\x00\x30\x00\x00\x00\x30\x08\x06\x00\x00\x00rest of image");
    let mut file = vec![
        0x52, 0x50, 0x47, 0x4D, 0x56, 0, 0, 0, 0, 3, 1, 0, 0, 0, 0, 0,
    ];
    for (i, b) in plain.iter().enumerate() {
        if i < 16 {
            file.push(b ^ key[i]);
        } else {
            file.push(*b);
        }
    }
    (file, key, plain)
}

#[test]
fn reader_writer() {
    let (encrypted_file, _, _) = sample_file();

    let mut reader = Reader::new();
    let consumed = reader.read_header(&encrypted_file).expect("failed to copy");
    assert_eq!(consumed, 16);
    let mut decrypted = encrypted_file[16..].to_vec();
    let key = reader
        .extract_key(&decrypted)
        .expect("failed to extract key");
    let n = decrypted.len();
    reader.decrypt(&mut decrypted, n);

    let mut encrypted: Vec<u8> = Vec::new();
    let mut writer = Writer::new(key);
    encrypted.extend_from_slice(&writer.write_header());
    let (head, taken) = writer.encrypt(&decrypted);
    encrypted.extend_from_slice(&head);
    encrypted.extend_from_slice(&decrypted[taken..]);

    assert!(encrypted_file == encrypted);
}

#[test]
fn reader_recovers_key_and_image() {
    let (file, key, plain) = sample_file();
    let mut reader = Reader::new();
    reader.read_header(&file).expect("valid header");
    let mut body = file[16..].to_vec();
    assert_eq!(reader.extract_key(&body), Ok(key));
    let n = body.len();
    reader.decrypt(&mut body, n);
    assert_eq!(body, plain);
}

#[test]
fn reader_rejects_bad_header() {
    let (mut file, _, _) = sample_file();
    file[0] = b'X';
    let mut reader = Reader::new();
    assert!(matches!(
        reader.read_header(&file),
        Err(Error::InvalidMagic { .. })
    ));
    let mut reader = Reader::new();
    assert_eq!(reader.read_header(&file[..4]), Err(Error::BufferTooSmall));
}

#[test]
fn writer_header_is_written_once() {
    let mut writer = Writer::new([7; 16]);
    assert_eq!(
        writer.write_header(),
        vec![0x52, 0x50, 0x47, 0x4D, 0x56, 0, 0, 0, 0, 3, 1, 0, 0, 0, 0, 0]
    );
    assert!(writer.write_header().is_empty());
    assert_eq!(writer.encrypt(&[1, 2, 3]), (vec![1 ^ 7, 2 ^ 7, 3 ^ 7], 3));
}

#[test]
fn whole_file_decrypts_and_reencrypts() {
    let (file, key, plain) = sample_file();
    let decrypted = decrypt_file(&file).unwrap();
    assert_eq!(decrypted, plain);
    assert_eq!(&decrypted[..16], &png_header_bytes()[..]);
    assert_eq!(encrypt_file(key, &decrypted), file);
}

#[test]
fn whole_file_errors() {
    let (file, _, _) = sample_file();
    assert_eq!(decrypt_file(&file[..10]), Err(Error::BufferTooSmall));
    assert_eq!(decrypt_file(&file[..20]), Err(Error::BufferTooSmall));
    let mut bad = file.clone();
    bad[9] = 4;
    assert_eq!(
        decrypt_file(&bad),
        Err(Error::InvalidVersion { version: [4, 1, 0] })
    );
}

#[test]
fn writer_writes_header_before_body() {
    let mut writer = Writer::new([7; 16]);
    let (out, taken) = writer.encrypt(&[1; 20]);
    assert_eq!(taken, 16);
    assert_eq!(&out[..16], &[0x52, 0x50, 0x47, 0x4D, 0x56, 0, 0, 0, 0, 3, 1, 0, 0, 0, 0, 0]);
    assert_eq!(&out[16..], &[1 ^ 7; 16]);
    assert_eq!(writer.encrypt(&[1, 2]), (vec![1, 2], 2));
}

#[test]
fn fresh_reader_extracts_key_after_header() {
    let (file, key, _) = sample_file();
    let mut reader = Reader::new();
    assert_eq!(reader.extract_key(&file), Ok(key));
    assert_eq!(reader.extract_key(&[]), Ok(key));

    let (mut bad, _, _) = sample_file();
    bad[12] = 1;
    let mut reader = Reader::new();
    assert_eq!(
        reader.extract_key(&bad),
        Err(Error::InvalidHeaderPadding { padding: [1, 0, 0, 0] })
    );
    let mut reader = Reader::new();
    assert_eq!(reader.extract_key(&file[..20]), Err(Error::BufferTooSmall));
}
