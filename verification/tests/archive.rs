use pyaket::archive::detect_format;
use pyaket::archive::unpack_bytes;
use pyaket::archive::ArchiveError;
use pyaket::archive::ArchiveFormat;
use pyaket::archive::UnpackPayload;
use pyaket::archive::UnpackPlan;

fn tar_with_one_file() -> Vec<u8> {
    let mut tar_bytes: Vec<u8> = Vec::new();
    {
        let mut builder = tar::Builder::new(&mut tar_bytes);
        let data: &[u8] = b"hello launcher";
        let mut header = tar::Header::new_gnu();
        header.set_size(data.len() as u64);
        header.set_mode(0o644);
        header.set_cksum();
        builder.append_data(&mut header, "hello.txt", data).unwrap();
        builder.finish().unwrap();
    }
    tar_bytes
}

fn gzip_of(data: &[u8]) -> Vec<u8> {
    let mut enc = flate2::write::GzEncoder::new(Vec::new(), flate2::Compression::default());
    std::io::Write::write_all(&mut enc, data).unwrap();
    enc.finish().unwrap()
}

fn bzip2_of(data: &[u8]) -> Vec<u8> {
    let mut enc = bzip2::write::BzEncoder::new(Vec::new(), bzip2::Compression::default());
    std::io::Write::write_all(&mut enc, data).unwrap();
    enc.finish().unwrap()
}

fn zstd_of(data: &[u8]) -> Vec<u8> {
    zstd::encode_all(data, 0).unwrap()
}

#[test]
fn magic_bytes_select_each_decoder() {
    let zip = vec![0x50, 0x4B, 0x03, 0x04, 0x00, 0x00];
    let zst = vec![0x28, 0xB5, 0x2F, 0xFD, 0x00, 0x00];
    let bz2 = vec![0x42, 0x5A, 0x68, 0x39, 0x00, 0x00];
    let gz = vec![0x1F, 0x8B, 0x08, 0x00, 0x00, 0x00];
    assert_eq!(detect_format(&zip), Ok(ArchiveFormat::Zip));
    assert_eq!(detect_format(&zst), Ok(ArchiveFormat::ZstdTar));
    assert_eq!(detect_format(&bz2), Ok(ArchiveFormat::Bzip2Tar));
    assert_eq!(detect_format(&gz), Ok(ArchiveFormat::GzipTar));
}

#[test]
fn unknown_magic_bytes_are_fatal() {
    let junk = vec![0x01, 0x02, 0x03, 0x04, 0x05, 0x06];
    assert_eq!(detect_format(&junk), Err(ArchiveError::UnknownFormat));
    let short = vec![0x1F, 0x8B];
    assert_eq!(detect_format(&short), Err(ArchiveError::UnknownFormat));
}

#[test]
fn unpack_decompresses_each_wrapped_tar() {
    let tar_bytes = tar_with_one_file();
    for payload in [gzip_of(&tar_bytes), bzip2_of(&tar_bytes), zstd_of(&tar_bytes)] {
        match unpack_bytes(&payload, None, false).unwrap() {
            UnpackPlan::Extract { wipe, payload: UnpackPayload::Tar(t), .. } => {
                assert!(!wipe);
                assert_eq!(t, tar_bytes);
            }
            _ => panic!("expected a tar extraction"),
        }
    }
}

#[test]
fn unpack_passes_zip_payloads_through() {
    let fake_zip = vec![0x50, 0x4B, 0x03, 0x04, 0x09, 0x08];
    match unpack_bytes(&fake_zip, None, false).unwrap() {
        UnpackPlan::Extract { wipe, payload: UnpackPayload::Zip(p), .. } => {
            assert!(!wipe);
            assert_eq!(p, fake_zip);
        }
        _ => panic!("expected a zip extraction"),
    }
}

#[test]
fn hash_flag_is_the_decimal_content_hash() {
    let payload = gzip_of(&tar_with_one_file());
    let expected = xxhash_rust::xxh3::xxh3_64(&payload).to_string();
    match unpack_bytes(&payload, None, false).unwrap() {
        UnpackPlan::Extract { flag_value, .. } => assert_eq!(flag_value, expected),
        _ => panic!("expected an extraction"),
    }
}

#[test]
fn second_unpack_with_recorded_flag_is_a_no_op() {
    let payload = gzip_of(&tar_with_one_file());
    let flag = match unpack_bytes(&payload, None, false).unwrap() {
        UnpackPlan::Extract { wipe, flag_value, .. } => {
            assert!(!wipe);
            flag_value
        }
        _ => panic!("expected an extraction"),
    };
    match unpack_bytes(&payload, Some(&flag), true).unwrap() {
        UnpackPlan::AlreadyUnpacked => {}
        _ => panic!("expected the idempotent no-op"),
    }
}

#[test]
fn existing_destination_without_a_flag_is_wiped() {
    // A crash between extraction and the flag write leaves files but no
    // flag: the next call starts clean rather than reconciling.
    let payload = gzip_of(&tar_with_one_file());
    match unpack_bytes(&payload, None, true).unwrap() {
        UnpackPlan::Extract { wipe, .. } => assert!(wipe),
        _ => panic!("expected a wiping extraction"),
    }
}

#[test]
fn stale_flag_forces_a_wipe() {
    let payload = gzip_of(&tar_with_one_file());
    let stale = "not the right hash".to_string();
    match unpack_bytes(&payload, Some(&stale), true).unwrap() {
        UnpackPlan::Extract { wipe, .. } => assert!(wipe),
        _ => panic!("expected a wiping extraction"),
    }
}

#[test]
fn corrupt_stream_is_rejected() {
    let mut payload = gzip_of(&tar_with_one_file());
    let n = payload.len();
    payload.truncate(n / 2);
    assert!(matches!(
        unpack_bytes(&payload, None, false),
        Err(ArchiveError::CorruptPayload)
    ));
}
