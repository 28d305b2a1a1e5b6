//! Hash-verified, idempotent archive extraction planning. The format is read
//! from the payload's leading bytes against a fixed table; a content hash
//! recorded beside the extracted files makes a repeated unpack a no-op.

use vstd::prelude::*;

use crate::spec_decimal;
use crate::strutil::str_eq;
use crate::u64_to_string;

verus! {

/// The 64-bit content hash of a payload; a function of the bytes alone.
pub uninterp spec fn xxh3_of(data: Seq<u8>) -> u64;

/// Relies on xxhash_rust::xxh3::xxh3_64: a fast non-cryptographic 64-bit
/// hash, deterministic in the input bytes.
#[verifier::external_body]
fn xxh3_hash(data: &Vec<u8>) -> (r: u64)
    ensures
        r == xxh3_of(data@),
{
    xxhash_rust::xxh3::xxh3_64(data.as_slice())
}

/// What a gzip stream decompresses to, or nothing for a malformed stream;
/// a function of the bytes alone.
pub uninterp spec fn gzip_decoded(data: Seq<u8>) -> Option<Seq<u8>>;

/// Relies on flate2::read::GzDecoder: gzip decompression, deterministic in
/// the input bytes; a malformed stream is an error.
#[verifier::external_body]
fn gzip_decode(data: &Vec<u8>) -> (r: Option<Vec<u8>>)
    ensures
        (r matches Some(v) ==> gzip_decoded(data@) == Some(v@)),
        (r is None ==> gzip_decoded(data@) is None),
{
    let mut out: Vec<u8> = Vec::new();
    let mut dec = flate2::read::GzDecoder::new(data.as_slice());
    match std::io::Read::read_to_end(&mut dec, &mut out) {
        Ok(_) => Some(out),
        Err(_) => None,
    }
}

/// What a bzip2 stream decompresses to, or nothing for a malformed stream;
/// a function of the bytes alone.
pub uninterp spec fn bzip2_decoded(data: Seq<u8>) -> Option<Seq<u8>>;

/// Relies on bzip2::read::BzDecoder: bzip2 decompression, deterministic in
/// the input bytes; a malformed stream is an error.
#[verifier::external_body]
fn bzip2_decode(data: &Vec<u8>) -> (r: Option<Vec<u8>>)
    ensures
        (r matches Some(v) ==> bzip2_decoded(data@) == Some(v@)),
        (r is None ==> bzip2_decoded(data@) is None),
{
    let mut out: Vec<u8> = Vec::new();
    let mut dec = bzip2::read::BzDecoder::new(data.as_slice());
    match std::io::Read::read_to_end(&mut dec, &mut out) {
        Ok(_) => Some(out),
        Err(_) => None,
    }
}

/// What a zstd stream decompresses to, or nothing for a malformed stream;
/// a function of the bytes alone.
pub uninterp spec fn zstd_decoded(data: Seq<u8>) -> Option<Seq<u8>>;

/// Relies on zstd::stream::read::Decoder: zstd decompression, deterministic
/// in the input bytes; a malformed stream is an error.
#[verifier::external_body]
fn zstd_decode(data: &Vec<u8>) -> (r: Option<Vec<u8>>)
    ensures
        (r matches Some(v) ==> zstd_decoded(data@) == Some(v@)),
        (r is None ==> zstd_decoded(data@) is None),
{
    let mut out: Vec<u8> = Vec::new();
    let mut dec = match zstd::stream::read::Decoder::new(data.as_slice()) {
        Ok(d) => d,
        Err(_) => return None,
    };
    match std::io::Read::read_to_end(&mut dec, &mut out) {
        Ok(_) => Some(out),
        Err(_) => None,
    }
}

/// The archive formats the extractor accepts, told apart by leading bytes.
#[derive(Clone, Copy, PartialEq, Eq, Structural, Debug)]
pub enum ArchiveFormat {
    Zip,
    ZstdTar,
    Bzip2Tar,
    GzipTar,
}

/// Why an extraction plan cannot be made.
#[derive(Clone, Copy, PartialEq, Eq, Structural, Debug)]
pub enum ArchiveError {
    /// The leading bytes match no entry of the format table.
    UnknownFormat,
    /// The compressed stream does not decode.
    CorruptPayload,
}

/// The fixed magic-byte table: `50 4B 03 04` is zip, `28 B5 2F FD` is
/// zstd-wrapped tar, `42 5A` bzip2-wrapped tar, `1F 8B` gzip-wrapped tar.
/// A payload shorter than the six-byte sniffing window matches nothing.
pub open spec fn spec_detect_format(b: Seq<u8>) -> Option<ArchiveFormat> {
    if b.len() < 6 {
        None
    } else if b[0] == 0x50 && b[1] == 0x4b && b[2] == 0x03 && b[3] == 0x04 {
        Some(ArchiveFormat::Zip)
    } else if b[0] == 0x28 && b[1] == 0xb5 && b[2] == 0x2f && b[3] == 0xfd {
        Some(ArchiveFormat::ZstdTar)
    } else if b[0] == 0x42 && b[1] == 0x5a {
        Some(ArchiveFormat::Bzip2Tar)
    } else if b[0] == 0x1f && b[1] == 0x8b {
        Some(ArchiveFormat::GzipTar)
    } else {
        None
    }
}

/// Read the archive format from the payload's leading bytes. No decoder is
/// guessed beyond the table lookup: unknown leading bytes are fatal.
pub fn detect_format(data: &Vec<u8>) -> (r: Result<ArchiveFormat, ArchiveError>)
    ensures
        spec_detect_format(data@) is Some ==> r == Ok::<ArchiveFormat, ArchiveError>(
            spec_detect_format(data@).unwrap(),
        ),
        spec_detect_format(data@) is None ==> r == Err::<ArchiveFormat, ArchiveError>(
            ArchiveError::UnknownFormat,
        ),
{
    if data.len() < 6 {
        return Err(ArchiveError::UnknownFormat);
    }
    let b0 = data[0];
    let b1 = data[1];
    let b2 = data[2];
    let b3 = data[3];
    if b0 == 0x50 && b1 == 0x4b && b2 == 0x03 && b3 == 0x04 {
        Ok(ArchiveFormat::Zip)
    } else if b0 == 0x28 && b1 == 0xb5 && b2 == 0x2f && b3 == 0xfd {
        Ok(ArchiveFormat::ZstdTar)
    } else if b0 == 0x42 && b1 == 0x5a {
        Ok(ArchiveFormat::Bzip2Tar)
    } else if b0 == 0x1f && b1 == 0x8b {
        Ok(ArchiveFormat::GzipTar)
    } else {
        Err(ArchiveError::UnknownFormat)
    }
}

/// The decimal text of a payload's content hash, as recorded in the
/// destination's hash-flag file.
pub open spec fn spec_hash_text(data: Seq<u8>) -> Seq<char> {
    spec_decimal(xxh3_of(data) as nat)
}

/// A found hash-flag equal to the payload's own hash text.
pub open spec fn spec_flag_matches(data: Seq<u8>, flag: Option<Seq<char>>) -> bool {
    flag == Some(spec_hash_text(data))
}

/// What one unpack call decides, at the specification level.
pub enum UnpackDecision {
    /// The destination already holds exactly this payload: nothing to do.
    Skip,
    /// Extract the zip payload, wiping the destination first when told to,
    /// and record `flag_value` afterwards.
    ExtractZip { wipe: bool, payload: Seq<u8>, flag_value: Seq<char> },
    /// Unpack the decompressed tar stream likewise.
    ExtractTar { wipe: bool, payload: Seq<u8>, flag_value: Seq<char> },
    /// The leading bytes match no table entry.
    RejectUnknown,
    /// The compressed stream does not decode.
    RejectCorrupt,
}

/// The unpack decision for a payload, the hash-flag found on disk, and
/// whether the destination directory exists at all. A destination that
/// exists without a matching flag may hold a different or partial payload
/// and is wiped, never reconciled.
pub open spec fn spec_unpack(
    data: Seq<u8>,
    flag: Option<Seq<char>>,
    dest_exists: bool,
) -> UnpackDecision {
    if spec_flag_matches(data, flag) {
        UnpackDecision::Skip
    } else {
        let wipe = dest_exists;
        let h = spec_hash_text(data);
        match spec_detect_format(data) {
            None => UnpackDecision::RejectUnknown,
            Some(ArchiveFormat::Zip) => UnpackDecision::ExtractZip {
                wipe,
                payload: data,
                flag_value: h,
            },
            Some(ArchiveFormat::ZstdTar) => match zstd_decoded(data) {
                None => UnpackDecision::RejectCorrupt,
                Some(t) => UnpackDecision::ExtractTar { wipe, payload: t, flag_value: h },
            },
            Some(ArchiveFormat::Bzip2Tar) => match bzip2_decoded(data) {
                None => UnpackDecision::RejectCorrupt,
                Some(t) => UnpackDecision::ExtractTar { wipe, payload: t, flag_value: h },
            },
            Some(ArchiveFormat::GzipTar) => match gzip_decoded(data) {
                None => UnpackDecision::RejectCorrupt,
                Some(t) => UnpackDecision::ExtractTar { wipe, payload: t, flag_value: h },
            },
        }
    }
}

/// The archive content ready to be written out.
pub enum UnpackPayload {
    /// The original bytes, to be read as a zip archive.
    Zip(Vec<u8>),
    /// A decompressed tar stream.
    Tar(Vec<u8>),
}

/// The work one unpack call has planned.
pub enum UnpackPlan {
    /// The destination already holds exactly this payload: nothing to do.
    AlreadyUnpacked,
    /// Delete the destination first when `wipe` is set (a stale flag means a
    /// different or partial payload sits there), write out `payload`, and
    /// only then record `flag_value` in the destination's hash-flag file.
    Extract { wipe: bool, payload: UnpackPayload, flag_value: String },
}

/// The hash-flag text found on disk, as an optional character sequence.
pub open spec fn spec_opt_text(flag_content: Option<&String>) -> Option<Seq<char>> {
    match flag_content {
        Some(f) => Some(f@),
        None => None,
    }
}

/// An unpack result implements a decision exactly: the same case, the same
/// payload, the same flag text.
pub open spec fn spec_plan_matches(
    r: Result<UnpackPlan, ArchiveError>,
    d: UnpackDecision,
) -> bool {
    match r {
        Ok(UnpackPlan::AlreadyUnpacked) => d == UnpackDecision::Skip,
        Ok(UnpackPlan::Extract { wipe, payload: UnpackPayload::Zip(p), flag_value }) => d == (
        UnpackDecision::ExtractZip { wipe, payload: p@, flag_value: flag_value@ }),
        Ok(UnpackPlan::Extract { wipe, payload: UnpackPayload::Tar(p), flag_value }) => d == (
        UnpackDecision::ExtractTar { wipe, payload: p@, flag_value: flag_value@ }),
        Err(ArchiveError::UnknownFormat) => d == UnpackDecision::RejectUnknown,
        Err(ArchiveError::CorruptPayload) => d == UnpackDecision::RejectCorrupt,
    }
}

/// Plan the unpacking of `data` into a destination whose hash-flag file held
/// `flag_content` (or nothing), and which exists on disk or not. The plan is
/// exactly `spec_unpack`'s decision.
pub fn unpack_bytes(data: &Vec<u8>, flag_content: Option<&String>, dest_exists: bool) -> (r:
    Result<UnpackPlan, ArchiveError>)
    ensures
        spec_plan_matches(r, spec_unpack(data@, spec_opt_text(flag_content), dest_exists)),
{
    let hash = u64_to_string(xxh3_hash(data));
    if let Some(f) = flag_content {
        if str_eq(f.as_str(), hash.as_str()) {
            return Ok(UnpackPlan::AlreadyUnpacked);
        }
    }
    let wipe = dest_exists;
    let format = detect_format(data)?;
    match format {
        ArchiveFormat::Zip => Ok(UnpackPlan::Extract {
            wipe,
            payload: UnpackPayload::Zip(data.clone()),
            flag_value: hash,
        }),
        ArchiveFormat::ZstdTar => match zstd_decode(data) {
            Some(t) => Ok(UnpackPlan::Extract {
                wipe,
                payload: UnpackPayload::Tar(t),
                flag_value: hash,
            }),
            None => Err(ArchiveError::CorruptPayload),
        },
        ArchiveFormat::Bzip2Tar => match bzip2_decode(data) {
            Some(t) => Ok(UnpackPlan::Extract {
                wipe,
                payload: UnpackPayload::Tar(t),
                flag_value: hash,
            }),
            None => Err(ArchiveError::CorruptPayload),
        },
        ArchiveFormat::GzipTar => match gzip_decode(data) {
            Some(t) => Ok(UnpackPlan::Extract {
                wipe,
                payload: UnpackPayload::Tar(t),
                flag_value: hash,
            }),
            None => Err(ArchiveError::CorruptPayload),
        },
    }
}

/// Law: unpacking is idempotent. Whatever a successful extraction planned,
/// a second call over the same bytes that finds the hash flag the first call
/// recorded plans no work at all.
pub proof fn lemma_unpack_idempotent(
    data: Seq<u8>,
    flag: Option<Seq<char>>,
    dest_exists: bool,
)
    ensures
        (spec_unpack(data, flag, dest_exists) matches UnpackDecision::ExtractZip {
            flag_value,
            ..
        } ==> spec_unpack(data, Some(flag_value), true) == UnpackDecision::Skip),
        (spec_unpack(data, flag, dest_exists) matches UnpackDecision::ExtractTar {
            flag_value,
            ..
        } ==> spec_unpack(data, Some(flag_value), true) == UnpackDecision::Skip),
{
}

/// Law: a matching hash flag alone decides that nothing is done, whatever
/// bytes arrive and whatever format they are in.
pub proof fn lemma_unpack_skip_iff_flag_matches(
    data: Seq<u8>,
    flag: Option<Seq<char>>,
    dest_exists: bool,
)
    ensures
        spec_unpack(data, flag, dest_exists) == UnpackDecision::Skip <==> spec_flag_matches(
            data,
            flag,
        ),
{
}

} // verus!
