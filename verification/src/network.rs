//! Dependency resolution: a payload is taken from the embedded bundle when it
//! is there, else from the local cache file, and only otherwise fetched over
//! the network — bounded in size, and written to the cache atomically by the
//! caller so no reader ever sees a partial file.

use vstd::prelude::*;

use crate::assets::AssetBundle;

verus! {

/// The largest payload a network fetch may return.
pub const MAX_DOWNLOAD_BYTES: usize = 100 * 1024 * 1024;

/// Why a required download failed.
#[derive(PartialEq, Eq, Debug)]
pub enum NetworkError {
    /// The download location did not answer successfully.
    UnreachableUrl { url: String },
    /// The response exceeded the size cap.
    PayloadTooLarge { size: usize },
}

/// Fail loudly when a required download location is not reachable.
/// The caller probes the location and hands in what it saw.
pub fn must_exist(url: &str, reachable: bool) -> (r: Result<(), NetworkError>)
    ensures
        r is Ok <==> reachable,
        !reachable ==> (r matches Err(NetworkError::UnreachableUrl { url: u }) && u@ == url@),
{
    if reachable {
        Ok(())
    } else {
        Err(NetworkError::UnreachableUrl { url: url.to_owned() })
    }
}

/// Where a payload was found, and what work remains.
pub enum Obtained {
    /// The payload, straight from the embedded bundle; no file or network
    /// access happens.
    Bundled(Vec<u8>),
    /// The payload, read back from the cache file; no network access happens.
    Cached(Vec<u8>),
    /// Nothing local: fetch `url`, pass the response through
    /// `accept_download`, and write it to `cache_file` via a temporary
    /// sibling renamed into place.
    MustFetch { url: String, cache_file: String },
}

/// Resolve a payload, preferring the embedded bundle, then the cache file
/// the caller already read, and only lastly the network.
pub fn download(
    bundle: &AssetBundle,
    asset: &str,
    url: &str,
    cache_file: &str,
    cached: Option<Vec<u8>>,
) -> (r: Obtained)
    ensures
        bundle.spec_read(asset@) is Some ==> (r matches Obtained::Bundled(b) && b@
            == bundle.spec_read(asset@).unwrap()),
        (bundle.spec_read(asset@) is None && cached is Some) ==> (r matches Obtained::Cached(b)
            && b == cached.unwrap()),
        bundle.spec_read(asset@) is None && cached is None ==> (r matches Obtained::MustFetch {
            url: u,
            cache_file: f,
        } && u@ == url@ && f@ == cache_file@),
{
    match bundle.read(asset) {
        Some(data) => Obtained::Bundled(data),
        None => match cached {
            Some(c) => Obtained::Cached(c),
            None => Obtained::MustFetch {
                url: url.to_owned(),
                cache_file: cache_file.to_owned(),
            },
        },
    }
}

/// Apply the size cap to a fetched payload: an oversized response is fatal,
/// anything else passes through unchanged.
pub fn accept_download(bytes: Vec<u8>) -> (r: Result<Vec<u8>, NetworkError>)
    ensures
        bytes@.len() <= MAX_DOWNLOAD_BYTES <==> r is Ok,
        r matches Ok(b) ==> b == bytes,
        r matches Err(NetworkError::PayloadTooLarge { size }) ==> size == bytes@.len(),
        r is Err ==> (r matches Err(NetworkError::PayloadTooLarge { .. })),
{
    if bytes.len() <= MAX_DOWNLOAD_BYTES {
        Ok(bytes)
    } else {
        let size = bytes.len();
        Err(NetworkError::PayloadTooLarge { size })
    }
}

} // verus!
