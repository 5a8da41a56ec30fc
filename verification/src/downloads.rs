//! The download planner: which entry of the catalog serves a request.

use crate::discovery::{download_request_matches, PythonDownloadRequest};
use crate::installation::Error;
use crate::key::{KeyView, PythonInstallationKey};
use crate::ordering::key_version;
use crate::version::version_before;
use vstd::prelude::*;

verus! {

/// The values of a list of keys.
pub open spec fn key_views(keys: Seq<PythonInstallationKey>) -> Seq<KeyView> {
    Seq::new(keys.len(), |i: int| keys[i]@)
}

/// Whether the catalog has an entry for the request.
pub open spec fn has_download(catalog: Seq<KeyView>, request: PythonDownloadRequest) -> bool {
    exists|i: int| 0 <= i < catalog.len() && download_request_matches(request, catalog[i])
}

/// `i` is the entry of the catalog that serves the request: of the entries that
/// the request takes, the one with the highest version, and of several with
/// that version the first.
pub open spec fn is_latest(catalog: Seq<KeyView>, request: PythonDownloadRequest, i: int) -> bool {
    &&& 0 <= i < catalog.len()
    &&& download_request_matches(request, catalog[i])
    &&& forall|j: int|
        0 <= j < catalog.len() && download_request_matches(request, #[trigger] catalog[j])
            ==> !version_before(key_version(catalog[i]), key_version(catalog[j])) && (j < i
            ==> version_before(key_version(catalog[j]), key_version(catalog[i])))
}

/// The entry of the catalog that serves the request.
pub open spec fn latest_index(catalog: Seq<KeyView>, request: PythonDownloadRequest) -> int {
    choose|i: int| is_latest(catalog, request, i)
}

/// At most one entry serves a request.
pub proof fn lemma_latest_is(catalog: Seq<KeyView>, request: PythonDownloadRequest, i: int)
    requires
        is_latest(catalog, request, i),
    ensures
        latest_index(catalog, request) == i,
        has_download(catalog, request),
{
    let j = latest_index(catalog, request);
    assert(is_latest(catalog, request, j));
    assert(download_request_matches(request, catalog[i]));
    assert(download_request_matches(request, catalog[j]));
}

/// Finds the entry of the catalog that serves the request.
pub fn plan_download(catalog: &Vec<PythonInstallationKey>, request: &PythonDownloadRequest) -> (r:
    Result<usize, Error>)
    ensures
        match r {
            Ok(i) => is_latest(key_views(catalog@), *request, i as int),
            Err(e) => e == Error::NoDownloadFound && !has_download(key_views(catalog@), *request),
        },
{
    let ghost views = key_views(catalog@);
    let n = catalog.len();
    let mut best: Option<usize> = None;
    let mut i: usize = 0;
    while i < n
        invariant
            n == catalog.len(),
            i <= n,
            views == key_views(catalog@),
            match best {
                Some(b) => b < i && download_request_matches(*request, views[b as int])
                    && forall|j: int|
                    0 <= j < i && download_request_matches(*request, #[trigger] views[j])
                        ==> !version_before(key_version(views[b as int]), key_version(views[j]))
                        && (j < b ==> version_before(
                        key_version(views[j]),
                        key_version(views[b as int]),
                    )),
                None => forall|j: int|
                    0 <= j < i ==> !download_request_matches(*request, #[trigger] views[j]),
            },
        decreases n - i,
    {
        let key = &catalog[i];
        proof {
            assert(views[i as int] == catalog@[i as int]@);
        }
        if request.satisfied_by(key) {
            match best {
                None => {
                    best = Some(i);
                },
                Some(b) => {
                    proof {
                        assert(views[b as int] == catalog@[b as int]@);
                    }
                    if catalog[b].version().precedes(&key.version()) {
                        best = Some(i);
                    }
                },
            }
        }
        i += 1;
    }
    match best {
        Some(b) => Ok(b),
        None => Err(Error::NoDownloadFound),
    }
}

} // verus!
