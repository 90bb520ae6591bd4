//! The download scheduler: fans a manifest out into one transfer per
//! blob entry, collects every outcome, and aggregates success or failure.
//!
//! The unverified I/O layer launches the real transfers concurrently; the
//! batch driver here is the sequential reference for what the fan-out
//! computes per file and how the aggregate verdict is reached: every file
//! is given the chance to run, and one failing file never changes what
//! the others produce.

use crate::error::{DownloadError, TransferError};
use crate::manifest::ManifestEntry;
use crate::transfer::{
    chunk_total, events_of, final_file_of, run_transfer, transfer_ok, views_of, TransferOutcome,
};
use vstd::prelude::*;
use vstd::string::StringExecFns;

verus! {

/// The engine's front door; the associated functions hold its pure
/// computations, while the network and disk work around them lives in
/// the unverified layer.
pub struct ModelScope;

impl ModelScope {
    /// The file-listing endpoint for a repository identifier.
    pub fn files_url(model_id: &String) -> (url: String)
        ensures
            url@ == "https://modelscope.cn/api/v1/models/"@ + model_id@
                + "/repo/files?Recursive=true"@,
    {
        let mut url = String::from_str("https://modelscope.cn/api/v1/models/");
        url.append(model_id.as_str());
        url.append("/repo/files?Recursive=true");
        url
    }

    /// The download endpoint for one file of a repository.
    pub fn download_url(model_id: &String, path: &String) -> (url: String)
        ensures
            url@ == "https://modelscope.cn/models/"@ + model_id@ + "/resolve/master/"@ + path@,
    {
        let mut url = String::from_str("https://modelscope.cn/models/");
        url.append(model_id.as_str());
        url.append("/resolve/master/");
        url.append(path.as_str());
        url
    }

    /// A repository identifier formed from its vendor and model name.
    pub fn model_id_of(vendor: &String, name: &String) -> (id: String)
        ensures
            id@ == vendor@ + "/"@ + name@,
    {
        let mut id = vendor.clone();
        id.append("/");
        id.append(name.as_str());
        id
    }

    /// The `Cookie` header value formed from stored name/value pairs.
    pub fn cookie_header(pairs: &Vec<(String, String)>) -> (h: String)
        ensures
            h@ == cookie_header_of(pairs@.map_values(|p: (String, String)| (p.0@, p.1@))),
    {
        let ghost sp = pairs@.map_values(|p: (String, String)| (p.0@, p.1@));
        let mut h = String::new();
        let mut i: usize = 0;
        while i < pairs.len()
            invariant
                i <= pairs@.len(),
                sp == pairs@.map_values(|p: (String, String)| (p.0@, p.1@)),
                h@ == cookie_header_of(sp.take(i as int)),
            decreases pairs@.len() - i,
        {
            proof {
                assert(sp.take(i + 1).drop_last() =~= sp.take(i as int));
                assert(sp.take(i + 1).last() == sp[i as int]);
                assert(sp[i as int] == (pairs@[i as int].0@, pairs@[i as int].1@));
            }
            if i > 0 {
                h.append("; ");
            }
            let p = &pairs[i];
            h.append(p.0.as_str());
            h.append("=");
            h.append(p.1.as_str());
            proof {
                if i == 0 {
                    assert(h@ =~= cookie_pair_of(sp[0].0, sp[0].1));
                }
                assert(h@ =~= cookie_header_of(sp.take(i + 1)));
            }
            i = i + 1;
        }
        proof {
            assert(sp.take(pairs@.len() as int) =~= sp);
        }
        h
    }
}

/// One `name=value` cookie pair as it appears in the header.
pub open spec fn cookie_pair_of(k: Seq<char>, v: Seq<char>) -> Seq<char> {
    k + "="@ + v
}

/// The cookie pairs joined with `"; "`, in order.
pub open spec fn cookie_header_of(pairs: Seq<(Seq<char>, Seq<char>)>) -> Seq<char>
    decreases pairs.len(),
{
    if pairs.len() == 0 {
        Seq::empty()
    } else if pairs.len() == 1 {
        cookie_pair_of(pairs[0].0, pairs[0].1)
    } else {
        cookie_header_of(pairs.drop_last()) + "; "@ + cookie_pair_of(
            pairs.last().0,
            pairs.last().1,
        )
    }
}

/// One file's whole input to the engine: its manifest entry, the bytes
/// already on disk, and the response the server gave its request.
pub struct FileJob {
    pub entry: ManifestEntry,
    pub local: Vec<u8>,
    pub status: u16,
    pub chunks: Vec<Vec<u8>>,
}

impl FileJob {
    /// Whether this file's transfer succeeds.
    pub open spec fn ok(self) -> bool {
        transfer_ok(self.entry.expected_size, self.local@.len() as int, self.status)
    }

    /// The machine limit on how many bytes one transfer may handle.
    pub open spec fn fits(self) -> bool {
        self.local@.len() + chunk_total(views_of(self.chunks@)) <= u64::MAX
    }
}

/// Runs the whole batch: one transfer per job, every job given the
/// chance to run to completion or failure whatever became of its
/// siblings, and an aggregate verdict that fails if any transfer failed,
/// naming one offending file and its cause. Partial successes stay in
/// their outcomes (nothing is rolled back).
pub fn run_all(jobs: Vec<FileJob>) -> (r: (Vec<TransferOutcome>, Result<(), DownloadError>))
    requires
        forall|i: int| 0 <= i < jobs@.len() ==> (#[trigger] jobs@[i]).fits(),
    ensures
        r.0@.len() == jobs@.len(),
        forall|i: int|
            0 <= i < jobs@.len() ==> {
                let out = #[trigger] r.0@[i];
                let job = jobs@[i];
                &&& out.file@ == final_file_of(
                    job.entry.expected_size,
                    job.local@,
                    job.status,
                    views_of(job.chunks@),
                )
                &&& out.events@ == events_of(
                    job.entry.expected_size,
                    job.local@,
                    job.status,
                    views_of(job.chunks@),
                )
                &&& out.result is Ok <==> job.ok()
            },
        r.1 is Ok <==> (forall|i: int| 0 <= i < jobs@.len() ==> (#[trigger] jobs@[i]).ok()),
        r.1 matches Err(e) ==> (e matches DownloadError::Transfer { name, error } && exists|k: int|
            0 <= k < jobs@.len() && !(#[trigger] jobs@[k]).ok() && name@ == jobs@[k].entry.name@
                && error == (TransferError::Http { status: jobs@[k].status })),
{
    let ghost all = jobs@;
    let mut rest = jobs;
    let mut outcomes: Vec<TransferOutcome> = Vec::new();
    let mut first_err: Option<DownloadError> = None;
    while rest.len() > 0
        invariant
            outcomes@.len() + rest@.len() == all.len(),
            rest@ =~= all.skip(outcomes@.len() as int),
            forall|i: int| 0 <= i < all.len() ==> (#[trigger] all[i]).fits(),
            forall|i: int|
                0 <= i < outcomes@.len() ==> {
                    let out = #[trigger] outcomes@[i];
                    let job = all[i];
                    &&& out.file@ == final_file_of(
                        job.entry.expected_size,
                        job.local@,
                        job.status,
                        views_of(job.chunks@),
                    )
                    &&& out.events@ == events_of(
                        job.entry.expected_size,
                        job.local@,
                        job.status,
                        views_of(job.chunks@),
                    )
                    &&& out.result is Ok <==> job.ok()
                },
            first_err is None <==> (forall|i: int|
                0 <= i < outcomes@.len() ==> (#[trigger] all[i]).ok()),
            first_err matches Some(e) ==> (e matches DownloadError::Transfer { name, error }
                && exists|k: int|
                0 <= k < outcomes@.len() && !(#[trigger] all[k]).ok() && name@ == all[k].entry.name@
                    && error == (TransferError::Http { status: all[k].status })),
        decreases rest@.len(),
    {
        let ghost done = outcomes@.len() as int;
        let job = rest.remove(0);
        proof {
            assert(job == all[done]);
            assert(rest@ =~= all.skip(done + 1));
        }
        let FileJob { entry, local, status, chunks } = job;
        let out = run_transfer(&entry, local, status, &chunks);
        if first_err.is_none() {
            if out.result.is_err() {
                first_err = Some(
                    DownloadError::Transfer {
                        name: entry.name.clone(),
                        error: TransferError::Http { status },
                    },
                );
            }
        }
        outcomes.push(out);
    }
    proof {
        assert(outcomes@.len() == all.len());
    }
    match first_err {
        None => (outcomes, Ok(())),
        Some(e) => (outcomes, Err(e)),
    }
}

} // verus!
