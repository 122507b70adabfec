//! The batch runner: resolve each identifier in input order, hand its
//! target to the download engine, and record one outcome per identifier
//! without letting one failure stop the rest.

use vstd::prelude::*;
use crate::downloader::DownloadError;
use crate::downloader::join_dest;
use crate::downloader::join_path;
use crate::extension::ExtensionInfo;
use crate::extension::filename_chars;
use crate::extension::url_chars;

verus! {

/// The resolved form of one identifier: where to fetch from and where the
/// bytes go.
pub struct DownloadTarget {
    /// The fully qualified download URL.
    pub url: String,
    /// The filename derived from the identifier.
    pub filename: String,
    /// The filename joined under the batch's output directory.
    pub dest_path: String,
}

/// What one identifier's download came to: the bytes transferred, or why
/// it failed.
pub struct DownloadOutcome {
    /// The identifier this outcome belongs to.
    pub id: ExtensionInfo,
    /// The byte count on success, the error otherwise.
    pub result: Result<u64, DownloadError>,
}

/// A batch of downloads: the identifiers, the output directory, and the
/// outcomes recorded so far, one per finished identifier, in input order.
pub struct BatchRunner {
    /// The identifiers to download, in input order.
    pub ids: Vec<ExtensionInfo>,
    /// The directory downloaded files are placed under; empty means the
    /// current directory.
    pub out_dir: String,
    /// One outcome per already-processed identifier, in input order.
    pub outcomes: Vec<DownloadOutcome>,
}

impl BatchRunner {
    /// Outcomes never outnumber identifiers, and the i-th outcome belongs
    /// to the i-th identifier: outcomes stand in input order.
    pub open spec fn wf(&self) -> bool {
        &&& self.outcomes@.len() <= self.ids@.len()
        &&& forall|i: int|
            0 <= i < self.outcomes@.len() ==> (#[trigger] self.outcomes@[i]).id == self.ids@[i]
    }

    /// Start a batch over the given identifiers, downloading under
    /// `out_dir`.
    pub fn new(ids: Vec<ExtensionInfo>, out_dir: String) -> (r: BatchRunner)
        ensures
            r.ids == ids,
            r.out_dir == out_dir,
            r.outcomes@.len() == 0,
            r.wf(),
    {
        BatchRunner { ids, out_dir, outcomes: Vec::new() }
    }

    /// Whether every identifier has produced an outcome.
    pub fn done(&self) -> (r: bool)
        ensures
            r == (self.outcomes@.len() == self.ids@.len()),
    {
        self.outcomes.len() == self.ids.len()
    }

    /// The target of the next unprocessed identifier: its URL, its derived
    /// filename, and that filename joined under the output directory.
    /// `None` exactly when the batch is done.
    pub fn next_target(&self) -> (r: Option<DownloadTarget>)
        requires
            self.wf(),
        ensures
            match r {
                Some(t) => {
                    &&& self.outcomes@.len() < self.ids@.len()
                    &&& ({
                        let id = self.ids@[self.outcomes@.len() as int];
                        &&& t.url@ == url_chars(id.author@, id.name@, id.version@)
                        &&& t.filename@ == filename_chars(id.author@, id.name@, id.version@)
                        &&& t.dest_path@ == join_path(self.out_dir@, t.filename@)
                    })
                },
                None => self.outcomes@.len() == self.ids@.len(),
            },
    {
        let k = self.outcomes.len();
        if k < self.ids.len() {
            let ext = &self.ids[k];
            let url = match ext.get_url() {
                Ok(u) => u,
                Err(_) => vstd::pervasive::unreached(),
            };
            let filename = match ext.get_filename() {
                Ok(f) => f,
                Err(_) => vstd::pervasive::unreached(),
            };
            let dest_path = join_dest(self.out_dir.as_str(), filename.as_str());
            Some(DownloadTarget { url, filename, dest_path })
        } else {
            None
        }
    }

    /// Record the outcome of the next unprocessed identifier; later
    /// identifiers are unaffected, and the batch goes on either way.
    pub fn record(&mut self, result: Result<u64, DownloadError>)
        requires
            old(self).wf(),
            old(self).outcomes@.len() < old(self).ids@.len(),
        ensures
            final(self).ids == old(self).ids,
            final(self).out_dir == old(self).out_dir,
            final(self).outcomes@ == old(self).outcomes@.push(
                DownloadOutcome {
                    id: old(self).ids@[old(self).outcomes@.len() as int],
                    result,
                },
            ),
            final(self).wf(),
    {
        let k = self.outcomes.len();
        let id = self.ids[k].clone();
        self.outcomes.push(DownloadOutcome { id, result });
    }
}

} // verus!
