//! The download engine: one HTTP(S) retrieval, modelled as a state
//! machine that a transport loop drives with events. The engine decides —
//! fail without a content length, stream chunk by chunk, append to the
//! destination — and the surrounding loop performs the transport and file
//! work those decisions call for.

use vstd::prelude::*;
use vstd::string::StrSliceExecFns;
use vstd::string::StringExecFns;

verus! {

/// Why one item's download failed.
#[derive(Debug, Clone, PartialEq, Eq)]
pub enum DownloadError {
    /// The HEAD response carried no content length, so progress could not
    /// be scaled; the fetch fails before any GET is sent.
    MissingContentLength,
    /// A transport failure: network error, timeout, or a non-success HTTP
    /// status, with a short description.
    Transport(String),
    /// The configured proxy URL is not an HTTP proxy; HTTPS and SOCKS
    /// proxies are unsupported by design.
    UnsupportedProxy,
}

/// Where one fetch stands.
#[derive(Debug, PartialEq, Eq)]
pub enum FetchStep {
    /// The HEAD request is to be sent (or in flight).
    AwaitingHead,
    /// The GET stream is being consumed: the expected total and the bytes
    /// written so far.
    Downloading { total: u64, written: u64 },
    /// The stream completed; `written` bytes were transferred.
    Done { written: u64 },
    /// The fetch failed; nothing further happens for this item.
    Failed { error: DownloadError },
}

/// What the transport loop reports to the engine.
#[derive(Debug)]
pub enum FetchEvent {
    /// The HEAD request succeeded; the content length it reported, if any.
    /// A non-success HEAD status is reported as `HeadFailed` instead.
    HeadResponse { content_length: Option<u64> },
    /// The HEAD request failed, with a short description.
    HeadFailed { message: String },
    /// One chunk of the GET stream arrived; its byte length.
    Chunk { len: u64 },
    /// The GET stream ended.
    StreamEnd,
    /// The GET request or stream failed, with a short description.
    TransportFailed { message: String },
}

/// What the engine asks the transport loop to do next.
#[derive(Debug, PartialEq, Eq)]
pub enum FetchAction {
    /// Send the GET request and open the destination file for appending.
    SendGet,
    /// Append the chunk just reported to the destination file.
    WriteChunk,
    /// The fetch is complete; close the file and report the byte count.
    Finish,
    /// The fetch is over without success; do nothing further for it.
    Abort,
}

/// `a + b`, stopped at the largest representable count.
pub open spec fn sat_add(a: u64, b: u64) -> u64 {
    if a + b <= u64::MAX {
        (a + b) as u64
    } else {
        u64::MAX
    }
}

/// The engine's transition: from a step, the length of the destination
/// file, and an event, to the next step, the file length after the
/// action, and the action asked of the transport loop.
pub open spec fn session_step(state: FetchStep, file_len: u64, e: FetchEvent) -> (
    FetchStep,
    u64,
    FetchAction,
) {
    match (state, e) {
        (FetchStep::AwaitingHead, FetchEvent::HeadResponse { content_length }) => match content_length {
            None => (
                FetchStep::Failed { error: DownloadError::MissingContentLength },
                file_len,
                FetchAction::Abort,
            ),
            Some(total) => (
                FetchStep::Downloading { total, written: 0 },
                file_len,
                FetchAction::SendGet,
            ),
        },
        (FetchStep::AwaitingHead, FetchEvent::HeadFailed { message }) => (
            FetchStep::Failed { error: DownloadError::Transport(message) },
            file_len,
            FetchAction::Abort,
        ),
        (FetchStep::Downloading { total, written }, FetchEvent::Chunk { len }) => (
            FetchStep::Downloading { total, written: sat_add(written, len) },
            sat_add(file_len, len),
            FetchAction::WriteChunk,
        ),
        (FetchStep::Downloading { total, written }, FetchEvent::StreamEnd) => (
            FetchStep::Done { written },
            file_len,
            FetchAction::Finish,
        ),
        (FetchStep::Downloading { total, written }, FetchEvent::TransportFailed { message }) => (
            FetchStep::Failed { error: DownloadError::Transport(message) },
            file_len,
            FetchAction::Abort,
        ),
        (other, _) => (other, file_len, FetchAction::Abort),
    }
}

/// The events of one complete successful fetch: a HEAD response reporting
/// `total`, each chunk of the stream in order, then the end of the stream.
pub open spec fn fetch_events(total: u64, chunks: Seq<u64>) -> Seq<FetchEvent> {
    seq![FetchEvent::HeadResponse { content_length: Some(total) }] + chunks.map_values(
        |c: u64| FetchEvent::Chunk { len: c },
    ) + seq![FetchEvent::StreamEnd]
}

/// The total byte count of a chunk sequence.
pub open spec fn sum_chunks(chunks: Seq<u64>) -> int
    decreases chunks.len(),
{
    if chunks.len() == 0 {
        0
    } else {
        chunks[0] + sum_chunks(chunks.drop_first())
    }
}

/// The engine run over a whole event sequence: the step and file length it
/// ends at.
pub open spec fn run_session(state: FetchStep, file_len: u64, events: Seq<FetchEvent>) -> (
    FetchStep,
    u64,
)
    decreases events.len(),
{
    if events.len() == 0 {
        (state, file_len)
    } else {
        let step = session_step(state, file_len, events[0]);
        run_session(step.0, step.1, events.drop_first())
    }
}

proof fn lemma_sum_chunks_nonneg(chunks: Seq<u64>)
    ensures
        sum_chunks(chunks) >= 0,
    decreases chunks.len(),
{
    if chunks.len() > 0 {
        lemma_sum_chunks_nonneg(chunks.drop_first());
    }
}

/// Running the engine over concatenated event sequences runs them in turn.
proof fn lemma_run_append(state: FetchStep, file_len: u64, e1: Seq<FetchEvent>, e2: Seq<FetchEvent>)
    ensures
        ({
            let mid = run_session(state, file_len, e1);
            run_session(state, file_len, e1 + e2) == run_session(mid.0, mid.1, e2)
        }),
    decreases e1.len(),
{
    if e1.len() == 0 {
        assert(e1 + e2 =~= e2);
    } else {
        assert((e1 + e2)[0] == e1[0]);
        let step = session_step(state, file_len, e1[0]);
        assert((e1 + e2).drop_first() =~= e1.drop_first() + e2);
        lemma_run_append(step.0, step.1, e1.drop_first(), e2);
    }
}

/// While downloading, each chunk advances the written count and the file
/// by its length.
proof fn lemma_run_chunks(total: u64, written: u64, file_len: u64, chunks: Seq<u64>)
    requires
        written + sum_chunks(chunks) <= u64::MAX,
        file_len + sum_chunks(chunks) <= u64::MAX,
    ensures
        run_session(
            FetchStep::Downloading { total, written },
            file_len,
            chunks.map_values(|c: u64| FetchEvent::Chunk { len: c }),
        ) == (
            FetchStep::Downloading { total, written: (written + sum_chunks(chunks)) as u64 },
            (file_len + sum_chunks(chunks)) as u64,
        ),
    decreases chunks.len(),
{
    let events = chunks.map_values(|c: u64| FetchEvent::Chunk { len: c });
    if chunks.len() == 0 {
        assert(events.len() == 0);
    } else {
        let c = chunks[0];
        lemma_sum_chunks_nonneg(chunks.drop_first());
        assert(events[0] == (FetchEvent::Chunk { len: c }));
        assert(events.drop_first() =~= chunks.drop_first().map_values(
            |c: u64| FetchEvent::Chunk { len: c },
        ));
        assert(sat_add(written, c) == written + c);
        assert(sat_add(file_len, c) == file_len + c);
        lemma_run_chunks(total, (written + c) as u64, (file_len + c) as u64, chunks.drop_first());
    }
}

/// Law: a fetch whose HEAD reports a length and whose stream delivers its
/// chunks to the end writes every chunk: it ends `Done` with the chunks'
/// total as its byte count, and the destination file grows by exactly
/// that total.
pub proof fn lemma_successful_fetch(total: u64, file0: u64, chunks: Seq<u64>)
    requires
        sum_chunks(chunks) <= u64::MAX,
        file0 + sum_chunks(chunks) <= u64::MAX,
    ensures
        run_session(FetchStep::AwaitingHead, file0, fetch_events(total, chunks)) == (
            (FetchStep::Done { written: sum_chunks(chunks) as u64 }),
            (file0 + sum_chunks(chunks)) as u64,
        ),
{
    lemma_sum_chunks_nonneg(chunks);
    let head = seq![FetchEvent::HeadResponse { content_length: Some(total) }];
    let mids = chunks.map_values(|c: u64| FetchEvent::Chunk { len: c });
    let tail = seq![FetchEvent::StreamEnd];
    let events = fetch_events(total, chunks);
    assert(events =~= head + (mids + tail));
    lemma_run_append(FetchStep::AwaitingHead, file0, head, mids + tail);
    assert(head.drop_first() =~= Seq::<FetchEvent>::empty());
    assert(run_session(FetchStep::AwaitingHead, file0, head) == (
        (FetchStep::Downloading { total, written: 0 }),
        file0,
    )) by {
        reveal_with_fuel(run_session, 2);
        assert(head[0] == (FetchEvent::HeadResponse { content_length: Some(total) }));
    }
    lemma_run_append(FetchStep::Downloading { total, written: 0 }, file0, mids, tail);
    lemma_run_chunks(total, 0, file0, chunks);
    let written = sum_chunks(chunks) as u64;
    let grown = (file0 + sum_chunks(chunks)) as u64;
    assert(tail.drop_first() =~= Seq::<FetchEvent>::empty());
    assert(run_session(FetchStep::Downloading { total, written }, grown, tail) == (
        (FetchStep::Done { written }),
        grown,
    )) by {
        reveal_with_fuel(run_session, 2);
        assert(tail[0] == FetchEvent::StreamEnd);
        assert(tail.drop_first().len() == 0);
    }
}

/// Law: with the destination opened in create-or-append mode, a second
/// complete fetch to the same path without removing the file between runs
/// leaves a file no smaller than the sum of both transfers.
pub proof fn lemma_append_mode_accumulates(
    file0: u64,
    t1: u64,
    c1: Seq<u64>,
    t2: u64,
    c2: Seq<u64>,
)
    requires
        file0 + sum_chunks(c1) + sum_chunks(c2) <= u64::MAX,
    ensures
        ({
            let first = run_session(FetchStep::AwaitingHead, file0, fetch_events(t1, c1));
            let second = run_session(FetchStep::AwaitingHead, first.1, fetch_events(t2, c2));
            &&& first.0 == (FetchStep::Done { written: sum_chunks(c1) as u64 })
            &&& second.0 == (FetchStep::Done { written: sum_chunks(c2) as u64 })
            &&& second.1 >= sum_chunks(c1) + sum_chunks(c2)
        }),
{
    lemma_sum_chunks_nonneg(c1);
    lemma_sum_chunks_nonneg(c2);
    lemma_successful_fetch(t1, file0, c1);
    lemma_successful_fetch(t2, (file0 + sum_chunks(c1)) as u64, c2);
}

/// Law: a HEAD response without a content length fails the fetch with the
/// content-length error, leaves the file untouched, and never asks for
/// the GET stream.
pub proof fn lemma_missing_content_length(file_len: u64)
    ensures
        ({
            let step = session_step(
                FetchStep::AwaitingHead,
                file_len,
                FetchEvent::HeadResponse { content_length: None },
            );
            &&& step.0 == (FetchStep::Failed { error: DownloadError::MissingContentLength })
            &&& step.1 == file_len
            &&& step.2 == FetchAction::Abort
            &&& step.2 != FetchAction::SendGet
        }),
{
}

/// Whether a proxy URL names a plain HTTP proxy (`http://host:port`). Only
/// those are supported; HTTPS and SOCKS proxies are rejected by design.
pub open spec fn is_http_proxy(p: Seq<char>) -> bool {
    p.len() > 7 && p[0] == 'h' && p[1] == 't' && p[2] == 't' && p[3] == 'p' && p[4] == ':'
        && p[5] == '/' && p[6] == '/'
}

/// Whether the engine supports the given proxy URL: it must be a plain
/// HTTP proxy.
pub fn proxy_is_supported(p: &str) -> (r: bool)
    ensures
        r == is_http_proxy(p@),
{
    let n = p.unicode_len();
    n > 7 && p.get_char(0) == 'h' && p.get_char(1) == 't' && p.get_char(2) == 't' && p.get_char(3)
        == 'p' && p.get_char(4) == ':' && p.get_char(5) == '/' && p.get_char(6) == '/'
}

/// `file` joined under `dir` the way paths concatenate: an empty directory
/// means the current one, an absolute file stands alone, and exactly one
/// separator stands between the parts.
pub open spec fn join_path(dir: Seq<char>, file: Seq<char>) -> Seq<char> {
    if dir.len() == 0 {
        file
    } else if file.len() > 0 && file[0] == '/' {
        file
    } else if dir[dir.len() - 1] == '/' {
        dir + file
    } else {
        dir + seq!['/'] + file
    }
}

/// Join a filename under a directory.
pub fn join_dest(dir: &str, file: &str) -> (r: String)
    ensures
        r@ == join_path(dir@, file@),
{
    let dir_len = dir.unicode_len();
    let file_len = file.unicode_len();
    if dir_len == 0 {
        return file.to_owned();
    }
    if file_len > 0 && file.get_char(0) == '/' {
        return file.to_owned();
    }
    let mut r = dir.to_owned();
    if dir.get_char(dir_len - 1) != '/' {
        r.append("/");
        proof {
            reveal_strlit("/");
            assert("/"@ =~= seq!['/']);
        }
    }
    r.append(file);
    proof {
        assert(r@ =~= join_path(dir@, file@));
    }
    r
}

/// What `reqwest::Url` derives as the last segment of a URL's path: a
/// function of the URL text alone.
pub uninterp spec fn url_last_segment(url: Seq<char>) -> Seq<char>;

/// Relies on `reqwest::Url::parse` and `Url::path_segments`: for a URL
/// that parses and whose path can be split into segments, the last
/// segment; both are derived from the URL text alone.
#[verifier::external_body]
fn last_url_path_segment(url: &str) -> (r: Option<String>)
    ensures
        r matches Some(f) ==> f@ == url_last_segment(url@),
{
    match reqwest::Url::parse(url) {
        Ok(u) => match u.path_segments() {
            Some(segments) => segments.last().map(|s| s.to_owned()),
            None => None,
        },
        Err(_) => None,
    }
}

/// One streaming retrieval: the request configuration, the engine's step,
/// and the model of the destination file it appends to.
pub struct FetchSession {
    /// The URL being fetched.
    pub url: String,
    /// The path of the destination file.
    pub dest: String,
    /// The validated HTTP proxy to route through, if any; `None` bypasses
    /// any ambient proxy configuration entirely.
    pub proxy: Option<String>,
    /// Where the fetch stands.
    pub state: FetchStep,
    /// The length of the destination file: what was there before this
    /// fetch plus what this fetch has appended.
    pub file_len: u64,
}

impl FetchSession {
    /// Start a fetch of `url` into `dest`, appending to a destination file
    /// that already holds `existing_file_len` bytes. A proxy that is not
    /// plain HTTP is rejected here, before any request is sent.
    pub fn new(url: &str, dest: &str, proxy: Option<&str>, existing_file_len: u64) -> (r: Result<
        FetchSession,
        DownloadError,
    >)
        ensures
            match r {
                Ok(s) => {
                    &&& s.url@ == url@
                    &&& s.dest@ == dest@
                    &&& s.state == FetchStep::AwaitingHead
                    &&& s.file_len == existing_file_len
                    &&& match (proxy, s.proxy) {
                        (None, None) => true,
                        (Some(p), Some(sp)) => is_http_proxy(p@) && sp@ == p@,
                        _ => false,
                    }
                },
                Err(e) => {
                    &&& e == DownloadError::UnsupportedProxy
                    &&& (proxy matches Some(p) && !is_http_proxy(p@))
                },
            },
    {
        let stored = match proxy {
            None => None,
            Some(p) => {
                if proxy_is_supported(p) {
                    Some(p.to_owned())
                } else {
                    return Err(DownloadError::UnsupportedProxy);
                }
            },
        };
        Ok(
            FetchSession {
                url: url.to_owned(),
                dest: dest.to_owned(),
                proxy: stored,
                state: FetchStep::AwaitingHead,
                file_len: existing_file_len,
            },
        )
    }

    /// Feed one transport event to the engine; the returned action is what
    /// the transport loop must do next, and the file length tracks the
    /// append the action performs.
    pub fn on_event(&mut self, e: FetchEvent) -> (a: FetchAction)
        ensures
            ({
                let (s2, f2, a2) = session_step(old(self).state, old(self).file_len, e);
                &&& final(self).state == s2
                &&& final(self).file_len == f2
                &&& a == a2
            }),
            final(self).url == old(self).url,
            final(self).dest == old(self).dest,
            final(self).proxy == old(self).proxy,
    {
        let mut state = FetchStep::AwaitingHead;
        core::mem::swap(&mut state, &mut self.state);
        match (state, e) {
            (FetchStep::AwaitingHead, FetchEvent::HeadResponse { content_length }) => match content_length {
                None => {
                    self.state = FetchStep::Failed {
                        error: DownloadError::MissingContentLength,
                    };
                    FetchAction::Abort
                },
                Some(total) => {
                    self.state = FetchStep::Downloading { total, written: 0 };
                    FetchAction::SendGet
                },
            },
            (FetchStep::AwaitingHead, FetchEvent::HeadFailed { message }) => {
                self.state = FetchStep::Failed { error: DownloadError::Transport(message) };
                FetchAction::Abort
            },
            (FetchStep::Downloading { total, written }, FetchEvent::Chunk { len }) => {
                let new_written = if written <= u64::MAX - len {
                    written + len
                } else {
                    u64::MAX
                };
                self.state = FetchStep::Downloading { total, written: new_written };
                self.file_len = if self.file_len <= u64::MAX - len {
                    self.file_len + len
                } else {
                    u64::MAX
                };
                FetchAction::WriteChunk
            },
            (FetchStep::Downloading { total, written }, FetchEvent::StreamEnd) => {
                self.state = FetchStep::Done { written };
                FetchAction::Finish
            },
            (FetchStep::Downloading { total, written }, FetchEvent::TransportFailed { message }) => {
                self.state = FetchStep::Failed { error: DownloadError::Transport(message) };
                FetchAction::Abort
            },
            (other, _) => {
                self.state = other;
                FetchAction::Abort
            },
        }
    }

    /// The bytes this fetch has transferred so far, or in total once done.
    pub fn bytes_written(&self) -> (r: u64)
        ensures
            r == match self.state {
                FetchStep::Downloading { total, written } => written,
                FetchStep::Done { written } => written,
                _ => 0u64,
            },
    {
        match &self.state {
            FetchStep::Downloading { total: _, written } => *written,
            FetchStep::Done { written } => *written,
            _ => 0,
        }
    }
}

/// A downloader for one URL: where it goes and how it is routed.
pub struct Downloader<'a> {
    /// The URL to download.
    pub url: &'a str,
    /// The output: a directory to place the file in, or a file path; the
    /// current directory when absent.
    pub out: Option<&'a str>,
    /// An HTTP proxy URL to route through; no proxy — and no ambient proxy
    /// either — when absent.
    pub proxy: Option<&'a str>,
}

impl<'a> Downloader<'a> {
    /// Bundle a URL with its output location and proxy choice.
    pub fn new(url: &'a str, out: Option<&'a str>, proxy: Option<&'a str>) -> (r: Downloader<'a>)
        ensures
            r.url@ == url@,
            r.out == out,
            r.proxy == proxy,
    {
        Downloader { url, out, proxy }
    }

    /// The destination the fetch will append to, given whether `out` names
    /// a directory: `out` itself when it names a file, the URL's last path
    /// segment (or `tmp.bin` when the URL yields none) under the output
    /// directory otherwise.
    pub open spec fn dest_matches(&self, out_is_dir: bool, dest: Seq<char>) -> bool {
        match self.out {
            Some(output) => {
                if out_is_dir {
                    dest == join_path(output@, url_last_segment(self.url@)) || dest == join_path(
                        output@,
                        "tmp.bin"@,
                    )
                } else {
                    dest == output@
                }
            },
            None => dest == url_last_segment(self.url@) || dest == "tmp.bin"@,
        }
    }

    /// Resolve the destination path and start the fetch session for this
    /// download. `out_is_dir` says whether the configured output names an
    /// existing directory; `existing_file_len` is the destination file's
    /// current length, zero when absent.
    pub fn prepare(&self, out_is_dir: bool, existing_file_len: u64) -> (r: Result<
        FetchSession,
        DownloadError,
    >)
        ensures
            match r {
                Ok(s) => {
                    &&& s.url@ == self.url@
                    &&& s.state == FetchStep::AwaitingHead
                    &&& s.file_len == existing_file_len
                    &&& self.dest_matches(out_is_dir, s.dest@)
                    &&& match (self.proxy, s.proxy) {
                        (None, None) => true,
                        (Some(p), Some(sp)) => is_http_proxy(p@) && sp@ == p@,
                        _ => false,
                    }
                },
                Err(e) => {
                    &&& e == DownloadError::UnsupportedProxy
                    &&& (self.proxy matches Some(p) && !is_http_proxy(p@))
                },
            },
    {
        let segment = last_url_path_segment(self.url);
        let from_url: &str = match &segment {
            Some(s) => s.as_str(),
            None => "tmp.bin",
        };
        let dest: String = match self.out {
            Some(output) => {
                if out_is_dir {
                    join_dest(output, from_url)
                } else {
                    output.to_owned()
                }
            },
            None => from_url.to_owned(),
        };
        proof {
            if self.out is None || out_is_dir {
                if segment is None {
                    assert(from_url@ == "tmp.bin"@);
                }
            }
        }
        FetchSession::new(self.url, dest.as_str(), self.proxy, existing_file_len)
    }
}

} // verus!
