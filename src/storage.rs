use vstd::prelude::*;
use vstd::string::*;

verus! {

/// File size, in bytes, above which an upload is split into parts.
pub const MULTIPART_UPLOAD_SIZE: u64 = 104857600;

/// Size, in bytes, of each part of a multipart upload.
pub const MULTIPART_CHUNK_SIZE: usize = 52428800;

/// Object that marks a stream directory as a stream.
pub const STREAM_METADATA_FILE_NAME: &'static str = ".stream.json";

/// Object at the root of the bucket whose presence shows the store is live.
pub const PARSEABLE_METADATA_FILE_NAME: &'static str = ".parseable.json";

/// Errors of every storage operation.
#[derive(Clone, Debug, PartialEq, Eq)]
pub enum ObjectStorageError {
    NoSuchKey(String),
    ConnectionError(String),
    UnhandledError(String),
}

/// A failure of the object store, by kind: an absent object with its path,
/// a generic failure, or any other, each with its message.
#[derive(Clone, Debug, PartialEq, Eq)]
pub enum StoreFailure {
    NotFound(String),
    Generic(String),
    Other(String),
}

/// How a failure of the object store is classified.
pub open spec fn classified(f: StoreFailure) -> ObjectStorageError {
    match f {
        StoreFailure::NotFound(path) => ObjectStorageError::NoSuchKey(path),
        StoreFailure::Generic(msg) => ObjectStorageError::UnhandledError(msg),
        StoreFailure::Other(msg) => ObjectStorageError::UnhandledError(msg),
    }
}

/// How a failure of the object store during a transfer (a get of an object
/// and its body) is classified: a request the store could not serve is a
/// connection failure.
pub open spec fn transfer_classified(f: StoreFailure) -> ObjectStorageError {
    match f {
        StoreFailure::NotFound(path) => ObjectStorageError::NoSuchKey(path),
        StoreFailure::Generic(msg) => ObjectStorageError::ConnectionError(msg),
        StoreFailure::Other(msg) => ObjectStorageError::UnhandledError(msg),
    }
}

/// Kind and message of an error of the object store.
pub uninterp spec fn failure_of(e: object_store::Error) -> StoreFailure;

impl ObjectStorageError {
    pub fn from_failure(f: StoreFailure) -> (r: ObjectStorageError)
        ensures
            r == classified(f),
    {
        match f {
            StoreFailure::NotFound(path) => ObjectStorageError::NoSuchKey(path),
            StoreFailure::Generic(msg) => ObjectStorageError::UnhandledError(msg),
            StoreFailure::Other(msg) => ObjectStorageError::UnhandledError(msg),
        }
    }

    pub fn from_transfer_failure(f: StoreFailure) -> (r: ObjectStorageError)
        ensures
            r == transfer_classified(f),
    {
        match f {
            StoreFailure::NotFound(path) => ObjectStorageError::NoSuchKey(path),
            StoreFailure::Generic(msg) => ObjectStorageError::ConnectionError(msg),
            StoreFailure::Other(msg) => ObjectStorageError::UnhandledError(msg),
        }
    }

    /// Classifies an error of the object store.
    pub fn from_store_error(error: &object_store::Error) -> (r: ObjectStorageError)
        ensures
            r == classified(failure_of(*error)),
    {
        ObjectStorageError::from_failure(store_failure_of(error))
    }

    /// Classifies an error of the object store met while getting an object.
    pub fn from_transfer_error(error: &object_store::Error) -> (r: ObjectStorageError)
        ensures
            r == transfer_classified(failure_of(*error)),
    {
        ObjectStorageError::from_transfer_failure(store_failure_of(error))
    }
}

#[verifier::external_type_specification]
#[verifier::external_body]
pub struct ExStoreError(object_store::Error);

/// Relies on the variants of object_store's `Error`: `NotFound` carries the
/// missing path, `Generic` (how S3 request failures are reported) a source
/// error; each message is that value's `Display`.
#[verifier::external_body]
fn store_failure_of(error: &object_store::Error) -> (r: StoreFailure)
    ensures
        r == failure_of(*error),
{
    match error {
        object_store::Error::NotFound { path, .. } => StoreFailure::NotFound(path.clone()),
        object_store::Error::Generic { source, .. } => StoreFailure::Generic(source.to_string()),
        other => StoreFailure::Other(other.to_string()),
    }
}

pub fn should_multipart(len: u64) -> (r: bool)
    ensures
        r == (len > MULTIPART_UPLOAD_SIZE),
{
    len > MULTIPART_UPLOAD_SIZE
}

pub open spec fn views(v: Seq<String>) -> Seq<Seq<char>> {
    v.map_values(|s: String| s@)
}

/// `Some` of what follows `prefix` in `s` where `s` starts with `prefix`.
pub fn strip_prefix(s: &str, prefix: &str) -> (r: Option<String>)
    ensures
        r is Some <==> prefix@.is_prefix_of(s@),
        r matches Some(t) ==> t@ == s@.skip(prefix@.len() as int),
{
    let n = s.unicode_len();
    let m = prefix.unicode_len();
    if m > n {
        return None;
    }
    let mut i: usize = 0;
    while i < m
        invariant
            n == s@.len(),
            m == prefix@.len(),
            m <= n,
            i <= m,
            forall|j: int| 0 <= j < i ==> s@[j] == prefix@[j],
        decreases m - i,
    {
        if s.get_char(i) != prefix.get_char(i) {
            return None;
        }
        i = i + 1;
    }
    assert(prefix@ =~= s@.take(m as int));
    Some(String::from_str(s.substring_char(m, n)))
}

/// The first segment of a path: `s` up to its first `/`.
pub open spec fn segment_of(s: Seq<char>) -> Seq<char>
    decreases s.len(),
{
    if s.len() == 0 || s[0] == '/' {
        Seq::empty()
    } else {
        seq![s[0]] + segment_of(s.drop_first())
    }
}

pub fn first_segment(s: &str) -> (r: String)
    ensures
        r@ == segment_of(s@),
{
    let n = s.unicode_len();
    let mut i: usize = 0;
    proof {
        assert(s@.skip(0) =~= s@);
        assert(s@.take(0) =~= Seq::<char>::empty());
    }
    while i < n && s.get_char(i) != '/'
        invariant
            n == s@.len(),
            i <= n,
            segment_of(s@) == s@.take(i as int) + segment_of(s@.skip(i as int)),
        decreases n - i,
    {
        proof {
            assert(s@.skip(i as int).drop_first() =~= s@.skip(i + 1));
            assert(s@.take(i + 1) =~= s@.take(i as int) + seq![s@[i as int]]);
        }
        i = i + 1;
    }
    let r = String::from_str(s.substring_char(0, i));
    proof {
        assert(segment_of(s@.skip(i as int)) =~= Seq::<char>::empty());
        assert(s@.take(i as int) + Seq::<char>::empty() =~= s@.take(i as int));
    }
    assert(r@ =~= s@.take(i as int));
    r
}

/// Stream names of the root-level prefixes: the first segment of each
/// non-empty prefix, in order.
pub open spec fn stream_dirs_of(ps: Seq<Seq<char>>) -> Seq<Seq<char>>
    decreases ps.len(),
{
    if ps.len() == 0 {
        Seq::empty()
    } else {
        let rest = stream_dirs_of(ps.drop_last());
        if ps.last().len() == 0 {
            rest
        } else {
            rest.push(segment_of(ps.last()))
        }
    }
}

/// Stream directories named by the root-level prefixes of a listing.
pub fn stream_dirs(prefixes: &Vec<String>) -> (r: Vec<String>)
    ensures
        views(r@) == stream_dirs_of(views(prefixes@)),
{
    let mut out: Vec<String> = Vec::new();
    let mut i: usize = 0;
    while i < prefixes.len()
        invariant
            i <= prefixes.len(),
            views(out@) == stream_dirs_of(views(prefixes@).take(i as int)),
        decreases prefixes.len() - i,
    {
        let p = prefixes[i].as_str();
        proof {
            assert(views(prefixes@).take(i + 1).drop_last() =~= views(prefixes@).take(i as int));
            assert(views(prefixes@).take(i + 1).last() == p@);
        }
        if p.unicode_len() > 0 {
            let seg = first_segment(p);
            out.push(seg);
            proof {
                assert(views(out@) =~= stream_dirs_of(views(prefixes@).take(i as int)).push(seg@));
            }
        }
        i = i + 1;
    }
    assert(views(prefixes@).take(prefixes.len() as int) =~= views(prefixes@));
    out
}


/// Outcome of probing a candidate stream for its metadata object.
#[derive(Clone, Debug, PartialEq, Eq)]
pub enum Probe {
    Present,
    Absent,
    Failed(ObjectStorageError),
}

/// Reads the outcome of an existence check: an absent object is a negative
/// answer, any other error leaves the answer unknown.
pub fn probe_of(outcome: Result<(), ObjectStorageError>) -> (r: Probe)
    ensures
        outcome is Ok ==> r == Probe::Present,
        outcome matches Err(e) ==> match e {
            ObjectStorageError::NoSuchKey(_) => r == Probe::Absent,
            _ => r == Probe::Failed(e),
        },
{
    match outcome {
        Ok(()) => Probe::Present,
        Err(ObjectStorageError::NoSuchKey(_)) => Probe::Absent,
        Err(e) => Probe::Failed(e),
    }
}

/// Candidates whose probe found the metadata object, in order.
pub open spec fn present_of(dirs: Seq<Seq<char>>, probes: Seq<Probe>) -> Seq<Seq<char>>
    decreases dirs.len(),
{
    if dirs.len() == 0 || probes.len() == 0 {
        Seq::empty()
    } else {
        let rest = present_of(dirs.drop_last(), probes.drop_last());
        if probes.last() is Present {
            rest.push(dirs.last())
        } else {
            rest
        }
    }
}

/// Keeps the candidate streams whose metadata object is present. A probe
/// that could not tell fails the whole listing with the first such error.
pub fn select_streams(dirs: &Vec<String>, probes: Vec<Probe>) -> (r: Result<
    Vec<String>,
    ObjectStorageError,
>)
    requires
        dirs.len() == probes.len(),
    ensures
        r is Err <==> exists|i: int| 0 <= i < probes.len() && probes@[i] is Failed,
        r matches Ok(v) ==> views(v@) == present_of(views(dirs@), probes@),
        r matches Err(e) ==> exists|i: int|
            0 <= i < probes.len() && probes@[i] == Probe::Failed(e) && forall|j: int|
                0 <= j < i ==> !(probes@[j] is Failed),
{
    let ghost all = probes@;
    let mut out: Vec<String> = Vec::new();
    let mut i: usize = 0;
    while i < dirs.len()
        invariant
            dirs.len() == probes.len(),
            probes@ == all,
            i <= dirs.len(),
            forall|j: int| 0 <= j < i ==> !(probes@[j] is Failed),
            views(out@) == present_of(views(dirs@).take(i as int), probes@.take(i as int)),
        decreases dirs.len() - i,
    {
        proof {
            assert(views(dirs@).take(i + 1).drop_last() =~= views(dirs@).take(i as int));
            assert(probes@.take(i + 1).drop_last() =~= probes@.take(i as int));
        }
        match &probes[i] {
            Probe::Present => {
                out.push(dirs[i].clone());
                proof {
                    assert(views(out@) =~= present_of(views(dirs@).take(i as int), probes@.take(i as int)).push(dirs@[i as int]@));
                }
            },
            Probe::Absent => {},
            Probe::Failed(_) => {
                let mut probes = probes;
                let p = probes.remove(i);
                match p {
                    Probe::Failed(e) => {
                        return Err(e);
                    },
                    _ => {
                        return Err(ObjectStorageError::UnhandledError(String::new()));
                    },
                }
            },
        }
        i = i + 1;
    }
    proof {
        assert(views(dirs@).take(dirs.len() as int) =~= views(dirs@));
        assert(probes@.take(dirs.len() as int) =~= probes@);
    }
    Ok(out)
}

/// Date partitions of `stream`: each prefix under `stream/`, with that part
/// removed; other prefixes are left out.
pub open spec fn dates_of(stream: Seq<char>, ps: Seq<Seq<char>>) -> Seq<Seq<char>>
    decreases ps.len(),
{
    if ps.len() == 0 {
        Seq::empty()
    } else {
        let rest = dates_of(stream, ps.drop_last());
        let head = stream + seq!['/'];
        if head.is_prefix_of(ps.last()) {
            rest.push(ps.last().skip(head.len() as int))
        } else {
            rest
        }
    }
}

/// Date identifiers named by the prefixes listed under a stream.
pub fn dates_from_prefixes(stream: &str, prefixes: &Vec<String>) -> (r: Vec<String>)
    ensures
        views(r@) == dates_of(stream@, views(prefixes@)),
{
    let head = String::from_str(stream).concat("/");
    proof {
        reveal_strlit("/");
        assert(head@ =~= stream@ + seq!['/']);
    }
    let mut out: Vec<String> = Vec::new();
    let mut i: usize = 0;
    while i < prefixes.len()
        invariant
            head@ == stream@ + seq!['/'],
            i <= prefixes.len(),
            views(out@) == dates_of(stream@, views(prefixes@).take(i as int)),
        decreases prefixes.len() - i,
    {
        proof {
            assert(views(prefixes@).take(i + 1).drop_last() =~= views(prefixes@).take(i as int));
        }
        match strip_prefix(prefixes[i].as_str(), head.as_str()) {
            Some(date) => {
                out.push(date);
                proof {
                    assert(views(out@) =~= dates_of(stream@, views(prefixes@).take(i as int)).push(
                        prefixes@[i as int]@.skip(head@.len() as int),
                    ));
                }
            },
            None => {},
        }
        i = i + 1;
    }
    assert(views(prefixes@).take(prefixes.len() as int) =~= views(prefixes@));
    out
}

/// Address of a prefix of the bucket, in the form the query engine reads.
pub open spec fn table_url(bucket: Seq<char>, prefix: Seq<char>) -> Seq<char> {
    "s3://"@ + bucket + "/"@ + prefix
}

/// Addresses of the prefixes a table is built over; `None` where there are
/// no prefixes and so no table.
pub fn table_urls(bucket: &str, prefixes: &Vec<String>) -> (r: Option<Vec<String>>)
    ensures
        r is None <==> prefixes.len() == 0,
        r matches Some(v) ==> v.len() == prefixes.len() && forall|i: int|
            0 <= i < v.len() ==> v@[i]@ == table_url(bucket@, prefixes@[i]@),
{
    if prefixes.len() == 0 {
        return None;
    }
    let base = String::from_str("s3://").concat(bucket).concat("/");
    let mut out: Vec<String> = Vec::new();
    let mut i: usize = 0;
    while i < prefixes.len()
        invariant
            base@ == "s3://"@ + bucket@ + "/"@,
            i <= prefixes.len(),
            out.len() == i,
            forall|j: int| 0 <= j < i ==> out@[j]@ == table_url(bucket@, prefixes@[j]@),
        decreases prefixes.len() - i,
    {
        let url = base.clone().concat(prefixes[i].as_str());
        out.push(url);
        i = i + 1;
    }
    Some(out)
}

/// Extension of the files a table is scanned over.
pub const PARQUET_FILE_EXTENSION: &'static str = ".parquet";

/// How the query engine is to scan the files under a set of prefixes: one
/// flat listing of Parquet files, pruned by their statistics, with no
/// partition columns read from the paths.
#[derive(Clone, Debug, PartialEq, Eq)]
pub struct TableOptions {
    pub paths: Vec<String>,
    pub file_extension: String,
    pub enable_pruning: bool,
    pub collect_stat: bool,
    pub target_partitions: usize,
    pub partition_cols: Vec<String>,
    pub infinite_source: bool,
}

/// Options of the table over the prefixes of the bucket; `None` where there
/// are no prefixes and so no table.
pub fn query_table_options(bucket: &str, prefixes: &Vec<String>) -> (r: Option<TableOptions>)
    ensures
        r is None <==> prefixes.len() == 0,
        r matches Some(t) ==> {
            &&& t.paths.len() == prefixes.len()
            &&& forall|i: int|
                0 <= i < t.paths.len() ==> t.paths@[i]@ == table_url(bucket@, prefixes@[i]@)
            &&& t.file_extension@ == PARQUET_FILE_EXTENSION@
            &&& t.enable_pruning
            &&& t.collect_stat
            &&& t.target_partitions == 1
            &&& t.partition_cols.len() == 0
            &&& !t.infinite_source
        },
{
    match table_urls(bucket, prefixes) {
        None => None,
        Some(paths) => Some(
            TableOptions {
                paths,
                file_extension: String::from_str(PARQUET_FILE_EXTENSION),
                enable_pruning: true,
                collect_stat: true,
                target_partitions: 1,
                partition_cols: Vec::new(),
                infinite_source: false,
            },
        ),
    }
}

/// Count of deletions that failed.
pub open spec fn failures_of(outcomes: Seq<bool>) -> nat
    decreases outcomes.len(),
{
    if outcomes.len() == 0 {
        0
    } else {
        failures_of(outcomes.drop_last()) + if outcomes.last() { 0nat } else { 1nat }
    }
}

/// How a best-effort deletion of a prefix went, object by object.
#[derive(Clone, Debug, PartialEq, Eq)]
pub struct DeleteReport {
    pub attempted: usize,
    pub failed: usize,
}

/// Tallies the outcomes (`true` for a deleted object) of the deletions a
/// prefix deletion issued; none of them fails the operation.
pub fn tally_deletes(outcomes: &Vec<bool>) -> (r: DeleteReport)
    ensures
        r.attempted == outcomes.len(),
        r.failed == failures_of(outcomes@),
{
    let mut failed: usize = 0;
    let mut i: usize = 0;
    while i < outcomes.len()
        invariant
            i <= outcomes.len(),
            failed == failures_of(outcomes@.take(i as int)),
            failed <= i,
        decreases outcomes.len() - i,
    {
        proof {
            assert(outcomes@.take(i + 1).drop_last() =~= outcomes@.take(i as int));
        }
        if !outcomes[i] {
            failed = failed + 1;
        }
        i = i + 1;
    }
    assert(outcomes@.take(outcomes.len() as int) =~= outcomes@);
    DeleteReport { attempted: outcomes.len(), failed }
}


/// Key of the metadata object of a stream directory.
pub fn stream_metadata_key(dir: &str) -> (r: String)
    ensures
        r@ == dir@ + "/"@ + STREAM_METADATA_FILE_NAME@,
{
    String::from_str(dir).concat("/").concat(STREAM_METADATA_FILE_NAME)
}

/// Where a multipart upload stands.
#[derive(Clone, Copy, Debug, PartialEq, Eq, Structural)]
pub enum UploadState {
    /// The next chunk is to be read from the local file.
    Reading,
    /// A chunk of this many bytes is being written to the session.
    Writing(usize),
    /// The chunk written is being flushed.
    Flushing,
    /// The session is being cancelled after a failure.
    Aborting,
    /// The whole file was sent and the session is being closed.
    Closing,
    /// The object is complete.
    Succeeded,
    /// The upload failed; no object was committed.
    Failed,
}

/// What happened to the step last asked for.
#[derive(Clone, Copy, Debug, PartialEq, Eq, Structural)]
pub enum UploadEvent {
    Read(usize),
    ReadFailed,
    Written,
    WriteFailed,
    Flushed,
    FlushFailed,
    AbortDone,
    Closed,
    CloseFailed,
}

/// The step to perform next.
#[derive(Clone, Copy, Debug, PartialEq, Eq, Structural)]
pub enum UploadAction {
    ReadChunk,
    WriteChunk(usize),
    Flush,
    Abort,
    Shutdown,
    ReportSuccess,
    ReportFailure,
}

/// Transitions of a multipart upload: chunks are read, written and flushed
/// one after the other; the end of the file closes the session; any failure
/// while sending cancels it, and nothing after a failure commits.
pub open spec fn upload_next(s: UploadState, e: UploadEvent) -> (UploadState, UploadAction) {
    match (s, e) {
        (UploadState::Reading, UploadEvent::Read(n)) => if n == 0 {
            (UploadState::Closing, UploadAction::Shutdown)
        } else {
            (UploadState::Writing(n), UploadAction::WriteChunk(n))
        },
        (UploadState::Writing(_), UploadEvent::Written) => (UploadState::Flushing, UploadAction::Flush),
        (UploadState::Flushing, UploadEvent::Flushed) => (UploadState::Reading, UploadAction::ReadChunk),
        (UploadState::Closing, UploadEvent::Closed) => (UploadState::Succeeded, UploadAction::ReportSuccess),
        (UploadState::Closing, UploadEvent::CloseFailed) => (UploadState::Failed, UploadAction::ReportFailure),
        (UploadState::Aborting, _) => (UploadState::Failed, UploadAction::ReportFailure),
        (UploadState::Succeeded, _) => (UploadState::Succeeded, UploadAction::ReportSuccess),
        (UploadState::Failed, _) => (UploadState::Failed, UploadAction::ReportFailure),
        _ => (UploadState::Aborting, UploadAction::Abort),
    }
}

/// Decides the next step of a multipart upload from its state and the
/// outcome of the step before.
pub fn upload_step(state: &mut UploadState, event: UploadEvent) -> (r: UploadAction)
    ensures
        (*final(state), r) == upload_next(*old(state), event),
{
    let (next, action) = match (*state, event) {
        (UploadState::Reading, UploadEvent::Read(n)) => if n == 0 {
            (UploadState::Closing, UploadAction::Shutdown)
        } else {
            (UploadState::Writing(n), UploadAction::WriteChunk(n))
        },
        (UploadState::Writing(_), UploadEvent::Written) => (UploadState::Flushing, UploadAction::Flush),
        (UploadState::Flushing, UploadEvent::Flushed) => (UploadState::Reading, UploadAction::ReadChunk),
        (UploadState::Closing, UploadEvent::Closed) => (UploadState::Succeeded, UploadAction::ReportSuccess),
        (UploadState::Closing, UploadEvent::CloseFailed) => (UploadState::Failed, UploadAction::ReportFailure),
        (UploadState::Aborting, _) => (UploadState::Failed, UploadAction::ReportFailure),
        (UploadState::Succeeded, _) => (UploadState::Succeeded, UploadAction::ReportSuccess),
        (UploadState::Failed, _) => (UploadState::Failed, UploadAction::ReportFailure),
        _ => (UploadState::Aborting, UploadAction::Abort),
    };
    *state = next;
    action
}

/// A failed read, write or flush cancels the session.
pub proof fn lemma_send_failure_aborts(s: UploadState, e: UploadEvent)
    requires
        s is Reading || s is Writing || s is Flushing,
        e is ReadFailed || e is WriteFailed || e is FlushFailed,
    ensures
        upload_next(s, e) == (UploadState::Aborting, UploadAction::Abort),
{
}

/// Once cancelled, an upload stays cancelled whatever happens next, and
/// never closes its session nor reports success.
pub proof fn lemma_abort_never_commits(s: UploadState, events: Seq<UploadEvent>)
    requires
        s is Aborting || s is Failed,
    ensures
        upload_run(s, events) is Aborting || upload_run(s, events) is Failed,
        forall|e: UploadEvent|
            #![trigger upload_next(upload_run(s, events), e)]
            upload_next(upload_run(s, events), e).1 != UploadAction::Shutdown
                && upload_next(upload_run(s, events), e).1 != UploadAction::ReportSuccess,
    decreases events.len(),
{
    if events.len() > 0 {
        lemma_abort_never_commits(s, events.drop_last());
    }
}

/// State reached from `s` after the events, in order.
pub open spec fn upload_run(s: UploadState, events: Seq<UploadEvent>) -> UploadState
    decreases events.len(),
{
    if events.len() == 0 {
        s
    } else {
        upload_next(upload_run(s, events.drop_last()), events.last()).0
    }
}

} // verus!
