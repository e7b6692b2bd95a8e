//! Storage and retrieval of calibration records.
//!
//! A lookup is a sequence of reads, one download and one write that the caller
//! performs: it asks for the next action and hands back what came of it.

use vstd::prelude::*;
use crate::datetime;
use crate::datetime::{fmt_time, UtcTime};
use crate::paths;
use crate::paths::push_part;
use crate::text;
use crate::text::{chars_of, is_ascii_alphanumeric, join, push_nat, same_text, split};

verus! {

/// Schema version for the shared, top-level calibration record fields.
pub const CURRENT_CAL_SCHEMA_VERSION: u16 = 1;

/// Largest calibration record in bytes.
pub const MAX_CAL_JSON_BYTES: u64 = 5 * 1024 * 1024;

/// Time allowed for a download in seconds.
pub const CAL_QUERY_TIMEOUT_S: u64 = 5;

/// Basic information in all top-level calibration records.
#[derive(Debug)]
pub struct CalRecordCore {
    /// Schema version for these shared top-level fields.
    pub schema_version: u16,
    /// Peripheral implementation kind.
    pub peripheral_kind: String,
    /// Numeric peripheral model identifier.
    pub model_number: u64,
    /// Unit serial number.
    pub serial_number: u64,
    /// Calibration procedure identifier.
    pub procedure: String,
    /// Version of the calibration procedure that produced this record.
    pub procedure_version: u16,
    /// UTC timestamp when this record was generated.
    pub generated_at_utc: String,
    /// Records-folder references for calibrators used by the procedure.
    pub calibrators: Vec<String>,
}

impl CalRecordCore {
    /// Constructs a shared calibration record core with the current schema
    /// version and the given time of generation.
    pub fn new(
        peripheral_kind: String,
        model_number: u64,
        serial_number: u64,
        procedure: String,
        procedure_version: u16,
        calibrators: Vec<String>,
        generated_at: UtcTime,
    ) -> (r: Self)
        requires
            generated_at.valid(),
        ensures
            r.schema_version == CURRENT_CAL_SCHEMA_VERSION,
            r.peripheral_kind == peripheral_kind,
            r.model_number == model_number,
            r.serial_number == serial_number,
            r.procedure == procedure,
            r.procedure_version == procedure_version,
            r.generated_at_utc@ == datetime::rfc3339_nanos_text(
                generated_at.secs,
                generated_at.nanos,
            ),
            r.calibrators == calibrators,
    {
        CalRecordCore {
            schema_version: CURRENT_CAL_SCHEMA_VERSION,
            peripheral_kind,
            model_number,
            serial_number,
            procedure,
            procedure_version,
            generated_at_utc: fmt_time(generated_at),
            calibrators,
        }
    }
}

/// A character that a segment may hold.
pub open spec fn slug_char(c: char) -> bool {
    text::ascii_alphanumeric(c) || c == '_' || c == '-'
}

/// A segment holds accepted characters alone.
pub open spec fn plain_segment(s: Seq<char>) -> bool {
    forall|i: int| 0 <= i < s.len() ==> slug_char(#[trigger] s[i])
}

/// A segment that is empty, or names the current or the parent directory.
pub open spec fn ambiguous_segment(s: Seq<char>) -> bool {
    s.len() == 0 || s == "."@ || s == ".."@
}

/// Why a segment is not accepted.
pub open spec fn segment_fault(s: Seq<char>) -> Option<Seq<char>> {
    if ambiguous_segment(s) {
        Some("Calibration slug contains invalid segment `"@ + s + "`"@)
    } else if !plain_segment(s) {
        Some("Calibration slug segment `"@ + s + "` contains unsupported characters"@)
    } else {
        None
    }
}

/// Why a list of segments is not accepted: the fault of the first bad one.
pub open spec fn segments_fault(v: Seq<Seq<char>>, i: int) -> Option<Seq<char>>
    decreases v.len() - i,
{
    if i < 0 || i >= v.len() {
        None
    } else if segment_fault(v[i]) is Some {
        segment_fault(v[i])
    } else {
        segments_fault(v, i + 1)
    }
}

/// Why a slug is not accepted.
pub open spec fn slug_fault(slug: Seq<char>) -> Option<Seq<char>> {
    segments_fault(text::split_text(slug, '/'), 0)
}

fn is_plain(s: &str) -> (r: bool)
    ensures
        r == plain_segment(s@),
{
    let chars = chars_of(s);
    let mut i: usize = 0;
    while i < chars.len()
        invariant
            i <= chars@.len(),
            chars@ == s@,
            forall|k: int| 0 <= k < i ==> slug_char(#[trigger] s@[k]),
        decreases chars@.len() - i,
    {
        let c = chars[i];
        if !(is_ascii_alphanumeric(c) || c == '_' || c == '-') {
            assert(!slug_char(s@[i as int]));
            return false;
        }
        i = i + 1;
    }
    true
}

/// Validates and splits a calibration slug into safe relative path segments. The
/// same segments are used for local paths and for the path of the download.
pub fn validate_cal_slug(slug: &str) -> (r: Result<Vec<String>, String>)
    ensures
        match r {
            Ok(v) => slug_fault(slug@) is None && text::texts(v@) == text::split_text(slug@, '/'),
            Err(e) => slug_fault(slug@) == Some(e@),
        },
{
    let segments = split(slug, '/');
    let ghost all = text::split_text(slug@, '/');
    let mut i: usize = 0;
    while i < segments.len()
        invariant
            i <= segments@.len(),
            all == text::texts(segments@),
            slug_fault(slug@) == segments_fault(all, i as int),
        decreases segments@.len() - i,
    {
        let segment = segments[i].as_str();
        assert(all[i as int] == segment@);
        if segment.is_empty() || same_text(segment, ".") || same_text(segment, "..") {
            let mut e = "Calibration slug contains invalid segment `".to_owned();
            e.push_str(segment);
            e.push_str("`");
            return Err(e);
        }
        if !is_plain(segment) {
            let mut e = "Calibration slug segment `".to_owned();
            e.push_str(segment);
            e.push_str("` contains unsupported characters");
            return Err(e);
        }
        i = i + 1;
    }
    Ok(segments)
}

/// The directory of a slug in a store.
pub open spec fn slug_dir(root: Seq<char>, segments: Seq<Seq<char>>) -> Seq<char>
    decreases segments.len(),
{
    if segments.len() == 0 {
        root
    } else {
        paths::under(slug_dir(root, segments.drop_last()), segments.last())
    }
}

/// The path of the record of a slug in a store.
pub open spec fn record_path(root: Seq<char>, segments: Seq<Seq<char>>) -> Seq<char> {
    paths::under(slug_dir(root, segments), "cal.json"@)
}

fn cal_dir(root: &str, segments: &[String]) -> (s: String)
    ensures
        s@ == slug_dir(root@, text::texts(segments@)),
{
    let mut s = root.to_owned();
    let ghost all = text::texts(segments@);
    let mut i: usize = 0;
    assert(all.take(0) =~= Seq::<Seq<char>>::empty());
    while i < segments.len()
        invariant
            i <= segments@.len(),
            all == text::texts(segments@),
            s@ == slug_dir(root@, all.take(i as int)),
        decreases segments@.len() - i,
    {
        push_part(&mut s, segments[i].as_str());
        assert(all.take(i + 1).drop_last() =~= all.take(i as int));
        assert(all[i as int] == segments@[i as int]@);
        i = i + 1;
    }
    assert(all.take(segments@.len() as int) =~= all);
    s
}

/// The path of a record: `<root>/<slug>/cal.json`.
pub fn cal_path(root: &str, segments: &[String]) -> (s: String)
    ensures
        s@ == record_path(root@, text::texts(segments@)),
{
    let mut s = cal_dir(root, segments);
    push_part(&mut s, "cal.json");
    s
}

/// The user-local record cache of a home directory.
pub fn default_cal_store(home: &str) -> (s: String)
    ensures
        s@ == paths::under(home@, ".deimos/records"@),
{
    let mut s = home.to_owned();
    push_part(&mut s, ".deimos/records");
    s
}

/// The address of the record of a slug at the public endpoint.
pub open spec fn record_url(segments: Seq<Seq<char>>) -> Seq<char> {
    "https://deimoscontrols.com/records/"@ + text::joined(segments, "/"@) + "/cal.json"@
}

/// The address of the record of a slug at the public endpoint.
pub fn cal_url(segments: &[String]) -> (s: String)
    ensures
        s@ == record_url(text::texts(segments@)),
{
    let mut s = "https://deimoscontrols.com/records/".to_owned();
    s.push_str(join(segments, "/").as_str());
    s.push_str("/cal.json");
    s
}

/// Error of a download. Transport failures are separated from unusable responses,
/// so that an offline start can fall back to defaults.
#[derive(Debug)]
pub struct RemoteCalError {
    pub message: String,
    pub is_transport_failure: bool,
}

impl RemoteCalError {
    /// An error for name resolution, timeout, connection, or reading failures.
    pub fn transport(message: String) -> (r: Self)
        ensures
            r.message == message,
            r.is_transport_failure,
    {
        RemoteCalError { message, is_transport_failure: true }
    }

    /// An error for a response that was reached but unusable.
    pub fn unexpected(message: String) -> (r: Self)
        ensures
            r.message == message,
            !r.is_transport_failure,
    {
        RemoteCalError { message, is_transport_failure: false }
    }
}

/// What went wrong outside of a response, with the words of the client.
#[derive(Debug)]
pub enum FetchFailure {
    /// The client could not be made.
    Client(String),
    /// The request could not be sent or answered.
    Send(String),
    /// The body could not be read.
    Body(String),
}

/// The error of a failure outside of a response.
pub fn fetch_error(url: &str, failure: FetchFailure) -> (r: RemoteCalError)
    ensures
        r.is_transport_failure == !(failure is Client),
        r.message@ == match failure {
            FetchFailure::Client(e) => "Failed to build calibration HTTP client: "@ + e@,
            FetchFailure::Send(e) => "Failed to fetch calibration record from "@ + url@ + ": "@
                + e@,
            FetchFailure::Body(e) => "Failed to read calibration record from "@ + url@ + ": "@
                + e@,
        },
{
    match failure {
        FetchFailure::Client(e) => {
            let mut message = "Failed to build calibration HTTP client: ".to_owned();
            message.push_str(e.as_str());
            RemoteCalError::unexpected(message)
        },
        FetchFailure::Send(e) => {
            let mut message = "Failed to fetch calibration record from ".to_owned();
            message.push_str(url);
            message.push_str(": ");
            message.push_str(e.as_str());
            RemoteCalError::transport(message)
        },
        FetchFailure::Body(e) => {
            let mut message = "Failed to read calibration record from ".to_owned();
            message.push_str(url);
            message.push_str(": ");
            message.push_str(e.as_str());
            RemoteCalError::transport(message)
        },
    }
}

/// A status that says success.
pub open spec fn success(status: u16) -> bool {
    200 <= status < 300
}

/// Decides whether the body of a response is read: `false` where there is no
/// record. `status_text` is the status as it stands in errors.
pub fn check_response(
    url: &str,
    status: u16,
    status_text: &str,
    content_length: Option<u64>,
) -> (r: Result<bool, RemoteCalError>)
    ensures
        match r {
            Ok(false) => status == 404,
            Ok(true) => success(status) && (content_length matches Some(n) ==> n
                <= MAX_CAL_JSON_BYTES),
            Err(e) => {
                &&& !e.is_transport_failure
                &&& status != 404
                &&& if !success(status) {
                    e.message@ == "Failed to fetch calibration record from "@ + url@ + ": HTTP "@
                        + status_text@
                } else {
                    content_length matches Some(n) && n > MAX_CAL_JSON_BYTES && e.message@
                        == "Calibration record from "@ + url@ + " is too large: "@ + text::nat_text(
                        n as nat,
                    ) + " bytes"@
                }
            },
        },
{
    if status == 404 {
        return Ok(false);
    }
    if !(200 <= status && status < 300) {
        let mut message = "Failed to fetch calibration record from ".to_owned();
        message.push_str(url);
        message.push_str(": HTTP ");
        message.push_str(status_text);
        return Err(RemoteCalError::unexpected(message));
    }
    if let Some(n) = content_length {
        if n > MAX_CAL_JSON_BYTES {
            let mut message = "Calibration record from ".to_owned();
            message.push_str(url);
            message.push_str(" is too large: ");
            push_nat(&mut message, n as u128);
            message.push_str(" bytes");
            return Err(RemoteCalError::unexpected(message));
        }
    }
    Ok(true)
}

/// Accepts the body of a response: not too large, and text. `body` is the body
/// read as UTF-8, or why it is none.
pub fn check_body(url: &str, body_len: u64, body: Result<String, String>) -> (r: Result<
    String,
    RemoteCalError,
>)
    ensures
        match r {
            Ok(s) => body_len <= MAX_CAL_JSON_BYTES && body == Ok::<String, String>(s),
            Err(e) => {
                &&& !e.is_transport_failure
                &&& if body_len > MAX_CAL_JSON_BYTES {
                    e.message@ == "Calibration record from "@ + url@ + " exceeds "@
                        + text::nat_text(MAX_CAL_JSON_BYTES as nat) + " bytes"@
                } else {
                    body matches Err(why) && e.message@ == "Calibration record from "@ + url@
                        + " was not valid UTF-8: "@ + why@
                }
            },
        },
{
    if body_len > MAX_CAL_JSON_BYTES {
        let mut message = "Calibration record from ".to_owned();
        message.push_str(url);
        message.push_str(" exceeds ");
        push_nat(&mut message, MAX_CAL_JSON_BYTES as u128);
        message.push_str(" bytes");
        return Err(RemoteCalError::unexpected(message));
    }
    match body {
        Ok(s) => Ok(s),
        Err(why) => {
            let mut message = "Calibration record from ".to_owned();
            message.push_str(url);
            message.push_str(" was not valid UTF-8: ");
            message.push_str(why.as_str());
            Err(RemoteCalError::unexpected(message))
        },
    }
}

/// What a lookup needs done next, or its outcome.
#[derive(Debug)]
pub enum CalAction {
    /// Read the file at this path.
    Read { path: String },
    /// Download from this address, without following redirects.
    Fetch { url: String },
    /// Create this directory and write the record to this path.
    Write { parent: String, path: String, cals: String },
    /// The lookup has ended.
    Done(Result<Option<String>, String>),
}

/// What came of reading a file.
#[derive(Debug)]
pub enum LocalRead {
    Found(String),
    NotFound,
    Failed(String),
}

/// What came of creating the directory and writing the record.
#[derive(Debug)]
pub enum CacheWrite {
    Written,
    CreateFailed(String),
    WriteFailed(String),
}

/// A lookup that has started.
#[derive(Debug)]
pub struct CalQuery {
    /// The segments of the slug.
    pub segments: Vec<String>,
    /// The stores in the order in which they are searched.
    pub stores: Vec<String>,
    /// The store to search next.
    pub next: usize,
    /// The user-local cache, where there is a home directory.
    pub cache: Option<String>,
    pub offline_only: bool,
}

/// The stores of a lookup: the user-local cache first, then the given ones.
pub open spec fn search_order(home: Option<String>, sources: Seq<Seq<char>>) -> Seq<Seq<char>> {
    match home {
        Some(h) => seq![paths::under(h@, ".deimos/records"@)] + sources,
        None => sources,
    }
}

/// Starts a lookup of the calibration record for `slug`.
///
/// Lookup order is:
///
/// 1. The default local cache at `<home>/.deimos/records/<slug>/cal.json`.
/// 2. Each given local source at `<source>/<slug>/cal.json`.
/// 3. `https://deimoscontrols.com/records/<slug>/cal.json`, unless `offline_only`
///    is set.
///
/// A downloaded record is written into the default local cache before it is
/// returned.
pub fn query_cals(slug: &str, home: Option<String>, local_sources: &[String], offline_only: bool) -> (r:
    Result<CalQuery, String>)
    ensures
        match r {
            Err(e) => slug_fault(slug@) == Some(e@),
            Ok(q) => {
                &&& slug_fault(slug@) is None
                &&& q.looks_up(slug@, home, text::texts(local_sources@))
                &&& q.next == 0
                &&& q.offline_only == offline_only
            },
        },
{
    broadcast use text::lemma_texts_push;

    let segments = validate_cal_slug(slug)?;
    let mut stores: Vec<String> = Vec::new();
    let mut cache: Option<String> = None;
    if let Some(h) = &home {
        stores.push(default_cal_store(h.as_str()));
        cache = Some(default_cal_store(h.as_str()));
    }
    let ghost start = text::texts(stores@);
    let ghost sources = text::texts(local_sources@);
    let mut i: usize = 0;
    assert(start + sources.take(0) =~= start);
    while i < local_sources.len()
        invariant
            i <= local_sources@.len(),
            sources == text::texts(local_sources@),
            text::texts(stores@) == start + sources.take(i as int),
        decreases local_sources@.len() - i,
    {
        let ghost before = text::texts(stores@);
        stores.push(local_sources[i].as_str().to_owned());
        assert(text::texts(stores@) == before.push(sources[i as int]));
        assert(text::texts(stores@) =~= start + sources.take(i + 1));
        i = i + 1;
    }
    assert(sources.take(local_sources@.len() as int) =~= sources);
    assert(text::texts(stores@) =~= search_order(home, sources));
    Ok(CalQuery { segments, stores, next: 0, cache, offline_only })
}

impl CalQuery {
    /// Whether this is a lookup of a slug in the cache under the home directory, where
    /// there is one, and in the given stores.
    pub open spec fn looks_up(
        self,
        slug: Seq<char>,
        home: Option<String>,
        sources: Seq<Seq<char>>,
    ) -> bool {
        &&& self.slug() == text::split_text(slug, '/')
        &&& text::texts(self.stores@) == search_order(home, sources)
        &&& match home {
            Some(h) => self.cache matches Some(c) && c@ == paths::under(h@, ".deimos/records"@),
            None => self.cache is None,
        }
    }

    /// The segments of the slug, as texts.
    pub open spec fn slug(self) -> Seq<Seq<char>> {
        text::texts(self.segments@)
    }

    /// Everything but the position in the search is unchanged.
    pub open spec fn same_query(self, other: Self) -> bool {
        self.segments == other.segments && self.stores == other.stores && self.cache == other.cache
            && self.offline_only == other.offline_only
    }

    /// What to do next in the search: read from the next store, then download,
    /// unless the lookup is to stay offline.
    pub fn next_action(&self) -> (action: CalAction)
        ensures
            self.next < self.stores@.len() ==> (action matches CalAction::Read { path } && path@
                == record_path(self.stores@[self.next as int]@, self.slug())),
            self.next >= self.stores@.len() && self.offline_only ==> action == CalAction::Done(
                Ok(None),
            ),
            self.next >= self.stores@.len() && !self.offline_only ==> (
            action matches CalAction::Fetch { url } && url@ == record_url(self.slug())),
    {
        if self.next < self.stores.len() {
            CalAction::Read {
                path: cal_path(self.stores[self.next].as_str(), self.segments.as_slice()),
            }
        } else if self.offline_only {
            CalAction::Done(Ok(None))
        } else {
            CalAction::Fetch { url: cal_url(self.segments.as_slice()) }
        }
    }

    /// Takes what came of reading from the next store. A missing file is no
    /// error: the search goes on.
    pub fn read_done(&mut self, read: LocalRead) -> (action: Option<CalAction>)
        requires
            old(self).next < old(self).stores.len(),
        ensures
            final(self).same_query(*old(self)),
            match read {
                LocalRead::Found(cals) => action == Some(CalAction::Done(Ok(Some(cals))))
                    && final(self).next == old(self).next,
                LocalRead::NotFound => action is None && final(self).next == old(self).next + 1,
                LocalRead::Failed(e) => final(self).next == old(self).next && (action matches Some(
                    CalAction::Done(Err(message)),
                ) && message@ == "Failed to read "@ + record_path(
                    old(self).stores@[old(self).next as int]@,
                    old(self).slug(),
                ) + ": "@ + e@),
            },
    {
        match read {
            LocalRead::Found(cals) => Some(CalAction::Done(Ok(Some(cals)))),
            LocalRead::NotFound => {
                self.next = self.next + 1;
                None
            },
            LocalRead::Failed(e) => {
                let mut message = "Failed to read ".to_owned();
                message.push_str(
                    cal_path(self.stores[self.next].as_str(), self.segments.as_slice()).as_str(),
                );
                message.push_str(": ");
                message.push_str(e.as_str());
                Some(CalAction::Done(Err(message)))
            },
        }
    }

    /// Takes what came of the download. A missing record and a transport failure
    /// are misses; a record is written to the cache before it is returned.
    pub fn fetched(&self, result: Result<Option<String>, RemoteCalError>) -> (action: CalAction)
        ensures
            match result {
                Err(e) => if e.is_transport_failure {
                    action == CalAction::Done(Ok(None))
                } else {
                    action == CalAction::Done(Err(e.message))
                },
                Ok(None) => action == CalAction::Done(Ok(None)),
                Ok(Some(cals)) => match self.cache {
                    None => action matches CalAction::Done(Err(message)) && message@
                        == "Unable to determine home directory for calibration cache"@,
                    Some(root) => action matches CalAction::Write { parent, path, cals: kept }
                        && parent@ == slug_dir(root@, self.slug()) && path@ == record_path(
                        root@,
                        self.slug(),
                    ) && kept == cals,
                },
            },
    {
        match result {
            Err(e) => if e.is_transport_failure {
                CalAction::Done(Ok(None))
            } else {
                CalAction::Done(Err(e.message))
            },
            Ok(None) => CalAction::Done(Ok(None)),
            Ok(Some(cals)) => match &self.cache {
                None => CalAction::Done(
                    Err("Unable to determine home directory for calibration cache".to_owned()),
                ),
                Some(root) => CalAction::Write {
                    parent: cal_dir(root.as_str(), self.segments.as_slice()),
                    path: cal_path(root.as_str(), self.segments.as_slice()),
                    cals,
                },
            },
        }
    }
}

/// Takes what came of writing a record to the cache.
pub fn write_done(parent: &str, path: &str, cals: String, write: CacheWrite) -> (r: Result<
    Option<String>,
    String,
>)
    ensures
        match write {
            CacheWrite::Written => r == Ok::<Option<String>, String>(Some(cals)),
            CacheWrite::CreateFailed(e) => r matches Err(message) && message@
                == "Failed to create "@ + parent@ + ": "@ + e@,
            CacheWrite::WriteFailed(e) => r matches Err(message) && message@ == "Failed to write "@
                + path@ + ": "@ + e@,
        },
{
    match write {
        CacheWrite::Written => Ok(Some(cals)),
        CacheWrite::CreateFailed(e) => {
            let mut message = "Failed to create ".to_owned();
            message.push_str(parent);
            message.push_str(": ");
            message.push_str(e.as_str());
            Err(message)
        },
        CacheWrite::WriteFailed(e) => {
            let mut message = "Failed to write ".to_owned();
            message.push_str(path);
            message.push_str(": ");
            message.push_str(e.as_str());
            Err(message)
        },
    }
}

proof fn lemma_segments(v: Seq<Seq<char>>, i: int, k: int)
    requires
        segments_fault(v, i) is None,
        0 <= i <= k < v.len(),
    ensures
        segment_fault(v[k]) is None,
    decreases v.len() - i,
{
    if i < k {
        lemma_segments(v, i + 1, k);
    }
}

proof fn lemma_dir_stays_inside(root: Seq<char>, segments: Seq<Seq<char>>)
    requires
        forall|k: int| 0 <= k < segments.len() ==> segment_fault(#[trigger] segments[k]) is None,
    ensures
        text::starts_with(slug_dir(root, segments), root),
        slug_dir(root, segments).len() >= root.len(),
    decreases segments.len(),
{
    if segments.len() > 0 {
        let front = segments.drop_last();
        assert forall|k: int| 0 <= k < front.len() implies segment_fault(
            #[trigger] front[k],
        ) is None by {
            assert(front[k] == segments[k]);
        }
        lemma_dir_stays_inside(root, front);
        let dir = slug_dir(root, front);
        assert(slug_dir(root, segments).take(root.len() as int) =~= dir.take(root.len() as int));
    } else {
        assert(slug_dir(root, segments).take(root.len() as int) =~= root);
    }
}

/// A slug that is accepted cannot leave the store: no segment of it is empty,
/// names the current or the parent directory, or holds a separator, and the path
/// of its record starts with the store.
pub proof fn law_accepted_slug_stays_in_the_store(slug: Seq<char>, root: Seq<char>, k: int, i: int)
    requires
        slug_fault(slug) is None,
        0 <= k < text::split_text(slug, '/').len(),
        0 <= i < text::split_text(slug, '/')[k].len(),
    ensures
        !ambiguous_segment(text::split_text(slug, '/')[k]),
        slug_char(text::split_text(slug, '/')[k][i]),
        text::split_text(slug, '/')[k][i] != '/',
        text::split_text(slug, '/')[k][i] != '\\',
        text::split_text(slug, '/')[k][i] != '.',
        text::starts_with(record_path(root, text::split_text(slug, '/')), root),
{
    let v = text::split_text(slug, '/');
    lemma_segments(v, 0, k);
    assert(plain_segment(v[k]));
    assert(slug_char(v[k][i]));
    assert forall|j: int| 0 <= j < v.len() implies segment_fault(#[trigger] v[j]) is None by {
        lemma_segments(v, 0, j);
    }
    lemma_dir_stays_inside(root, v);
    let dir = slug_dir(root, v);
    assert(record_path(root, v).take(root.len() as int) =~= dir.take(root.len() as int));
}

/// A downloaded record is found at the next lookup of its slug, whatever other
/// stores are given: it is written to the path that the lookup reads first.
pub proof fn law_cached_record_is_read_first(
    fetching: CalQuery,
    later: CalQuery,
    slug: Seq<char>,
    home: String,
    sources: Seq<Seq<char>>,
    later_sources: Seq<Seq<char>>,
)
    requires
        fetching.looks_up(slug, Some(home), sources),
        later.looks_up(slug, Some(home), later_sources),
    ensures
        fetching.cache is Some,
        later.stores@.len() > 0,
        record_path(fetching.cache->0@, fetching.slug()) == record_path(
            later.stores@[0]@,
            later.slug(),
        ),
{
    assert(text::texts(later.stores@).len() == later.stores@.len());
    assert(search_order(Some(home), later_sources)[0] == later.stores@[0]@);
}

/// A slug is accepted exactly where each of its segments has a character and only
/// letters, digits, underscores and hyphens.
pub proof fn law_plain_slugs_are_accepted(slug: Seq<char>)
    ensures
        slug_fault(slug) is None <==> forall|k: int|
            0 <= k < text::split_text(slug, '/').len() ==> (#[trigger] text::split_text(
                slug,
                '/',
            )[k]).len() > 0 && plain_segment(text::split_text(slug, '/')[k]),
{
    let v = text::split_text(slug, '/');
    lemma_segments_fault(v, 0);
    reveal_strlit(".");
    reveal_strlit("..");
    assert forall|k: int| 0 <= k < v.len() implies (segment_fault(#[trigger] v[k]) is None <==> v[k].len()
        > 0 && plain_segment(v[k])) by {
        if plain_segment(v[k]) && v[k].len() > 0 {
            assert(slug_char(v[k][0]));
            assert("."@[0] == '.' && ".."@[0] == '.');
        }
    }
    if slug_fault(slug) is None {
        assert forall|k: int| 0 <= k < v.len() implies (#[trigger] v[k]).len() > 0
            && plain_segment(v[k]) by {
            assert(segment_fault(v[k]) is None);
        }
    }
}

proof fn lemma_segments_fault(v: Seq<Seq<char>>, i: int)
    requires
        0 <= i <= v.len(),
    ensures
        segments_fault(v, i) is None <==> forall|k: int|
            i <= k < v.len() ==> segment_fault(#[trigger] v[k]) is None,
    decreases v.len() - i,
{
    if i < v.len() {
        lemma_segments_fault(v, i + 1);
    }
}

/// The record of a slug has the same place in a store as on the server: behind the
/// root stand the segments of the slug and the name of the record, with slashes
/// between them.
pub proof fn law_records_have_one_place(root: Seq<char>, segments: Seq<Seq<char>>)
    requires
        root.len() > 0,
        root.last() != '/',
        segments.len() > 0,
        forall|k: int|
            0 <= k < segments.len() ==> (#[trigger] segments[k]).len() > 0 && plain_segment(
                segments[k],
            ),
    ensures
        record_path(root, segments) == root + "/"@ + text::joined(segments, "/"@) + "/cal.json"@,
        record_url(segments) == "https://deimoscontrols.com/records/"@ + text::joined(
            segments,
            "/"@,
        ) + "/cal.json"@,
{
    lemma_slug_dir(root, segments);
    reveal_strlit("/");
    reveal_strlit("cal.json");
    reveal_strlit("/cal.json");
    assert("/"@ + "cal.json"@ =~= "/cal.json"@);
    let dir = slug_dir(root, segments);
    assert(record_path(root, segments) =~= dir + ("/"@ + "cal.json"@));
}

proof fn lemma_slug_dir(root: Seq<char>, segments: Seq<Seq<char>>)
    requires
        root.len() > 0,
        root.last() != '/',
        segments.len() > 0,
        forall|k: int|
            0 <= k < segments.len() ==> (#[trigger] segments[k]).len() > 0 && plain_segment(
                segments[k],
            ),
    ensures
        slug_dir(root, segments) == root + "/"@ + text::joined(segments, "/"@),
        slug_dir(root, segments).len() > 0,
        slug_dir(root, segments).last() != '/',
    decreases segments.len(),
{
    let front = segments.drop_last();
    let last = segments.last();
    assert(segments[segments.len() - 1].len() > 0 && plain_segment(last));
    assert(slug_char(last[last.len() - 1]));
    if front.len() == 0 {
        assert(slug_dir(root, front) == root);
        assert(text::joined(segments, "/"@) == segments[0]);
    } else {
        assert forall|k: int| 0 <= k < front.len() implies (#[trigger] front[k]).len() > 0
            && plain_segment(front[k]) by {
            assert(front[k] == segments[k]);
        }
        lemma_slug_dir(root, front);
        assert(slug_dir(root, segments) =~= root + "/"@ + text::joined(segments, "/"@));
    }
    assert(slug_dir(root, segments).last() == last.last());
}

/// A reply is good exactly where its status is of the two hundreds.
pub proof fn law_good_statuses_are_of_the_two_hundreds(status: u16)
    ensures
        success(status) <==> status / 100 == 2,
{
}

} // verus!
