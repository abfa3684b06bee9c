//! The licensed dataset downloads.

use vstd::prelude::*;

use crate::client::Client;
use crate::error::{Error, ErrorView, IoFailure};
use crate::retry::{base_delay, Retry};
use crate::text::{concat, decimal, decimal_text};
use crate::transport::{file_request, pair_texts, read_request, Request, Sent};

verus! {

/// The format of a dataset file.
#[derive(Clone, Copy, Debug, PartialEq, Eq, Hash, Structural)]
pub enum Format {
    Csvgz,
    Mmdb,
}

impl Format {
    /// How a format is spelled on the wire.
    pub open spec fn spelling(self) -> Seq<char> {
        match self {
            Format::Csvgz => "csvgz"@,
            Format::Mmdb => "mmdb"@,
        }
    }

    pub fn as_str(self) -> (s: &'static str)
        ensures
            s@ == self.spelling(),
    {
        match self {
            Format::Csvgz => "csvgz",
            Format::Mmdb => "mmdb",
        }
    }
}

/// The licensed dataset downloads, which need a key that carries the
/// `db.download` scope.
#[derive(Clone, Copy, Debug)]
pub struct Database<'a> {
    pub client: &'a Client,
}

pub open spec fn id_query(id: Seq<char>) -> Seq<(Seq<char>, Seq<char>)> {
    seq![("id"@, id)]
}

pub open spec fn file_query(id: Seq<char>, format: Format) -> Seq<(Seq<char>, Seq<char>)> {
    seq![("id"@, id), ("format"@, format.spelling())]
}

pub open spec fn limit_query(limit: Option<u32>) -> Seq<(Seq<char>, Seq<char>)> {
    match limit {
        Some(n) => seq![("limit"@, decimal_text(n as nat))],
        None => Seq::empty(),
    }
}

fn file_pairs(id: &str, format: Format) -> (r: Vec<(String, String)>)
    ensures
        pair_texts(r@) == file_query(id@, format),
{
    let mut query: Vec<(String, String)> = Vec::new();
    query.push(("id".to_owned(), id.to_owned()));
    query.push(("format".to_owned(), format.as_str().to_owned()));
    assert(pair_texts(query@) =~= file_query(id@, format));
    query
}

impl<'a> Database<'a> {
    /// A read of the API under the client's own timeout.
    pub open spec fn read(self, path: Seq<char>, query: Seq<(Seq<char>, Seq<char>)>) -> Sent {
        read_request(self.client@.base_url, self.client@.api_key, path, query, self.client.timeout)
    }

    pub fn new(client: &'a Client) -> (r: Self)
        ensures
            r.client == client,
    {
        Database { client }
    }

    fn get(&self, path: &str, query: Vec<(String, String)>) -> (r: Request)
        ensures
            r@ == self.read(path@, pair_texts(query@)),
    {
        self.client.transport.get_json(path, query, self.client.timeout)
    }

    /// The attempts a call may take: the client's own.
    pub fn retry(&self) -> (r: Retry)
        ensures
            r.remaining == self.client.retries,
            r.delay@ == base_delay(),
    {
        Retry::new(self.client.retries)
    }

    /// Asks for the dataset families the organization is licensed to download.
    pub fn list(&self) -> (r: Request)
        ensures
            r@ == self.read("/api/v1/database/list"@, Seq::empty()),
    {
        let query: Vec<(String, String)> = Vec::new();
        assert(pair_texts(query@) =~= Seq::empty());
        self.get("/api/v1/database/list", query)
    }

    /// Asks what is inside one dataset.
    pub fn metadata(&self, id: &str) -> (r: Request)
        ensures
            r@ == self.read("/api/v1/database/metadata"@, id_query(id@)),
    {
        let mut query: Vec<(String, String)> = Vec::new();
        query.push(("id".to_owned(), id.to_owned()));
        assert(pair_texts(query@) =~= id_query(id@));
        self.get("/api/v1/database/metadata", query)
    }

    /// Asks for the digests of one published file.
    pub fn checksums(&self, id: &str, format: Format) -> (r: Request)
        ensures
            r@ == self.read("/api/v1/database/checksum"@, file_query(id@, format)),
    {
        self.get("/api/v1/database/checksum", file_pairs(id, format))
    }

    /// Asks for the organization's recent download attempts. Without a limit the
    /// API's own default holds.
    pub fn downloads(&self, limit: Option<u32>) -> (r: Request)
        ensures
            r@ == self.read("/api/v1/database/downloads"@, limit_query(limit)),
    {
        let mut query: Vec<(String, String)> = Vec::new();
        match limit {
            Some(n) => {
                query.push(("limit".to_owned(), decimal(n as u64)));
            },
            None => {},
        }
        assert(pair_texts(query@) =~= limit_query(limit));
        self.get("/api/v1/database/downloads", query)
    }

    /// Asks for the time-limited URL of one dataset file.
    pub fn download_url(&self, id: &str, format: Format) -> (r: Request)
        ensures
            r@ == self.read("/api/v1/database/download"@, file_query(id@, format)),
    {
        self.get("/api/v1/database/download", file_pairs(id, format))
    }

    /// Asks for the file behind its URL. The link authorizes itself, so the
    /// request carries no key.
    pub fn fetch_file(&self, url: &str) -> (r: Request)
        ensures
            r@ == file_request(url@),
    {
        self.client.transport.get_file(url)
    }

    /// Starts writing a file out, of so many bytes or of as many as come.
    pub fn download(&self, declared: Option<u64>) -> (r: (Download, DownloadAction))
        ensures
            r.0@ == DownloadView::start(declared),
            r.1 is Create,
    {
        (
            Download { declared, written: 0, phase: DownloadPhase::Creating, failure: None },
            DownloadAction::Create,
        )
    }

    /// Hands the bytes of a transfer over once they are whole.
    pub fn download_bytes(&self, declared: Option<u64>, bytes: Vec<u8>) -> (r: Result<
        Vec<u8>,
        Error,
    >)
        ensures
            match r {
                Ok(got) => got == bytes && whole(declared, bytes@.len() as u64),
                Err(e) => {
                    &&& declared matches Some(want) && want != bytes@.len() as u64 && e@
                        == cut_short(want, bytes@.len() as u64)
                },
            },
    {
        match assert_whole_transfer(declared, bytes.len() as u64) {
            Ok(_) => Ok(bytes),
            Err(e) => Err(e),
        }
    }
}

/// The path a download is written under until it is whole.
pub fn partial_path(path: &str) -> (r: String)
    ensures
        r@ == path@ + ".part"@,
{
    concat(path, ".part")
}

/// Whether as many bytes came as were declared. Without a declaration every
/// number of them is the whole.
pub open spec fn whole(declared: Option<u64>, written: u64) -> bool {
    declared matches Some(want) ==> want == written
}

/// The failure of a transfer that ended early.
pub open spec fn cut_short(want: u64, written: u64) -> ErrorView {
    ErrorView::Io {
        text: "the transfer ended after "@ + decimal_text(written as nat) + " of "@ + decimal_text(
            want as nat,
        ) + " bytes"@,
        unexpected_eof: true,
    }
}

/// Refuses a transfer that ended short of, or beyond, what was declared.
pub fn assert_whole_transfer(declared: Option<u64>, written: u64) -> (r: Result<(), Error>)
    ensures
        match r {
            Ok(_) => whole(declared, written),
            Err(e) => declared matches Some(want) && want != written && e@ == cut_short(
                want,
                written,
            ),
        },
{
    match declared {
        Some(want) => {
            if want == written {
                return Ok(());
            }
            let mut text = "the transfer ended after ".to_owned();
            text.append(decimal(written).as_str());
            text.append(" of ");
            text.append(decimal(want).as_str());
            text.append(" bytes");
            Err(Error::Io(IoFailure { text, unexpected_eof: true }))
        },
        None => Ok(()),
    }
}

/// The file behind a link is fetched without the key, and without a bound on how
/// long the transfer takes.
pub proof fn law_a_file_is_fetched_without_a_key(url: Seq<char>)
    ensures
        file_request(url).url == url,
        file_request(url).authorization is None,
        file_request(url).timeout is None,
{
}

/// A failed transfer is worth retrying.
pub proof fn law_a_short_transfer_is_retryable(want: u64, written: u64)
    ensures
        cut_short(want, written).retryable(),
{
}

/// Where a download to a file is.
#[derive(Clone, Copy, Debug, PartialEq, Eq, Structural)]
pub enum DownloadPhase {
    /// The partial file is being created.
    Creating,
    /// The next bytes are being read.
    Reading,
    /// So many bytes are being written.
    Writing(u64),
    /// The partial file is being flushed and closed.
    Closing,
    /// The partial file is being given its name.
    Renaming,
    /// The partial file is being removed.
    Removing,
    Done,
}

/// What happened to a download.
#[derive(Debug)]
pub enum DownloadEvent {
    /// What was asked for last was done.
    Succeeded,
    /// So many bytes were read.
    Chunk(u64),
    /// There is nothing more to read.
    Ended,
    /// What was asked for last failed.
    Failed(Error),
    /// The partial file was removed, or could not be.
    Removed,
}

/// What a download needs done next.
#[derive(Debug)]
pub enum DownloadAction {
    Create,
    Read,
    Write,
    Close,
    Rename,
    Remove,
    /// Hand this to the caller.
    Return(Result<u64, Error>),
}

/// One download to a file. Its bytes land beside the file, under a name that says
/// they are partial, and get the name of the file once they are whole.
#[derive(Debug)]
pub struct Download {
    pub declared: Option<u64>,
    pub written: u64,
    pub phase: DownloadPhase,
    pub failure: Option<Error>,
}

pub struct DownloadView {
    pub declared: Option<u64>,
    pub written: nat,
    pub phase: DownloadPhase,
    pub failure: Option<ErrorView>,
}

pub enum DownloadEventView {
    Succeeded,
    Chunk(u64),
    Ended,
    Failed(ErrorView),
    Removed,
}

pub enum DownloadActionView {
    Create,
    Read,
    Write,
    Close,
    Rename,
    Remove,
    Return(Result<nat, ErrorView>),
    /// The event was not one the download was waiting for.
    Nothing,
}

pub open spec fn failure_view(failure: Option<Error>) -> Option<ErrorView> {
    match failure {
        Some(e) => Some(e@),
        None => None,
    }
}

impl View for Download {
    type V = DownloadView;

    open spec fn view(&self) -> DownloadView {
        DownloadView {
            declared: self.declared,
            written: self.written as nat,
            phase: self.phase,
            failure: failure_view(self.failure),
        }
    }
}

impl View for DownloadEvent {
    type V = DownloadEventView;

    open spec fn view(&self) -> DownloadEventView {
        match self {
            DownloadEvent::Succeeded => DownloadEventView::Succeeded,
            DownloadEvent::Chunk(n) => DownloadEventView::Chunk(*n),
            DownloadEvent::Ended => DownloadEventView::Ended,
            DownloadEvent::Failed(e) => DownloadEventView::Failed(e@),
            DownloadEvent::Removed => DownloadEventView::Removed,
        }
    }
}

impl View for DownloadAction {
    type V = DownloadActionView;

    open spec fn view(&self) -> DownloadActionView {
        match self {
            DownloadAction::Create => DownloadActionView::Create,
            DownloadAction::Read => DownloadActionView::Read,
            DownloadAction::Write => DownloadActionView::Write,
            DownloadAction::Close => DownloadActionView::Close,
            DownloadAction::Rename => DownloadActionView::Rename,
            DownloadAction::Remove => DownloadActionView::Remove,
            DownloadAction::Return(Ok(n)) => DownloadActionView::Return(Ok(*n as nat)),
            DownloadAction::Return(Err(e)) => DownloadActionView::Return(Err(e@)),
        }
    }
}

impl DownloadView {
    /// A download that has written nothing yet.
    pub open spec fn start(declared: Option<u64>) -> DownloadView {
        DownloadView { declared, written: 0, phase: DownloadPhase::Creating, failure: None }
    }

    /// Whether an event is one the download is waiting for.
    pub open spec fn expects(self, event: DownloadEventView) -> bool {
        match self.phase {
            DownloadPhase::Creating => event is Succeeded || event is Failed,
            DownloadPhase::Reading => event is Chunk || event is Ended || event is Failed,
            DownloadPhase::Writing(_) => event is Succeeded || event is Failed,
            DownloadPhase::Closing => event is Succeeded || event is Failed,
            DownloadPhase::Renaming => event is Succeeded || event is Failed,
            DownloadPhase::Removing => event is Removed && self.failure is Some,
            DownloadPhase::Done => false,
        }
    }

    /// A download that failed: its partial file goes before the failure is
    /// handed over.
    pub open spec fn failed(self, e: ErrorView) -> (DownloadView, DownloadActionView) {
        (
            DownloadView { phase: DownloadPhase::Removing, failure: Some(e), ..self },
            DownloadActionView::Remove,
        )
    }

    /// What an event does to a download, and what it needs done next.
    pub open spec fn next(self, event: DownloadEventView) -> (DownloadView, DownloadActionView) {
        if !self.expects(event) {
            (self, DownloadActionView::Nothing)
        } else {
            match event {
                DownloadEventView::Failed(e) => self.failed(e),
                DownloadEventView::Chunk(n) => (
                    DownloadView { phase: DownloadPhase::Writing(n), ..self },
                    DownloadActionView::Write,
                ),
                DownloadEventView::Ended => (
                    DownloadView { phase: DownloadPhase::Closing, ..self },
                    DownloadActionView::Close,
                ),
                DownloadEventView::Removed => (
                    DownloadView { phase: DownloadPhase::Done, failure: None, ..self },
                    DownloadActionView::Return(Err(self.failure->0)),
                ),
                DownloadEventView::Succeeded => match self.phase {
                    DownloadPhase::Creating => (
                        DownloadView { phase: DownloadPhase::Reading, ..self },
                        DownloadActionView::Read,
                    ),
                    DownloadPhase::Writing(n) => (
                        DownloadView {
                            written: self.written + n as nat,
                            phase: DownloadPhase::Reading,
                            ..self
                        },
                        DownloadActionView::Read,
                    ),
                    DownloadPhase::Closing => match self.declared {
                        Some(want) => if want as nat == self.written {
                            (
                                DownloadView { phase: DownloadPhase::Renaming, ..self },
                                DownloadActionView::Rename,
                            )
                        } else {
                            self.failed(cut_short(want, self.written as u64))
                        },
                        None => (
                            DownloadView { phase: DownloadPhase::Renaming, ..self },
                            DownloadActionView::Rename,
                        ),
                    },
                    _ => (
                        DownloadView { phase: DownloadPhase::Done, ..self },
                        DownloadActionView::Return(Ok(self.written)),
                    ),
                },
            }
        }
    }
}

impl Download {
    fn fail(&mut self, e: Error) -> (r: DownloadAction)
        ensures
            (final(self)@, r@) == old(self)@.failed(e@),
    {
        self.phase = DownloadPhase::Removing;
        self.failure = Some(e);
        DownloadAction::Remove
    }

    /// Takes in what happened and says what is needed next.
    pub fn step(&mut self, event: DownloadEvent) -> (r: DownloadAction)
        requires
            old(self)@.expects(event@),
            old(self)@.next(event@).0.written <= u64::MAX,
        ensures
            (final(self)@, r@) == old(self)@.next(event@),
    {
        match event {
            DownloadEvent::Failed(e) => self.fail(e),
            DownloadEvent::Chunk(n) => {
                self.phase = DownloadPhase::Writing(n);
                DownloadAction::Write
            },
            DownloadEvent::Ended => {
                self.phase = DownloadPhase::Closing;
                DownloadAction::Close
            },
            DownloadEvent::Removed => {
                self.phase = DownloadPhase::Done;
                match self.failure.take() {
                    Some(e) => DownloadAction::Return(Err(e)),
                    None => vstd::pervasive::unreached(),
                }
            },
            DownloadEvent::Succeeded => match self.phase {
                DownloadPhase::Creating => {
                    self.phase = DownloadPhase::Reading;
                    DownloadAction::Read
                },
                DownloadPhase::Writing(n) => {
                    self.written = self.written + n;
                    self.phase = DownloadPhase::Reading;
                    DownloadAction::Read
                },
                DownloadPhase::Closing => match assert_whole_transfer(
                    self.declared,
                    self.written,
                ) {
                    Ok(_) => {
                        self.phase = DownloadPhase::Renaming;
                        DownloadAction::Rename
                    },
                    Err(e) => self.fail(e),
                },
                _ => {
                    self.phase = DownloadPhase::Done;
                    DownloadAction::Return(Ok(self.written))
                },
            },
        }
    }
}

/// Where a download is after what happened to it.
pub open spec fn download_after(
    download: DownloadView,
    events: Seq<DownloadEventView>,
) -> DownloadView
    decreases events.len(),
{
    if events.len() == 0 {
        download
    } else {
        download_after(download, events.drop_last()).next(events.last()).0
    }
}

/// How many bytes were written by what happened: those of every chunk whose
/// write succeeded.
pub open spec fn bytes_written(events: Seq<DownloadEventView>) -> nat
    decreases events.len(),
{
    if events.len() == 0 {
        0
    } else {
        bytes_written(events.drop_last()) + (if events.len() > 1 && events.last() is Succeeded {
            match events[events.len() - 2] {
                DownloadEventView::Chunk(n) => n as nat,
                _ => 0,
            }
        } else {
            0
        })
    }
}

/// Whether every event was one the download was waiting for.
pub open spec fn download_runs(declared: Option<u64>, events: Seq<DownloadEventView>) -> bool {
    forall|i: int|
        0 <= i < events.len() ==> download_after(
            DownloadView::start(declared),
            #[trigger] events.take(i),
        ).expects(events[i])
}

proof fn download_kept(declared: Option<u64>, events: Seq<DownloadEventView>)
    requires
        download_runs(declared, events),
    ensures
        download_after(DownloadView::start(declared), events).written == bytes_written(events),
        download_after(DownloadView::start(declared), events).declared == declared,
        download_after(DownloadView::start(declared), events).phase matches DownloadPhase::Writing(n)
            ==> events.len() > 0 && events.last() == DownloadEventView::Chunk(n),
        events.len() > 0 && events.last() is Chunk ==> download_after(
            DownloadView::start(declared),
            events,
        ).phase is Writing,
        download_after(DownloadView::start(declared), events).phase is Renaming ==> (
        declared matches Some(want) ==> want as nat == bytes_written(events)),
    decreases events.len(),
{
    if events.len() > 0 {
        let front = events.drop_last();
        assert forall|i: int| 0 <= i < front.len() implies download_after(
            DownloadView::start(declared),
            #[trigger] front.take(i),
        ).expects(front[i]) by {
            assert(front.take(i) =~= events.take(i));
        }
        download_kept(declared, front);
        assert(events.take(events.len() - 1) =~= front);
    }
}

/// A file gets its name only once the whole of it has been written: what is
/// handed over as written is the sum of the chunks, and what was declared.
pub proof fn law_only_a_whole_file_is_named(declared: Option<u64>, events: Seq<DownloadEventView>)
    requires
        download_runs(declared, events),
        events.len() > 0,
        download_after(DownloadView::start(declared), events.drop_last()).next(events.last()).1
            is Rename || download_after(DownloadView::start(declared), events.drop_last()).next(
            events.last(),
        ).1 matches DownloadActionView::Return(Ok(_)),
    ensures
        declared matches Some(want) ==> want as nat == bytes_written(events),
        download_after(DownloadView::start(declared), events.drop_last()).next(events.last()).1
            matches DownloadActionView::Return(Ok(n)) ==> n == bytes_written(events),
{
    let front = events.drop_last();
    assert forall|i: int| 0 <= i < front.len() implies download_after(
        DownloadView::start(declared),
        #[trigger] front.take(i),
    ).expects(front[i]) by {
        assert(front.take(i) =~= events.take(i));
    }
    download_kept(declared, events);
    download_kept(declared, front);
    assert(events.take(events.len() - 1) =~= front);
}

/// A download that fails leaves no partial file behind: the failure is handed
/// over only after the file was to be removed.
pub proof fn law_a_failed_download_is_removed_first(
    download: DownloadView,
    event: DownloadEventView,
    next: DownloadEventView,
)
    requires
        download.next(event).0.next(next).1 matches DownloadActionView::Return(Err(_)),
        download.next(event).1 != DownloadActionView::Nothing,
    ensures
        download.next(event).1 is Remove,
{
}

/// How each format is spelled on the wire.
pub proof fn law_a_format_is_spelled_as_the_wire_spells_it()
    ensures
        Format::Csvgz.spelling() == "csvgz"@,
        Format::Mmdb.spelling() == "mmdb"@,
        Format::Csvgz.spelling() != Format::Mmdb.spelling(),
{
    reveal_strlit("csvgz");
    reveal_strlit("mmdb");
    assert("csvgz"@.len() != "mmdb"@.len());
}

/// A request about datasets reads the path it names behind the client's URL with the
/// client's key and timeout, and names the dataset and the format it was asked about,
/// in so many words.
pub proof fn law_a_dataset_is_asked_about_by_name(
    database: Database<'_>,
    path: Seq<char>,
    id: Seq<char>,
    format: Format,
    limit: u32,
    query: Seq<(Seq<char>, Seq<char>)>,
)
    ensures
        ({
            let sent = database.read(path, query);
            &&& sent.url == database.client.transport.base_url@ + path
            &&& sent.query == query
            &&& sent.timeout == Some(database.client.timeout)
            &&& sent.body is Empty
            &&& sent.method == crate::transport::Method::Get
            &&& database.client.transport.api_key is None ==> sent.authorization is None
            &&& database.client.transport.api_key matches Some(key) ==> key@.len() > 0
                ==> sent.authorization == Some("Bearer "@ + key@)
        }),
        id_query(id) == seq![("id"@, id)],
        file_query(id, format).len() == 2,
        file_query(id, format)[0] == ("id"@, id),
        file_query(id, format)[1].0 == "format"@,
        format == Format::Csvgz ==> file_query(id, format)[1].1 == "csvgz"@,
        format == Format::Mmdb ==> file_query(id, format)[1].1 == "mmdb"@,
        limit_query(None).len() == 0,
        limit_query(Some(limit)) == seq![("limit"@, decimal_text(limit as nat))],
{
}

/// A transfer is whole exactly when as many bytes came as were declared, or nothing
/// was declared. One that is not fails as a stream that ended early, says how far it
/// came and how far it should have come, and is worth retrying.
pub proof fn law_a_transfer_is_whole_or_cut_short(want: u64, written: u64)
    ensures
        whole(None, written),
        whole(Some(want), written) == (want == written),
        cut_short(want, written).kind() == crate::error::ErrorKind::Io,
        cut_short(want, written).retryable(),
        cut_short(want, written).message() == "the transfer ended after "@ + decimal_text(
            written as nat,
        ) + " of "@ + decimal_text(want as nat) + " bytes"@,
{
}

/// What a download that is read, chunk after chunk, counts and does: a chunk is
/// written and counted once its write succeeded, and what failed is removed and then
/// handed over as it was.
pub proof fn law_a_download_counts_what_it_wrote(
    download: DownloadView,
    n: u64,
    e: ErrorView,
)
    ensures
        download.phase == DownloadPhase::Creating ==> download.next(
            DownloadEventView::Succeeded,
        ) == (
            DownloadView { phase: DownloadPhase::Reading, ..download },
            DownloadActionView::Read,
        ),
        download.phase == DownloadPhase::Reading ==> {
            let chunk = download.next(DownloadEventView::Chunk(n));
            let written = chunk.0.next(DownloadEventView::Succeeded);
            &&& chunk.1 is Write && chunk.0.written == download.written
            &&& written.1 is Read && written.0 == (DownloadView {
                written: download.written + n as nat,
                ..download
            })
            &&& download.next(DownloadEventView::Ended).1 is Close
            &&& download.next(DownloadEventView::Ended).0 == (DownloadView {
                phase: DownloadPhase::Closing,
                ..download
            })
        },
        download.phase != DownloadPhase::Removing && download.phase != DownloadPhase::Done ==> {
            let failed = download.next(DownloadEventView::Failed(e));
            &&& failed.1 is Remove
            &&& failed.0.next(DownloadEventView::Removed).1 == DownloadActionView::Return(Err(e))
            &&& failed.0.next(DownloadEventView::Removed).0.phase == DownloadPhase::Done
        },
{
}

/// A download that has read to its end is given its name and handed over as so many
/// bytes when they are what was declared or nothing was, and is otherwise removed and
/// fails as a transfer that ended early.
pub proof fn law_a_download_ends_named_or_removed(download: DownloadView)
    requires
        download.phase == DownloadPhase::Closing,
        download.written <= u64::MAX,
    ensures
        ({
            let closed = download.next(DownloadEventView::Succeeded);
            &&& download.declared is None || download.declared == Some(download.written as u64) ==> {
                let named = closed.0.next(DownloadEventView::Succeeded);
                &&& closed.1 is Rename
                &&& named.1 == DownloadActionView::Return(Ok(download.written))
                &&& named.0.phase == DownloadPhase::Done
            }
            &&& download.declared matches Some(want) ==> want != download.written ==> {
                let removed = closed.0.next(DownloadEventView::Removed);
                &&& closed.1 is Remove
                &&& removed.1 matches DownloadActionView::Return(Err(e)) && e.retryable()
                    && e.kind() == crate::error::ErrorKind::Io && e.message()
                    == "the transfer ended after "@ + decimal_text(download.written) + " of "@
                    + decimal_text(want as nat) + " bytes"@
            }
        }),
        forall|declared: Option<u64>| #[trigger]
            DownloadView::start(declared).written == 0 && DownloadView::start(declared).declared
                == declared && DownloadView::start(declared).phase == DownloadPhase::Creating,
{
}

/// A download, what happens to it and what it needs done read as they are.
pub proof fn law_a_download_reads_as_it_is(download: Download, n: u64, e: Error)
    ensures
        download@.declared == download.declared,
        download@.written == download.written,
        download@.phase == download.phase,
        DownloadEvent::Chunk(n)@ == DownloadEventView::Chunk(n),
        DownloadEvent::Failed(e)@ == DownloadEventView::Failed(e@),
        DownloadEvent::Succeeded@ == DownloadEventView::Succeeded,
        DownloadEvent::Ended@ == DownloadEventView::Ended,
        DownloadEvent::Removed@ == DownloadEventView::Removed,
        DownloadAction::Return(Ok(n))@ == DownloadActionView::Return(Ok(n as nat)),
        DownloadAction::Return(Err(e))@ == DownloadActionView::Return(Err(e@)),
        DownloadAction::Remove@ == DownloadActionView::Remove,
        DownloadAction::Rename@ == DownloadActionView::Rename,
{
}

/// What a download waits for where it is. Anything else that happens leaves it as it was,
/// and nothing that happens changes what was declared.
pub proof fn law_what_a_download_waits_for(download: DownloadView, event: DownloadEventView)
    ensures
        download.expects(event) == (match download.phase {
            DownloadPhase::Reading => event is Chunk || event is Ended || event is Failed,
            DownloadPhase::Removing => event is Removed && download.failure is Some,
            DownloadPhase::Done => false,
            _ => event is Succeeded || event is Failed,
        }),
        !download.expects(event) ==> download.next(event) == (
            download,
            DownloadActionView::Nothing,
        ),
        download.next(event).0.declared == download.declared,
        download.next(event).0.written >= download.written,
{
}

}
