//! Classifying many addresses in as few requests as possible.

use indexmap::IndexMap;
use vstd::hash_map::StringHashMap;
use vstd::hash_set::StringHashSet;
use vstd::prelude::*;

use crate::bogon::{bogon_lookup, bogon_text, bogon_view, is_bogon};
use crate::client::{arrival_view, given_or, hit_view, or_client, outcome_view, served, Client};
use crate::error::{refused_entry, Error, ErrorKind, ErrorView};
use crate::flight::{
    boarded, law_an_address_in_flight_is_joined, seats, Boarded, Boarding, Flights, FlightsView,
};
use crate::index::inserted;
use crate::lookup::{AnswerView, Lookup, LookupResponse, LookupView};
use crate::retry::{base_delay, Retry};
use crate::text::{concat, copy_all, texts, texts_push};
use crate::time::Duration;
use crate::transport::{batch_request, Request};

verus! {

/// The most addresses one request takes. A larger batch is sent in chunks of
/// this size.
pub const BATCH_MAX: usize = 1000;

/// One batch's overrides.
#[derive(Clone, Copy, Debug)]
pub struct BatchOptions {
    pub retries: Option<u32>,
    pub concurrency: Option<usize>,
    pub timeout: Option<Duration>,
}

impl BatchOptions {
    pub fn new() -> (r: Self)
        ensures
            r == (BatchOptions { retries: None, concurrency: None, timeout: None }),
    {
        BatchOptions { retries: None, concurrency: None, timeout: None }
    }

    /// Overrides the client's retry count for this batch.
    pub fn retries(self, n: u32) -> (r: Self)
        ensures
            r == (BatchOptions { retries: Some(n), ..self }),
    {
        BatchOptions { retries: Some(n), ..self }
    }

    /// Overrides the client's in-flight request limit for this batch. A batch
    /// that may keep none in flight is refused.
    pub fn concurrency(self, n: usize) -> (r: Self)
        ensures
            r == (BatchOptions { concurrency: Some(n), ..self }),
    {
        BatchOptions { concurrency: Some(n), ..self }
    }

    /// Overrides the client's timeout for each attempt at each chunk.
    pub fn timeout(self, timeout: Duration) -> (r: Self)
        ensures
            r == (BatchOptions { timeout: Some(timeout), ..self }),
    {
        BatchOptions { timeout: Some(timeout), ..self }
    }
}

impl Default for BatchOptions {
    fn default() -> (r: Self)
        ensures
            r == (BatchOptions { retries: None, concurrency: None, timeout: None }),
    {
        BatchOptions::new()
    }
}

/// Each text once, where it first occurs.
pub open spec fn firsts(all: Seq<Seq<char>>) -> Seq<Seq<char>>
    decreases all.len(),
{
    if all.len() == 0 {
        Seq::empty()
    } else {
        let before = firsts(all.drop_last());
        if before.contains(all.last()) {
            before
        } else {
            before.push(all.last())
        }
    }
}

/// Each address once, in the order they were first seen.
pub fn dedupe(ips: &Vec<String>) -> (r: Vec<String>)
    ensures
        texts(r@) == firsts(texts(ips@)),
{
    let mut seen = StringHashSet::new();
    let mut r: Vec<String> = Vec::new();
    assert(texts(r@) =~= Seq::empty());
    for i in 0..ips.len()
        invariant
            texts(r@) == firsts(texts(ips@).take(i as int)),
            forall|s: Seq<char>| #[trigger] seen@.contains(s) == texts(r@).contains(s),
    {
        assert(texts(ips@).take(i + 1).drop_last() =~= texts(ips@).take(i as int));
        let ghost before = texts(r@);
        if seen.insert(ips[i].clone()) {
            let copy = ips[i].clone();
            proof {
                texts_push(r@, copy);
                assert(before.push(copy@)[before.len() as int] == copy@);
                assert forall|s: Seq<char>| before.push(copy@).contains(s) == (before.contains(s)
                    || s == copy@) by {
                    if before.contains(s) {
                        let k = choose|k: int| 0 <= k < before.len() && before[k] == s;
                        assert(before.push(copy@)[k] == s);
                    }
                }
            }
            r.push(copy);
        }
    }
    assert(texts(ips@).take(ips@.len() as int) =~= texts(ips@));
    r
}

/// The addresses of a batch are each answered once.
pub proof fn law_each_address_is_taken_once(all: Seq<Seq<char>>, ip: Seq<char>)
    ensures
        firsts(all).no_duplicates(),
        firsts(all).contains(ip) == all.contains(ip),
    decreases all.len(),
{
    if all.len() > 0 {
        let front = all.drop_last();
        law_each_address_is_taken_once(front, ip);
        law_each_address_is_taken_once(front, all.last());
        let before = firsts(front);
        if all.contains(ip) {
            let k = choose|k: int| 0 <= k < all.len() && all[k] == ip;
            if k < front.len() {
                assert(front[k] == ip);
            }
        }
        if front.contains(ip) {
            let k = choose|k: int| 0 <= k < front.len() && front[k] == ip;
            assert(all[k] == ip);
        }
        assert(all[all.len() - 1] == all.last());
        if !before.contains(all.last()) {
            let after = before.push(all.last());
            assert(after[before.len() as int] == all.last());
            if before.contains(ip) {
                let k = choose|k: int| 0 <= k < before.len() && before[k] == ip;
                assert(after[k] == ip);
            }
        }
    }
}

/// The order in which addresses are first seen is kept: what comes later leaves
/// those before it where they are.
pub proof fn law_first_seen_stays_first(a: Seq<Seq<char>>, b: Seq<Seq<char>>)
    ensures
        firsts(a).len() <= firsts(a + b).len(),
        firsts(a + b).take(firsts(a).len() as int) == firsts(a),
    decreases b.len(),
{
    if b.len() == 0 {
        assert(a + b =~= a);
        assert(firsts(a).take(firsts(a).len() as int) =~= firsts(a));
    } else {
        law_first_seen_stays_first(a, b.drop_last());
        assert((a + b).drop_last() =~= a + b.drop_last());
        assert(firsts(a + b).take(firsts(a).len() as int) =~= firsts(a + b.drop_last()).take(
            firsts(a).len() as int,
        ));
    }
}

proof fn firsts_of_distinct(all: Seq<Seq<char>>)
    requires
        all.no_duplicates(),
    ensures
        firsts(all) == all,
    decreases all.len(),
{
    if all.len() > 0 {
        let front = all.drop_last();
        assert(front.no_duplicates());
        firsts_of_distinct(front);
        if front.contains(all.last()) {
            let k = front.index_of(all.last());
            assert(all[k] == all[all.len() - 1]);
        }
        assert(front.push(all.last()) =~= all);
    }
}

/// Addresses that are each there once are taken as they are, so taking each once
/// a second time changes nothing.
pub proof fn law_taking_each_once_twice_changes_nothing(all: Seq<Seq<char>>)
    ensures
        firsts(firsts(all)) == firsts(all),
{
    law_each_address_is_taken_once(all, Seq::empty());
    firsts_of_distinct(firsts(all));
}

/// What an address is answered without a request: a bogon is, and so is one that
/// an answer is kept of.
pub open spec fn local_answer(ip: Seq<char>, hit: Option<LookupView>) -> Option<LookupView> {
    if bogon_text(ip) {
        Some(bogon_view(ip))
    } else {
        hit
    }
}

pub open spec fn hit_views(hits: Seq<Option<Lookup>>) -> Seq<Option<LookupView>> {
    hits.map_values(|hit: Option<Lookup>| hit_view(hit))
}

/// The addresses that are not answered without a request, in order.
pub open spec fn pending(ips: Seq<Seq<char>>, hits: Seq<Option<LookupView>>) -> Seq<Seq<char>>
    decreases ips.len(),
{
    if ips.len() == 0 || hits.len() == 0 {
        Seq::empty()
    } else {
        let before = pending(ips.drop_last(), hits.drop_last());
        if local_answer(ips.last(), hits.last()) is None {
            before.push(ips.last())
        } else {
            before
        }
    }
}

/// A sequence cut into chunks of a given size, the last of them shorter where it
/// must be.
pub open spec fn chunked(all: Seq<Seq<char>>, size: nat) -> Seq<Seq<Seq<char>>>
    decreases all.len(),
{
    if all.len() == 0 {
        Seq::empty()
    } else if all.len() <= size || size == 0 {
        seq![all]
    } else {
        seq![all.take(size as int)] + chunked(all.skip(size as int), size)
    }
}

pub open spec fn chunk_texts(chunks: Seq<Vec<String>>) -> Seq<Seq<Seq<char>>> {
    chunks.map_values(|chunk: Vec<String>| texts(chunk@))
}

/// The chunks, one after another.
pub open spec fn laid_out(chunks: Seq<Seq<Seq<char>>>) -> Seq<Seq<char>>
    decreases chunks.len(),
{
    if chunks.len() == 0 {
        Seq::empty()
    } else {
        chunks[0] + laid_out(chunks.skip(1))
    }
}

/// Chunks hold every address, in order and nothing else, and none holds more
/// than a request takes.
pub proof fn law_chunks_hold_what_is_pending(all: Seq<Seq<char>>, size: nat)
    requires
        size > 0,
    ensures
        laid_out(chunked(all, size)) == all,
        forall|i: int|
            0 <= i < chunked(all, size).len() ==> 0 < (#[trigger] chunked(all, size)[i]).len()
                <= size,
    decreases all.len(),
{
    let chunks = chunked(all, size);
    if all.len() == 0 {
        assert(laid_out(chunks) =~= all);
    } else if all.len() <= size {
        assert(chunks.skip(1) =~= Seq::empty());
        assert(laid_out(chunks.skip(1)) =~= Seq::empty());
        assert(laid_out(chunks) =~= all);
    } else {
        let rest = all.skip(size as int);
        law_chunks_hold_what_is_pending(rest, size);
        assert(chunks.skip(1) =~= chunked(rest, size));
        assert(laid_out(chunks) =~= all);
        assert forall|i: int| 0 <= i < chunks.len() implies 0 < (#[trigger] chunks[i]).len()
            <= size by {
            if i > 0 {
                assert(chunks[i] == chunked(rest, size)[i - 1]);
            }
        }
    }
}

/// There are no more chunks than it takes: one for every thousand addresses, and
/// one for those left over.
pub proof fn law_the_number_of_chunks(all: Seq<Seq<char>>)
    ensures
        chunked(all, BATCH_MAX as nat).len() == (all.len() + 999) / 1000,
    decreases all.len(),
{
    if all.len() > BATCH_MAX {
        law_the_number_of_chunks(all.skip(BATCH_MAX as int));
    }
}

/// Cuts addresses into chunks that a request takes.
fn chunks_of(all: &Vec<String>) -> (r: Vec<Vec<String>>)
    ensures
        chunk_texts(r@) == chunked(texts(all@), BATCH_MAX as nat),
{
    let mut r: Vec<Vec<String>> = Vec::new();
    let ghost whole = texts(all@);
    let count: usize = all.len();
    let mut at: usize = 0;
    assert(whole.skip(0) =~= whole);
    assert(chunk_texts(r@) + chunked(whole, BATCH_MAX as nat) =~= chunked(whole, BATCH_MAX as nat));
    while at < count
        invariant
            whole == texts(all@),
            count == all@.len(),
            at <= count,
            chunk_texts(r@) + chunked(whole.skip(at as int), BATCH_MAX as nat) == chunked(
                whole,
                BATCH_MAX as nat,
            ),
        decreases count - at,
    {
        let end: usize = if count - at <= BATCH_MAX {
            count
        } else {
            at + BATCH_MAX
        };
        let mut chunk: Vec<String> = Vec::new();
        assert(texts(chunk@) =~= whole.subrange(at as int, at as int));
        for i in at..end
            invariant
                whole == texts(all@),
                at <= end <= all@.len(),
                texts(chunk@) == whole.subrange(at as int, i as int),
        {
            let copy = all[i].clone();
            proof {
                texts_push(chunk@, copy);
            }
            chunk.push(copy);
            assert(whole.subrange(at as int, i + 1) =~= whole.subrange(at as int, i as int).push(
                whole[i as int],
            ));
        }
        let ghost rest = whole.skip(at as int);
        let ghost before = r@;
        proof {
            assert(texts(chunk@) =~= rest.take(end - at));
            assert(whole.skip(end as int) =~= rest.skip(end - at));
            if count - at <= BATCH_MAX {
                assert(rest.take(end - at) =~= rest);
                assert(chunked(rest, BATCH_MAX as nat) =~= seq![rest]);
                assert(chunked(whole.skip(end as int), BATCH_MAX as nat) =~= Seq::empty());
            }
        }
        r.push(chunk);
        proof {
            assert(chunk_texts(r@) =~= chunk_texts(before).push(rest.take(end - at)));
            assert(chunk_texts(r@) + chunked(whole.skip(end as int), BATCH_MAX as nat)
                =~= chunk_texts(before) + chunked(rest, BATCH_MAX as nat));
        }
        at = end;
    }
    assert(chunked(whole.skip(count as int), BATCH_MAX as nat) =~= Seq::empty());
    assert(chunk_texts(r@) =~= chunked(whole, BATCH_MAX as nat));
    r
}

/// What a batch hands over, in the order its addresses were first seen.
pub uninterp spec fn answers(map: IndexMap<String, Result<Lookup, Error>>) -> Seq<
    (Seq<char>, Result<LookupView, ErrorView>),
>;

/// `IndexMap::new` makes a map without entries.
#[verifier::external_body]
fn no_answers() -> (map: IndexMap<String, Result<Lookup, Error>>)
    ensures
        answers(map) == Seq::<(Seq<char>, Result<LookupView, ErrorView>)>::empty(),
{
    IndexMap::new()
}

/// `IndexMap::insert` replaces the value of a name that has an entry, in place,
/// and appends the entry of one that has none.
#[verifier::external_body]
fn insert_answer(
    map: &mut IndexMap<String, Result<Lookup, Error>>,
    ip: String,
    answer: Result<Lookup, Error>,
)
    ensures
        answers(*final(map)) == inserted(answers(*old(map)), ip@, outcome_view(answer)),
{
    map.insert(ip, answer);
}

/// A batch that may keep no request in flight is answered with this.
pub open spec fn nothing_in_flight() -> ErrorView {
    ErrorView::Config("concurrency must be at least 1"@)
}

/// One batch: its addresses, each once, and how its requests are sent.
#[derive(Debug)]
pub struct BatchCall {
    unique: Vec<String>,
    caching: bool,
    concurrency: usize,
    retries: u32,
    timeout: Duration,
}

pub struct BatchView {
    pub ips: Seq<Seq<char>>,
    pub caching: bool,
    pub concurrency: usize,
    pub retries: u32,
    pub timeout: Duration,
}

impl View for BatchCall {
    type V = BatchView;

    closed spec fn view(&self) -> BatchView {
        BatchView {
            ips: texts(self.unique@),
            caching: self.caching,
            concurrency: self.concurrency,
            retries: self.retries,
            timeout: self.timeout,
        }
    }
}

/// What a batch has once it read the cache.
#[derive(Debug)]
pub struct Plan {
    /// What each address is answered without a request.
    pub local: Vec<Option<Lookup>>,
    /// The addresses that were missed.
    pub pending: Vec<String>,
}

/// What a batch does about the addresses it missed.
#[derive(Debug)]
pub struct Takeoff {
    /// The addresses to ask about: those it leads a flight for.
    pub asked: Vec<String>,
    /// The flights it leads and those it joined.
    pub boarding: Boarding,
}

/// What a batch has before it sends anything.
#[derive(Debug)]
pub struct Leading {
    /// The addresses an answer was found of when the cache was read again.
    pub found: Vec<(String, Result<Lookup, Error>)>,
    /// The addresses to ask about, a request each.
    pub chunks: Vec<Vec<String>>,
}

/// What came of the flights a batch joined.
#[derive(Debug)]
pub struct Arrivals {
    /// What landed.
    pub landed: Vec<(String, Result<Lookup, Error>)>,
    /// The addresses whose flight was given up, to be tried again.
    pub again: Vec<String>,
}

impl Client {
    /// Starts a batch, or hands over the refusal of one that may keep no request
    /// in flight, which every address is answered with.
    pub fn lookup_batch(&self, ips: &Vec<String>, opts: BatchOptions) -> (r: Result<
        BatchCall,
        IndexMap<String, Result<Lookup, Error>>,
    >)
        ensures
            match r {
                Ok(call) => {
                    &&& or_client(opts.concurrency, self.concurrency) > 0
                    &&& call@ == (BatchView {
                        ips: firsts(texts(ips@)),
                        caching: self.cache is Some,
                        concurrency: or_client(opts.concurrency, self.concurrency),
                        retries: or_client(opts.retries, self.retries),
                        timeout: or_client(opts.timeout, self.timeout),
                    })
                },
                Err(refused) => {
                    &&& or_client(opts.concurrency, self.concurrency) == 0
                    &&& answers(refused) == firsts(texts(ips@)).map_values(
                        |ip: Seq<char>| (ip, Err::<LookupView, ErrorView>(nothing_in_flight())),
                    )
                },
            },
    {
        let unique = dedupe(ips);
        let concurrency: usize = given_or(opts.concurrency, self.concurrency);
        if concurrency == 0 {
            let mut refused = no_answers();
            let ghost all = firsts(texts(ips@));
            proof {
                law_each_address_is_taken_once(texts(ips@), Seq::empty());
            }
            for i in 0..unique.len()
                invariant
                    all == texts(unique@),
                    all.no_duplicates(),
                    answers(refused) =~= all.take(i as int).map_values(
                        |ip: Seq<char>| (ip, Err::<LookupView, ErrorView>(nothing_in_flight())),
                    ),
            {
                let ghost before = answers(refused);
                proof {
                    not_yet_answered(before, all, i as int);
                }
                insert_answer(
                    &mut refused,
                    unique[i].clone(),
                    Err(Error::Config("concurrency must be at least 1".to_owned())),
                );
                assert(all.take(i + 1) =~= all.take(i as int).push(all[i as int]));
            }
            assert(all.take(all.len() as int) =~= all);
            return Err(refused);
        }
        proof {
            law_each_address_is_taken_once(texts(ips@), Seq::empty());
        }
        Ok(
            BatchCall {
                unique,
                caching: self.cache.is_some(),
                concurrency,
                retries: given_or(opts.retries, self.retries),
                timeout: given_or(opts.timeout, self.timeout),
            },
        )
    }
}

/// An address has no entry among those of the addresses before it.
proof fn not_yet_answered(
    entries: Seq<(Seq<char>, Result<LookupView, ErrorView>)>,
    ips: Seq<Seq<char>>,
    i: int,
)
    requires
        0 <= i < ips.len(),
        ips.no_duplicates(),
        entries.len() == i,
        forall|j: int| 0 <= j < i ==> (#[trigger] entries[j]).0 == ips[j],
    ensures
        crate::index::entry_at(entries, ips[i]) is None,
{
    crate::index::entry_at_finds(entries, ips[i]);
}

/// Which addresses the cache is to be read for: those that are no bogons, when
/// answers are kept.
pub open spec fn to_read(ips: Seq<Seq<char>>, caching: bool) -> Seq<bool> {
    ips.map_values(|ip: Seq<char>| caching && !bogon_text(ip))
}

impl BatchCall {
    #[verifier::type_invariant]
    spec fn distinct(self) -> bool {
        texts(self.unique@).no_duplicates()
    }

    /// The addresses, each once, in the order they were first seen.
    pub fn unique(&self) -> (r: &Vec<String>)
        ensures
            texts(r@) == self@.ips,
    {
        &self.unique
    }

    /// How many requests may be in flight at once.
    pub fn concurrency(&self) -> (r: usize)
        ensures
            r == self@.concurrency,
    {
        self.concurrency
    }

    /// Which addresses the cache is to be read for.
    pub fn reads(&self) -> (r: Vec<bool>)
        ensures
            r@ == to_read(self@.ips, self@.caching),
    {
        let mut r: Vec<bool> = Vec::new();
        for i in 0..self.unique.len()
            invariant
                r@ =~= to_read(texts(self.unique@), self.caching).take(i as int),
        {
            r.push(self.caching && !is_bogon(self.unique[i].as_str()));
        }
        assert(to_read(texts(self.unique@), self.caching).take(self.unique@.len() as int)
            =~= to_read(texts(self.unique@), self.caching));
        r
    }

    /// What is answered without a request, and what was missed, once the cache
    /// was read.
    pub fn plan(&self, hits: Vec<Option<Lookup>>) -> (r: Plan)
        requires
            hits@.len() == self@.ips.len(),
        ensures
            r.local@.len() == self@.ips.len(),
            forall|i: int|
                0 <= i < self@.ips.len() ==> hit_view(#[trigger] r.local@[i]) == local_answer(
                    self@.ips[i],
                    hit_view(hits@[i]),
                ),
            texts(r.pending@) == pending(self@.ips, hit_views(hits@)),
    {
        let mut local: Vec<Option<Lookup>> = Vec::new();
        let mut asked: Vec<String> = Vec::new();
        let ghost ips = texts(self.unique@);
        let ghost views = hit_views(hits@);
        assert(texts(asked@) =~= Seq::empty());
        for i in 0..self.unique.len()
            invariant
                ips == texts(self.unique@),
                views == hit_views(hits@),
                hits@.len() == self.unique@.len(),
                local@.len() == i,
                forall|j: int|
                    0 <= j < i ==> hit_view(#[trigger] local@[j]) == local_answer(
                        self.unique@[j]@,
                        hit_view(hits@[j]),
                    ),
                texts(asked@) == pending(ips.take(i as int), views.take(i as int)),
        {
            assert(ips.take(i + 1).drop_last() =~= ips.take(i as int));
            assert(views.take(i + 1).drop_last() =~= views.take(i as int));
            assert(views[i as int] == hit_view(hits@[i as int]));
            let ip = &self.unique[i];
            if is_bogon(ip.as_str()) {
                local.push(Some(bogon_lookup(ip.as_str())));
            } else {
                match &hits[i] {
                    Some(hit) => local.push(Some(hit.clone())),
                    None => {
                        let copy = ip.clone();
                        proof {
                            texts_push(asked@, copy);
                        }
                        asked.push(copy);
                        local.push(None);
                    },
                }
            }
        }
        assert(ips.take(ips.len() as int) =~= ips);
        assert(views.take(views.len() as int) =~= views);
        Plan { local, pending: asked }
    }

    /// Boards a flight for each address that was missed: one that has a flight is
    /// joined, and the others are asked about. A batch that keeps no answers
    /// misses nothing, and asks about every address.
    pub fn board(&self, flights: &mut Flights, pending: &Vec<String>) -> (r: Takeoff)
        requires
            old(flights)@.next + pending@.len() <= u64::MAX,
        ensures
            self@.caching ==> boarded(old(flights)@, texts(pending@)) == (Boarded {
                board: final(flights)@,
                led: seats(r.boarding.led@),
                joined: seats(r.boarding.joined@),
            }) && texts(r.asked@) == addresses(seats(r.boarding.led@)),
            !self@.caching ==> final(flights)@ == old(flights)@ && r.boarding.led@.len() == 0
                && r.boarding.joined@.len() == 0 && texts(r.asked@) == texts(pending@),
    {
        if !self.caching {
            return Takeoff {
                asked: copy_all(pending),
                boarding: Boarding { led: Vec::new(), joined: Vec::new() },
            };
        }
        let boarding = flights.board(pending);
        let mut asked: Vec<String> = Vec::new();
        let ghost led = seats(boarding.led@);
        assert(texts(asked@) =~= addresses(led).take(0));
        for i in 0..boarding.led.len()
            invariant
                led == seats(boarding.led@),
                texts(asked@) == addresses(led).take(i as int),
        {
            let copy = boarding.led[i].0.clone();
            proof {
                texts_push(asked@, copy);
            }
            asked.push(copy);
            assert(addresses(led).take(i + 1) =~= addresses(led).take(i as int).push(
                led[i as int].0,
            ));
        }
        assert(addresses(led).take(led.len() as int) =~= addresses(led));
        Takeoff { asked, boarding }
    }

    /// What is asked about once the cache was read again for the addresses to ask
    /// about: an answer may have landed since they were missed.
    pub fn lead(&self, asked: &Vec<String>, hits: Vec<Option<Lookup>>) -> (r: Leading)
        requires
            hits@.len() == asked@.len(),
        ensures
            entries_view(r.found@) == found(texts(asked@), hit_views(hits@)),
            chunk_texts(r.chunks@) == chunked(
                unfound(texts(asked@), hit_views(hits@)),
                BATCH_MAX as nat,
            ),
    {
        let mut at_hand: Vec<(String, Result<Lookup, Error>)> = Vec::new();
        let mut left: Vec<String> = Vec::new();
        let ghost ips = texts(asked@);
        let ghost views = hit_views(hits@);
        assert(texts(left@) =~= Seq::empty());
        assert(entries_view(at_hand@) =~= Seq::empty());
        for i in 0..asked.len()
            invariant
                ips == texts(asked@),
                views == hit_views(hits@),
                hits@.len() == asked@.len(),
                entries_view(at_hand@) == found(ips.take(i as int), views.take(i as int)),
                texts(left@) == unfound(ips.take(i as int), views.take(i as int)),
        {
            assert(ips.take(i + 1).drop_last() =~= ips.take(i as int));
            assert(views.take(i + 1).drop_last() =~= views.take(i as int));
            assert(views[i as int] == hit_view(hits@[i as int]));
            let copy = asked[i].clone();
            match &hits[i] {
                Some(hit) => {
                    let ghost before = at_hand@;
                    let answer: Result<Lookup, Error> = Ok(hit.clone());
                    at_hand.push((copy, answer));
                    assert(entries_view(at_hand@) =~= entries_view(before).push(
                        (ips[i as int], Ok(hit@)),
                    ));
                },
                None => {
                    proof {
                        texts_push(left@, copy);
                    }
                    left.push(copy);
                },
            }
        }
        assert(ips.take(ips.len() as int) =~= ips);
        assert(views.take(views.len() as int) =~= views);
        Leading { found: at_hand, chunks: chunks_of(&left) }
    }

    /// The request that asks about one chunk.
    pub fn request(&self, client: &Client, chunk: &Vec<String>) -> (r: Request)
        ensures
            r@ == batch_request(
                client@.base_url,
                client@.api_key,
                "/batch"@,
                texts(chunk@),
                self@.timeout,
            ),
    {
        client.transport.post_json("/batch", copy_all(chunk), self.timeout)
    }

    /// The attempts one chunk may take.
    pub fn retry(&self) -> (r: Retry)
        ensures
            r.remaining == self@.retries,
            r.delay@ == base_delay(),
    {
        Retry::new(self.retries)
    }
}

/// The addresses of flights.
pub open spec fn addresses(seats: Seq<(Seq<char>, u64)>) -> Seq<Seq<char>> {
    seats.map_values(|seat: (Seq<char>, u64)| seat.0)
}

/// The addresses an answer was found of, each with it, in order.
pub open spec fn found(ips: Seq<Seq<char>>, hits: Seq<Option<LookupView>>) -> Seq<
    (Seq<char>, Result<LookupView, ErrorView>),
>
    decreases ips.len(),
{
    if ips.len() == 0 || hits.len() == 0 {
        Seq::empty()
    } else {
        let before = found(ips.drop_last(), hits.drop_last());
        match hits.last() {
            Some(hit) => before.push((ips.last(), Ok(hit))),
            None => before,
        }
    }
}

/// The addresses no answer was found of, in order.
pub open spec fn unfound(ips: Seq<Seq<char>>, hits: Seq<Option<LookupView>>) -> Seq<Seq<char>>
    decreases ips.len(),
{
    if ips.len() == 0 || hits.len() == 0 {
        Seq::empty()
    } else {
        let before = unfound(ips.drop_last(), hits.drop_last());
        if hits.last() is None {
            before.push(ips.last())
        } else {
            before
        }
    }
}

pub open spec fn arrival_views(arrived: Seq<(String, Option<Result<Lookup, Error>>)>) -> Seq<
    (Seq<char>, Option<Result<LookupView, ErrorView>>),
> {
    arrived.map_values(
        |entry: (String, Option<Result<Lookup, Error>>)| (entry.0@, arrival_view(entry.1)),
    )
}

/// What landed of the flights that were joined, in order.
pub open spec fn arrived_with(
    arrived: Seq<(Seq<char>, Option<Result<LookupView, ErrorView>>)>,
) -> Seq<(Seq<char>, Result<LookupView, ErrorView>)>
    decreases arrived.len(),
{
    if arrived.len() == 0 {
        Seq::empty()
    } else {
        let before = arrived_with(arrived.drop_last());
        match arrived.last().1 {
            Some(outcome) => before.push((arrived.last().0, outcome)),
            None => before,
        }
    }
}

/// The addresses whose flight was given up, in order.
pub open spec fn given_up(
    arrived: Seq<(Seq<char>, Option<Result<LookupView, ErrorView>>)>,
) -> Seq<Seq<char>>
    decreases arrived.len(),
{
    if arrived.len() == 0 {
        Seq::empty()
    } else {
        let before = given_up(arrived.drop_last());
        if arrived.last().1 is None {
            before.push(arrived.last().0)
        } else {
            before
        }
    }
}

/// Parts what landed of the flights a batch joined from what is to be tried
/// again.
pub fn arrivals(arrived: Vec<(String, Option<Result<Lookup, Error>>)>) -> (r: Arrivals)
    ensures
        entries_view(r.landed@) == arrived_with(arrival_views(arrived@)),
        texts(r.again@) == given_up(arrival_views(arrived@)),
{
    let ghost all = arrival_views(arrived@);
    let mut landed: Vec<(String, Result<Lookup, Error>)> = Vec::new();
    let mut again: Vec<String> = Vec::new();
    assert(entries_view(landed@) =~= Seq::empty());
    assert(texts(again@) =~= Seq::empty());
    for entry in iter: arrived
        invariant
            iter.seq() == arrived@,
            all == arrival_views(arrived@),
            entries_view(landed@) == arrived_with(all.take(iter.index() as int)),
            texts(again@) == given_up(all.take(iter.index() as int)),
    {
        let ghost i = iter.index() as int;
        assert(all.take(i + 1).drop_last() =~= all.take(i));
        assert(all.take(i + 1).last() == (entry.0@, arrival_view(entry.1)));
        let ip = entry.0;
        match entry.1 {
            Some(outcome) => {
                let ghost before = landed@;
                landed.push((ip, outcome));
                assert(entries_view(landed@) =~= entries_view(before).push(
                    (ip@, outcome_view(outcome)),
                ));
            },
            None => {
                proof {
                    texts_push(again@, ip);
                }
                again.push(ip);
            },
        }
    }
    assert(all.take(all.len() as int) =~= all);
    Arrivals { landed, again }
}

/// The failure of one address within a batch that was answered.
#[derive(Debug)]
pub struct EntryFailure {
    pub error: String,
    pub status: i32,
}

/// The answer to one request for many addresses.
#[derive(Debug)]
pub struct BatchAnswer {
    pub results: Vec<(String, LookupResponse)>,
    pub errors: Vec<(String, EntryFailure)>,
}

/// The answers there are, by address. Of two for one address the later stands.
pub open spec fn results_map(pairs: Seq<(String, LookupResponse)>) -> Map<Seq<char>, AnswerView>
    decreases pairs.len(),
{
    if pairs.len() == 0 {
        Map::empty()
    } else {
        results_map(pairs.drop_last()).insert(pairs.last().0@, pairs.last().1@)
    }
}

/// The failures there are, by address. Of two for one address the later stands.
pub open spec fn errors_map(pairs: Seq<(String, EntryFailure)>) -> Map<Seq<char>, (Seq<char>, i32)>
    decreases pairs.len(),
{
    if pairs.len() == 0 {
        Map::empty()
    } else {
        errors_map(pairs.drop_last()).insert(
            pairs.last().0@,
            (pairs.last().1.error@, pairs.last().1.status),
        )
    }
}

/// The status of an entry, or that of a server error when it is no status.
pub open spec fn entry_status(status: i32) -> u16 {
    if 0 <= status <= u16::MAX {
        status as u16
    } else {
        500
    }
}

/// The failure of an address that an answer says nothing of.
pub open spec fn left_out(ip: Seq<char>) -> ErrorView {
    ErrorView::Api {
        kind: ErrorKind::ServerError,
        message: "the batch answer did not include "@ + ip,
        status: 200,
        retry_after: None,
    }
}

/// What each address of a chunk is answered. An answer or a failure is used up
/// by the address it is for.
pub open spec fn chunk_outcomes(
    chunk: Seq<Seq<char>>,
    results: Map<Seq<char>, AnswerView>,
    errors: Map<Seq<char>, (Seq<char>, i32)>,
) -> Seq<(Seq<char>, Result<LookupView, ErrorView>)>
    decreases chunk.len(),
{
    if chunk.len() == 0 {
        Seq::empty()
    } else {
        let ip = chunk[0];
        let rest = chunk.skip(1);
        if results.contains_key(ip) {
            seq![(ip, Ok::<LookupView, ErrorView>(served(results[ip])))] + chunk_outcomes(
                rest,
                results.remove(ip),
                errors,
            )
        } else if errors.contains_key(ip) {
            seq![
                (
                    ip,
                    Err::<LookupView, ErrorView>(
                        refused_entry(entry_status(errors[ip].1), errors[ip].0),
                    ),
                ),
            ] + chunk_outcomes(rest, results, errors.remove(ip))
        } else {
            seq![(ip, Err::<LookupView, ErrorView>(left_out(ip)))] + chunk_outcomes(
                rest,
                results,
                errors,
            )
        }
    }
}

pub open spec fn entries_view(entries: Seq<(String, Result<Lookup, Error>)>) -> Seq<
    (Seq<char>, Result<LookupView, ErrorView>),
> {
    entries.map_values(|entry: (String, Result<Lookup, Error>)| (entry.0@, outcome_view(entry.1)))
}

/// The places of answers stand for these answers by address.
spec fn places_results(
    places: Map<Seq<char>, usize>,
    pairs: Seq<(String, LookupResponse)>,
    map: Map<Seq<char>, AnswerView>,
) -> bool {
    &&& forall|k: Seq<char>| #[trigger] places.contains_key(k) == map.contains_key(k)
    &&& forall|k: Seq<char>| #[trigger]
        places.contains_key(k) ==> places[k] < pairs.len() && map[k] == pairs[places[k] as int].1@
}

/// The places of failures stand for these failures by address.
spec fn places_errors(
    places: Map<Seq<char>, usize>,
    pairs: Seq<(String, EntryFailure)>,
    map: Map<Seq<char>, (Seq<char>, i32)>,
) -> bool {
    &&& forall|k: Seq<char>| #[trigger] places.contains_key(k) == map.contains_key(k)
    &&& forall|k: Seq<char>| #[trigger]
        places.contains_key(k) ==> places[k] < pairs.len() && map[k] == (
            pairs[places[k] as int].1.error@,
            pairs[places[k] as int].1.status,
        )
}

fn place_results(pairs: &Vec<(String, LookupResponse)>) -> (r: StringHashMap<usize>)
    ensures
        places_results(r@, pairs@, results_map(pairs@)),
{
    let mut r: StringHashMap<usize> = StringHashMap::new();
    for i in 0..pairs.len()
        invariant
            places_results(r@, pairs@, results_map(pairs@.take(i as int))),
    {
        assert(pairs@.take(i + 1).drop_last() =~= pairs@.take(i as int));
        r.insert(pairs[i].0.clone(), i);
    }
    assert(pairs@.take(pairs@.len() as int) =~= pairs@);
    r
}

fn place_errors(pairs: &Vec<(String, EntryFailure)>) -> (r: StringHashMap<usize>)
    ensures
        places_errors(r@, pairs@, errors_map(pairs@)),
{
    let mut r: StringHashMap<usize> = StringHashMap::new();
    for i in 0..pairs.len()
        invariant
            places_errors(r@, pairs@, errors_map(pairs@.take(i as int))),
    {
        assert(pairs@.take(i + 1).drop_last() =~= pairs@.take(i as int));
        r.insert(pairs[i].0.clone(), i);
    }
    assert(pairs@.take(pairs@.len() as int) =~= pairs@);
    r
}

fn status_of(status: i32) -> (r: u16)
    ensures
        r == entry_status(status),
{
    if 0 <= status && status <= u16::MAX as i32 {
        status as u16
    } else {
        500
    }
}

/// What each address of a chunk is answered when the chunk fails as a whole.
pub open spec fn chunk_failed(chunk: Seq<Seq<char>>, failure: ErrorView) -> Seq<
    (Seq<char>, Result<LookupView, ErrorView>),
> {
    chunk.map_values(|ip: Seq<char>| (ip, Err::<LookupView, ErrorView>(failure.restated())))
}

/// Maps the answer to one request back onto the addresses it was asked about. A
/// failure of the request as a whole becomes the failure of every address.
pub fn lookup_chunk(chunk: &Vec<String>, answered: Result<BatchAnswer, Error>) -> (r: Vec<
    (String, Result<Lookup, Error>),
>)
    ensures
        entries_view(r@) == match answered {
            Ok(body) => chunk_outcomes(
                texts(chunk@),
                results_map(body.results@),
                errors_map(body.errors@),
            ),
            Err(e) => chunk_failed(texts(chunk@), e@),
        },
{
    let mut out: Vec<(String, Result<Lookup, Error>)> = Vec::new();
    let ghost ips = texts(chunk@);
    match answered {
        Err(e) => {
            for i in 0..chunk.len()
                invariant
                    ips == texts(chunk@),
                    entries_view(out@) =~= chunk_failed(ips, e@).take(i as int),
            {
                let ghost before = out@;
                out.push((chunk[i].clone(), Err(e.restated())));
                assert(entries_view(out@) =~= entries_view(before).push(
                    chunk_failed(ips, e@)[i as int],
                ));
            }
            assert(chunk_failed(ips, e@).take(chunk@.len() as int) =~= chunk_failed(ips, e@));
        },
        Ok(body) => {
            let mut results = place_results(&body.results);
            let mut errors = place_errors(&body.errors);
            let ghost mut served_left = results_map(body.results@);
            let ghost mut failed_left = errors_map(body.errors@);
            let ghost all = chunk_outcomes(ips, served_left, failed_left);
            assert(ips.skip(0) =~= ips);
            assert(entries_view(out@) + all =~= all);
            for i in 0..chunk.len()
                invariant
                    ips == texts(chunk@),
                    places_results(results@, body.results@, served_left),
                    places_errors(errors@, body.errors@, failed_left),
                    entries_view(out@) + chunk_outcomes(
                        ips.skip(i as int),
                        served_left,
                        failed_left,
                    ) == all,
            {
                let ghost before = out@;
                let ghost rest = ips.skip(i as int);
                assert(rest.skip(1) =~= ips.skip(i + 1));
                assert(rest[0] == chunk@[i as int]@);
                let ip = chunk[i].as_str();
                let answer = match results.get(ip) {
                    Some(place) => {
                        let lookup = Lookup::served(body.results[*place].1.clone());
                        Ok(lookup)
                    },
                    None => match errors.get(ip) {
                        Some(place) => {
                            let failed = &body.errors[*place].1;
                            Err(
                                Error::from_entry(
                                    status_of(failed.status),
                                    failed.error.as_str(),
                                ),
                            )
                        },
                        None => Err(
                            Error::Api {
                                kind: ErrorKind::ServerError,
                                message: concat("the batch answer did not include ", ip),
                                status: 200,
                                retry_after: None,
                            },
                        ),
                    },
                };
                if results.contains_key(ip) {
                    results.remove(ip);
                    proof {
                        served_left = served_left.remove(ip@);
                    }
                } else if errors.contains_key(ip) {
                    errors.remove(ip);
                    proof {
                        failed_left = failed_left.remove(ip@);
                    }
                }
                out.push((chunk[i].clone(), answer));
                assert(entries_view(out@) =~= entries_view(before).push(
                    (ip@, outcome_view(answer)),
                ));
                assert(entries_view(out@) + chunk_outcomes(
                    ips.skip(i + 1),
                    served_left,
                    failed_left,
                ) =~= all);
            }
            assert(ips.skip(ips.len() as int) =~= Seq::empty());
            assert(entries_view(out@) + chunk_outcomes(Seq::empty(), served_left, failed_left)
                =~= entries_view(out@));
        },
    }
    out
}

/// A chunk answers the addresses it was asked about, each once and in order.
pub proof fn law_a_chunk_answers_what_it_was_asked(
    chunk: Seq<Seq<char>>,
    results: Map<Seq<char>, AnswerView>,
    errors: Map<Seq<char>, (Seq<char>, i32)>,
)
    ensures
        chunk_outcomes(chunk, results, errors).len() == chunk.len(),
        forall|i: int|
            0 <= i < chunk.len() ==> (#[trigger] chunk_outcomes(chunk, results, errors)[i]).0
                == chunk[i],
    decreases chunk.len(),
{
    if chunk.len() > 0 {
        let ip = chunk[0];
        let rest = chunk.skip(1);
        let (results_left, errors_left) = if results.contains_key(ip) {
            (results.remove(ip), errors)
        } else if errors.contains_key(ip) {
            (results, errors.remove(ip))
        } else {
            (results, errors)
        };
        law_a_chunk_answers_what_it_was_asked(rest, results_left, errors_left);
        let all = chunk_outcomes(chunk, results, errors);
        let after = chunk_outcomes(rest, results_left, errors_left);
        assert(all.skip(1) =~= after);
        assert forall|i: int| 0 <= i < chunk.len() implies (#[trigger] all[i]).0 == chunk[i] by {
            if i > 0 {
                assert(all[i] == after[i - 1]);
                assert(rest[i - 1] == chunk[i]);
            }
        }
    }
}

/// One bad entry does not lose the rest: each address of a chunk whose addresses
/// differ is answered by what the answer has for it, whatever it has for the
/// others.
pub proof fn law_an_entry_is_answered_for_itself(
    chunk: Seq<Seq<char>>,
    results: Map<Seq<char>, AnswerView>,
    errors: Map<Seq<char>, (Seq<char>, i32)>,
    i: int,
)
    requires
        chunk.no_duplicates(),
        0 <= i < chunk.len(),
    ensures
        chunk_outcomes(chunk, results, errors)[i].1 == (if results.contains_key(chunk[i]) {
            Ok::<LookupView, ErrorView>(served(results[chunk[i]]))
        } else if errors.contains_key(chunk[i]) {
            Err(refused_entry(entry_status(errors[chunk[i]].1), errors[chunk[i]].0))
        } else {
            Err(left_out(chunk[i]))
        }),
    decreases chunk.len(),
{
    if i > 0 {
        let ip = chunk[0];
        let rest = chunk.skip(1);
        let (results_left, errors_left) = if results.contains_key(ip) {
            (results.remove(ip), errors)
        } else if errors.contains_key(ip) {
            (results, errors.remove(ip))
        } else {
            (results, errors)
        };
        assert(rest.no_duplicates());
        assert(rest[i - 1] == chunk[i]);
        law_an_entry_is_answered_for_itself(rest, results_left, errors_left, i - 1);
        law_a_chunk_answers_what_it_was_asked(rest, results_left, errors_left);
        assert(chunk_outcomes(chunk, results, errors)[i] == chunk_outcomes(
            rest,
            results_left,
            errors_left,
        )[i - 1]);
    }
}

/// The last answer there is for an address.
pub open spec fn landed_for(
    landed: Seq<(Seq<char>, Result<LookupView, ErrorView>)>,
    ip: Seq<char>,
) -> Option<Result<LookupView, ErrorView>>
    decreases landed.len(),
{
    if landed.len() == 0 {
        None
    } else if landed.last().0 == ip {
        Some(landed.last().1)
    } else {
        landed_for(landed.drop_last(), ip)
    }
}

/// What a batch hands over: each address with what it was answered locally, or
/// else with what landed for it.
pub open spec fn batch_answers(
    ips: Seq<Seq<char>>,
    local: Seq<Option<LookupView>>,
    landed: Seq<(Seq<char>, Result<LookupView, ErrorView>)>,
) -> Seq<(Seq<char>, Result<LookupView, ErrorView>)> {
    Seq::new(
        ips.len(),
        |i: int|
            (
                ips[i],
                match local[i] {
                    Some(lookup) => Ok::<LookupView, ErrorView>(lookup),
                    None => landed_for(landed, ips[i])->0,
                },
            ),
    )
}

/// Whether every address was answered locally or has landed.
pub open spec fn all_answered(
    ips: Seq<Seq<char>>,
    local: Seq<Option<LookupView>>,
    landed: Seq<(Seq<char>, Result<LookupView, ErrorView>)>,
) -> bool {
    &&& local.len() == ips.len()
    &&& forall|i: int|
        0 <= i < ips.len() && #[trigger] local[i] is None ==> landed_for(landed, ips[i]) is Some
}

spec fn places_landed(
    places: Map<Seq<char>, usize>,
    landed: Seq<(Seq<char>, Result<LookupView, ErrorView>)>,
) -> bool {
    &&& forall|k: Seq<char>| #[trigger] places.contains_key(k) == (landed_for(landed, k) is Some)
    &&& forall|k: Seq<char>| #[trigger]
        places.contains_key(k) ==> places[k] < landed.len() && landed[places[k] as int].0 == k
            && landed_for(landed, k) == Some(landed[places[k] as int].1)
}

fn place_landed(landed: &Vec<(String, Result<Lookup, Error>)>) -> (r: StringHashMap<usize>)
    ensures
        places_landed(r@, entries_view(landed@)),
{
    let mut r: StringHashMap<usize> = StringHashMap::new();
    let ghost views = entries_view(landed@);
    for i in 0..landed.len()
        invariant
            views == entries_view(landed@),
            places_landed(r@, views.take(i as int)),
    {
        assert(views.take(i + 1).drop_last() =~= views.take(i as int));
        let ghost before = r@;
        r.insert(landed[i].0.clone(), i);
        proof {
            let now = views.take(i + 1);
            assert(now.last() == views[i as int]);
            assert forall|k: Seq<char>| #[trigger] r@.contains_key(k) implies r@[k] < now.len()
                && now[r@[k] as int].0 == k && landed_for(now, k) == Some(
                now[r@[k] as int].1,
            ) by {
                if k != landed@[i as int].0@ {
                    assert(before.contains_key(k));
                    assert(views.take(i as int)[before[k] as int] == now[before[k] as int]);
                }
            }
        }
    }
    assert(views.take(views.len() as int) =~= views);
    r
}

/// The answers among those that landed: what is kept of them.
pub open spec fn to_keep(landed: Seq<(Seq<char>, Result<LookupView, ErrorView>)>) -> Seq<
    (Seq<char>, LookupView),
>
    decreases landed.len(),
{
    if landed.len() == 0 {
        Seq::empty()
    } else {
        match landed.last().1 {
            Ok(lookup) => to_keep(landed.drop_last()).push((landed.last().0, lookup)),
            Err(_) => to_keep(landed.drop_last()),
        }
    }
}

pub open spec fn kept_views(kept: Seq<(String, Lookup)>) -> Seq<(Seq<char>, LookupView)> {
    kept.map_values(|entry: (String, Lookup)| (entry.0@, entry.1@))
}

/// What is kept of a chunk is answers it landed, and every one of them.
pub proof fn law_a_batch_keeps_what_was_served(
    landed: Seq<(Seq<char>, Result<LookupView, ErrorView>)>,
    ip: Seq<char>,
    lookup: LookupView,
)
    ensures
        to_keep(landed).contains((ip, lookup)) == landed.contains((ip, Ok(lookup))),
    decreases landed.len(),
{
    if landed.len() > 0 {
        let front = landed.drop_last();
        law_a_batch_keeps_what_was_served(front, ip, lookup);
        assert(landed =~= front.push(landed.last()));
        assert(landed.last() == landed[landed.len() - 1]);
        if front.contains((ip, Ok(lookup))) {
            let k = front.index_of((ip, Ok(lookup)));
            assert(landed[k] == (ip, Ok::<LookupView, ErrorView>(lookup)));
        }
        if to_keep(front).contains((ip, lookup)) {
            let k = to_keep(front).index_of((ip, lookup));
            assert(to_keep(landed)[k] == (ip, lookup));
        }
        if landed.last() == (ip, Ok::<LookupView, ErrorView>(lookup)) {
            assert(to_keep(landed).last() == (ip, lookup));
            assert(to_keep(landed).contains((ip, lookup)));
        }
        if landed.contains((ip, Ok(lookup))) {
            let k = landed.index_of((ip, Ok(lookup)));
            if k < front.len() {
                assert(front[k] == (ip, Ok::<LookupView, ErrorView>(lookup)));
            }
        }
        if to_keep(landed).contains((ip, lookup)) {
            let k = to_keep(landed).index_of((ip, lookup));
            if k < to_keep(front).len() {
                assert(to_keep(front)[k] == (ip, lookup));
            }
        }
    }
}

impl BatchCall {
    /// The answers of a chunk to put in the cache: those that were served, when
    /// answers are kept.
    pub fn keeps(&self, landed: &Vec<(String, Result<Lookup, Error>)>) -> (r: Vec<(String, Lookup)>)
        ensures
            kept_views(r@) == (if self@.caching {
                to_keep(entries_view(landed@))
            } else {
                Seq::empty()
            }),
    {
        let mut r: Vec<(String, Lookup)> = Vec::new();
        assert(kept_views(r@) =~= Seq::empty());
        if !self.caching {
            return r;
        }
        let ghost all = entries_view(landed@);
        for i in 0..landed.len()
            invariant
                all == entries_view(landed@),
                kept_views(r@) == to_keep(all.take(i as int)),
        {
            let ghost before = r@;
            assert(all.take(i + 1).drop_last() =~= all.take(i as int));
            assert(all.take(i + 1).last() == (landed@[i as int].0@, outcome_view(
                landed@[i as int].1,
            )));
            match &landed[i].1 {
                Ok(lookup) => {
                    r.push((landed[i].0.as_str().to_owned(), lookup.clone()));
                    assert(kept_views(r@) =~= kept_views(before).push(
                        (landed@[i as int].0@, lookup@),
                    ));
                },
                Err(_) => {},
            }
        }
        assert(all.take(all.len() as int) =~= all);
        r
    }

    /// Whether a batch can be put together: every address was answered locally
    /// or has landed.
    pub fn answered(
        &self,
        local: &Vec<Option<Lookup>>,
        landed: &Vec<(String, Result<Lookup, Error>)>,
    ) -> (r: bool)
        ensures
            r == all_answered(self@.ips, hit_views(local@), entries_view(landed@)),
    {
        if local.len() != self.unique.len() {
            return false;
        }
        let places = place_landed(landed);
        let ghost ips = texts(self.unique@);
        let ghost lookups = hit_views(local@);
        let ghost views = entries_view(landed@);
        for i in 0..local.len()
            invariant
                ips == texts(self.unique@),
                ips == self@.ips,
                lookups == hit_views(local@),
                views == entries_view(landed@),
                local@.len() == self.unique@.len(),
                places_landed(places@, views),
                forall|j: int|
                    0 <= j < i && #[trigger] lookups[j] is None ==> landed_for(views, ips[j]) is Some,
        {
            assert(lookups[i as int] == hit_view(local@[i as int]));
            if local[i].is_none() && !places.contains_key(self.unique[i].as_str()) {
                assert(landed_for(views, ips[i as int]) is None);
                return false;
            }
        }
        true
    }

    /// Puts a batch together once every chunk has landed, in whatever order they
    /// did: every address is handed over once, in the order it was first seen.
    pub fn finish(
        self,
        local: Vec<Option<Lookup>>,
        landed: Vec<(String, Result<Lookup, Error>)>,
    ) -> (r: IndexMap<String, Result<Lookup, Error>>)
        requires
            all_answered(self@.ips, hit_views(local@), entries_view(landed@)),
        ensures
            answers(r) == batch_answers(self@.ips, hit_views(local@), entries_view(landed@)),
    {
        proof {
            use_type_invariant(&self);
        }
        let ghost ips = texts(self.unique@);
        let ghost lookups = hit_views(local@);
        let ghost views = entries_view(landed@);
        let ghost all = batch_answers(ips, lookups, views);
        let places = place_landed(&landed);
        let mut slots = slots_of(landed);
        let mut r = no_answers();
        assert forall|j: int| 0 <= j < local@.len() && #[trigger] local@[j] is None implies landed_for(
            views,
            self.unique@[j]@,
        ) is Some by {
            assert(lookups[j] is None);
        }
        for i in 0..self.unique.len()
            invariant
                ips == texts(self.unique@),
                ips.no_duplicates(),
                lookups == hit_views(local@),
                local@.len() == self.unique@.len(),
                all == batch_answers(ips, lookups, views),
                places_landed(places@, views),
                slots@.len() == views.len(),
                forall|j: int|
                    0 <= j < local@.len() && #[trigger] local@[j] is None ==> landed_for(
                        views,
                        self.unique@[j]@,
                    ) is Some,
                forall|k: Seq<char>| #[trigger]
                    places@.contains_key(k) && (forall|j: int| 0 <= j < i ==> ips[j] != k) ==> (
                    slots@[places@[k] as int] matches Some(answer) && outcome_view(answer)
                        == views[places@[k] as int].1),
                answers(r) =~= all.take(i as int),
        {
            let ghost before = answers(r);
            proof {
                not_yet_answered(before, ips, i as int);
            }
            assert(ips[i as int] == self.unique@[i as int]@);
            assert(lookups[i as int] == hit_view(local@[i as int]));
            let answer = match &local[i] {
                Some(lookup) => Ok(lookup.clone()),
                None => match places.get(self.unique[i].as_str()) {
                    Some(place) => match take_slot(&mut slots, *place) {
                        Some(answer) => answer,
                        None => vstd::pervasive::unreached(),
                    },
                    None => vstd::pervasive::unreached(),
                },
            };
            insert_answer(&mut r, self.unique[i].clone(), answer);
            assert(all.take(i + 1) =~= all.take(i as int).push(all[i as int]));
            assert forall|k: Seq<char>| #[trigger]
                places@.contains_key(k) && (forall|j: int| 0 <= j < i + 1 ==> ips[j] != k) implies (
            slots@[places@[k] as int] matches Some(answer) && outcome_view(answer)
                == views[places@[k] as int].1) by {
                assert(ips[i as int] != k);
            }
        }
        assert(all.take(all.len() as int) =~= all);
        r
    }
}

/// Makes answers that can be taken out one by one.
fn slots_of(landed: Vec<(String, Result<Lookup, Error>)>) -> (r: Vec<Option<Result<Lookup, Error>>>)
    ensures
        r@.len() == landed@.len(),
        forall|i: int|
            0 <= i < landed@.len() ==> (#[trigger] r@[i] matches Some(answer) && outcome_view(answer)
                == outcome_view(landed@[i].1)),
{
    let mut landed = landed;
    let ghost all = landed@;
    let mut back: Vec<Option<Result<Lookup, Error>>> = Vec::new();
    while landed.len() > 0
        invariant
            landed@.len() + back@.len() == all.len(),
            landed@ == all.take(landed@.len() as int),
            forall|i: int|
                0 <= i < back@.len() ==> (#[trigger] back@[i] matches Some(answer) && outcome_view(
                    answer,
                ) == outcome_view(all[all.len() - 1 - i].1)),
        decreases landed@.len(),
    {
        match landed.pop() {
            Some(entry) => {
                back.push(Some(entry.1));
            },
            None => {},
        }
    }
    let mut r: Vec<Option<Result<Lookup, Error>>> = Vec::new();
    while back.len() > 0
        invariant
            r@.len() + back@.len() == all.len(),
            forall|i: int|
                0 <= i < back@.len() ==> (#[trigger] back@[i] matches Some(answer) && outcome_view(
                    answer,
                ) == outcome_view(all[all.len() - 1 - i].1)),
            forall|i: int|
                0 <= i < r@.len() ==> (#[trigger] r@[i] matches Some(answer) && outcome_view(answer)
                    == outcome_view(all[i].1)),
        decreases back@.len(),
    {
        match back.pop() {
            Some(slot) => {
                r.push(slot);
            },
            None => {},
        }
    }
    r
}

fn take_slot(slots: &mut Vec<Option<Result<Lookup, Error>>>, at: usize) -> (r: Option<
    Result<Lookup, Error>,
>)
    requires
        at < old(slots)@.len(),
    ensures
        r == old(slots)@[at as int],
        final(slots)@ == old(slots)@.update(at as int, None),
{
    let mut r: Option<Result<Lookup, Error>> = None;
    std::mem::swap(&mut r, &mut slots[at]);
    r
}

proof fn landed_for_is(
    landed: Seq<(Seq<char>, Result<LookupView, ErrorView>)>,
    ip: Seq<char>,
)
    ensures
        match landed_for(landed, ip) {
            Some(answer) => landed.contains((ip, answer)),
            None => forall|i: int| 0 <= i < landed.len() ==> (#[trigger] landed[i]).0 != ip,
        },
    decreases landed.len(),
{
    if landed.len() > 0 {
        let front = landed.drop_last();
        landed_for_is(front, ip);
        if landed.last().0 == ip {
            assert(landed[landed.len() - 1] == (ip, landed.last().1));
        } else {
            match landed_for(front, ip) {
                Some(answer) => {
                    let k = choose|k: int| 0 <= k < front.len() && front[k] == (ip, answer);
                    assert(landed[k] == (ip, answer));
                },
                None => {
                    assert forall|i: int| 0 <= i < landed.len() implies (#[trigger] landed[i]).0
                        != ip by {
                        if i < front.len() {
                            assert(front[i].0 != ip);
                        }
                    }
                },
            }
        }
    }
}

/// The order in which answers land does not matter, as long as each address has
/// one.
pub proof fn law_landing_order_does_not_matter(
    a: Seq<(Seq<char>, Result<LookupView, ErrorView>)>,
    b: Seq<(Seq<char>, Result<LookupView, ErrorView>)>,
    ip: Seq<char>,
)
    requires
        a.to_multiset() == b.to_multiset(),
        forall|i: int, j: int|
            0 <= i < j < a.len() ==> (#[trigger] a[i]).0 != (#[trigger] a[j]).0,
    ensures
        landed_for(a, ip) == landed_for(b, ip),
{
    broadcast use vstd::seq_lib::group_to_multiset_ensures;

    landed_for_is(a, ip);
    landed_for_is(b, ip);
    match landed_for(b, ip) {
        Some(answer) => {
            assert(b.to_multiset().contains((ip, answer)));
            assert(a.contains((ip, answer)));
            let k = choose|k: int| 0 <= k < a.len() && a[k] == (ip, answer);
            let other = landed_for(a, ip);
            assert(a[k].0 == ip);
            assert(other is Some);
            let m = choose|m: int| 0 <= m < a.len() && a[m] == (ip, other->0);
            assert(a[m].0 == a[k].0);
        },
        None => {
            match landed_for(a, ip) {
                Some(answer) => {
                    assert(a.to_multiset().contains((ip, answer)));
                    assert(b.contains((ip, answer)));
                    let k = choose|k: int| 0 <= k < b.len() && b[k] == (ip, answer);
                    assert(b[k].0 == ip);
                },
                None => {},
            }
        },
    }
}

/// The answers of a batch are keyed by its addresses, each once, in the order
/// they were first seen.
pub proof fn law_answers_are_keyed_in_the_order_asked(
    asked: Seq<Seq<char>>,
    local: Seq<Option<LookupView>>,
    landed: Seq<(Seq<char>, Result<LookupView, ErrorView>)>,
)
    ensures
        batch_answers(firsts(asked), local, landed).len() == firsts(asked).len(),
        forall|i: int|
            0 <= i < firsts(asked).len() ==> (#[trigger] batch_answers(
                firsts(asked),
                local,
                landed,
            )[i]).0 == firsts(asked)[i],
        forall|i: int, j: int|
            0 <= i < j < firsts(asked).len() ==> (#[trigger] batch_answers(
                firsts(asked),
                local,
                landed,
            )[i]).0 != (#[trigger] batch_answers(firsts(asked), local, landed)[j]).0,
{
    law_each_address_is_taken_once(asked, Seq::empty());
}

/// What is asked about is exactly what was not answered without a request.
pub proof fn law_only_what_is_unanswered_is_asked(
    ips: Seq<Seq<char>>,
    hits: Seq<Option<LookupView>>,
    ip: Seq<char>,
)
    requires
        ips.len() == hits.len(),
    ensures
        pending(ips, hits).contains(ip) == exists|i: int|
            0 <= i < ips.len() && #[trigger] ips[i] == ip && local_answer(ips[i], hits[i]) is None,
    decreases ips.len(),
{
    if ips.len() > 0 {
        let front = ips.drop_last();
        let front_hits = hits.drop_last();
        let before = pending(front, front_hits);
        law_only_what_is_unanswered_is_asked(front, front_hits, ip);
        if before.contains(ip) {
            let i = choose|i: int|
                0 <= i < front.len() && #[trigger] front[i] == ip && local_answer(
                    front[i],
                    front_hits[i],
                ) is None;
            assert(ips[i] == ip);
        }
        if exists|i: int|
            0 <= i < ips.len() && #[trigger] ips[i] == ip && local_answer(
                ips[i],
                hits[i],
            ) is None {
            let i = choose|i: int|
                0 <= i < ips.len() && #[trigger] ips[i] == ip && local_answer(
                    ips[i],
                    hits[i],
                ) is None;
            if i < front.len() {
                assert(front[i] == ip);
            }
        }
        if local_answer(ips.last(), hits.last()) is None {
            let after = before.push(ips.last());
            assert(after[before.len() as int] == ips.last());
            assert(ips[ips.len() - 1] == ips.last());
            if before.contains(ip) {
                let k = choose|k: int| 0 <= k < before.len() && before[k] == ip;
                assert(after[k] == ip);
            }
        }
    }
}

/// A batch whose chunks have all landed can be put together.
pub proof fn law_a_batch_is_whole_once_its_chunks_landed(
    ips: Seq<Seq<char>>,
    hits: Seq<Option<LookupView>>,
    landed: Seq<(Seq<char>, Result<LookupView, ErrorView>)>,
)
    requires
        ips.len() == hits.len(),
        forall|ip: Seq<char>| #[trigger]
            pending(ips, hits).contains(ip) ==> exists|k: int|
                0 <= k < landed.len() && (#[trigger] landed[k]).0 == ip,
    ensures
        all_answered(
            ips,
            Seq::new(ips.len(), |i: int| local_answer(ips[i], hits[i])),
            landed,
        ),
{
    let local = Seq::new(ips.len(), |i: int| local_answer(ips[i], hits[i]));
    assert forall|i: int| 0 <= i < ips.len() && #[trigger] local[i] is None implies landed_for(
        landed,
        ips[i],
    ) is Some by {
        law_only_what_is_unanswered_is_asked(ips, hits, ips[i]);
        assert(pending(ips, hits).contains(ips[i]));
        landed_for_is(landed, ips[i]);
    }
}

/// A batch asks about no address that has a request in flight: it joins the
/// flight, whatever the second read of the cache gives.
pub proof fn law_a_batch_asks_about_nothing_in_flight(
    board: FlightsView,
    missed: Seq<Seq<char>>,
    hits: Seq<Option<LookupView>>,
    ip: Seq<char>,
)
    requires
        board.sound(),
        board.next + missed.len() <= u64::MAX,
        board.flying.contains_key(ip),
    ensures
        ({
            let led = addresses(boarded(board, missed).led);
            &&& !led.contains(ip)
            &&& !laid_out(chunked(unfound(led, hits), BATCH_MAX as nat)).contains(ip)
            &&& missed.contains(ip) ==> boarded(board, missed).joined.contains(
                (ip, board.flying[ip]),
            )
        }),
{
    law_an_address_in_flight_is_joined(board, missed, ip);
    let seats = boarded(board, missed).led;
    let led = addresses(seats);
    if led.contains(ip) {
        let k = led.index_of(ip);
        assert(seats[k].0 == ip);
    }
    law_chunks_hold_what_is_pending(unfound(led, hits), BATCH_MAX as nat);
    unfound_among(led, hits, ip);
    if missed.contains(ip) {
        joins_what_flies(board, missed, ip);
    }
}

proof fn unfound_among(ips: Seq<Seq<char>>, hits: Seq<Option<LookupView>>, ip: Seq<char>)
    ensures
        unfound(ips, hits).contains(ip) ==> ips.contains(ip),
    decreases ips.len(),
{
    if ips.len() > 0 && hits.len() > 0 && unfound(ips, hits).contains(ip) {
        let front = ips.drop_last();
        let before = unfound(front, hits.drop_last());
        unfound_among(front, hits.drop_last(), ip);
        let k = unfound(ips, hits).index_of(ip);
        if k < before.len() {
            assert(before[k] == ip);
            assert(front[front.index_of(ip)] == ip);
            assert(ips[front.index_of(ip)] == ip);
        } else {
            assert(ips[ips.len() - 1] == ip);
        }
    }
}

proof fn joins_what_flies(board: FlightsView, missed: Seq<Seq<char>>, ip: Seq<char>)
    requires
        board.sound(),
        board.next + missed.len() <= u64::MAX,
        board.flying.contains_key(ip),
        missed.contains(ip),
    ensures
        boarded(board, missed).joined.contains((ip, board.flying[ip])),
    decreases missed.len(),
{
    let front = missed.drop_last();
    let before = boarded(board, front);
    let after = boarded(board, missed);
    crate::flight::law_every_address_boarded_has_a_flight(board, front);
    assert(before.board.flying.contains_key(ip));
    if missed.last() == ip {
        assert(after.joined.last() == (ip, board.flying[ip]));
    } else {
        let k = missed.index_of(ip);
        assert(front[k] == ip);
        joins_what_flies(board, front, ip);
        let m = before.joined.index_of((ip, board.flying[ip]));
        assert(after.joined[m] == (ip, board.flying[ip]));
    }
}

/// Every address a batch missed is asked about or joined, so that each is
/// answered once what it leads and what it joined has landed.
pub proof fn law_what_is_missed_is_asked_or_joined(
    board: FlightsView,
    missed: Seq<Seq<char>>,
    ip: Seq<char>,
)
    requires
        missed.contains(ip),
    ensures
        addresses(boarded(board, missed).led).contains(ip) || addresses(
            boarded(board, missed).joined,
        ).contains(ip),
    decreases missed.len(),
{
    let front = missed.drop_last();
    let before = boarded(board, front);
    let after = boarded(board, missed);
    if missed.last() == ip {
        if before.board.flying.contains_key(ip) {
            assert(addresses(after.joined)[before.joined.len() as int] == ip);
        } else {
            assert(addresses(after.led)[before.led.len() as int] == ip);
        }
    } else {
        let k = missed.index_of(ip);
        assert(front[k] == ip);
        law_what_is_missed_is_asked_or_joined(board, front, ip);
        if addresses(before.led).contains(ip) {
            let m = addresses(before.led).index_of(ip);
            assert(before.led[m].0 == ip);
            assert(addresses(after.led)[m] == ip);
        } else {
            let m = addresses(before.joined).index_of(ip);
            assert(before.joined[m].0 == ip);
            assert(addresses(after.joined)[m] == ip);
        }
    }
}

/// Of the addresses a batch leads, those found when the cache was read again are
/// answered with what was found, and the others are asked about.
pub proof fn law_what_is_led_is_found_or_asked(
    ips: Seq<Seq<char>>,
    hits: Seq<Option<LookupView>>,
    i: int,
)
    requires
        ips.len() == hits.len(),
        0 <= i < ips.len(),
    ensures
        match hits[i] {
            Some(hit) => found(ips, hits).contains((ips[i], Ok(hit))),
            None => unfound(ips, hits).contains(ips[i]),
        },
        found(ips, hits).len() + unfound(ips, hits).len() == ips.len(),
    decreases ips.len(),
{
    let front = ips.drop_last();
    let left = hits.drop_last();
    if front.len() > 0 {
        law_what_is_led_is_found_or_asked(front, left, if i < front.len() {
            i
        } else {
            0
        });
    } else {
        assert(found(front, left).len() + unfound(front, left).len() == 0);
    }
    if i < front.len() {
        assert(front[i] == ips[i] && left[i] == hits[i]);
        match hits[i] {
            Some(hit) => {
                let entry = (ips[i], Ok::<LookupView, ErrorView>(hit));
                let k = found(front, left).index_of(entry);
                assert(found(ips, hits)[k] == entry);
            },
            None => {
                let k = unfound(front, left).index_of(ips[i]);
                assert(unfound(ips, hits)[k] == ips[i]);
            },
        }
    } else {
        match hits[i] {
            Some(hit) => {
                let entry = (ips[i], Ok::<LookupView, ErrorView>(hit));
                assert(found(ips, hits)[found(front, left).len() as int] == entry);
            },
            None => {
                assert(unfound(ips, hits)[unfound(front, left).len() as int] == ips[i]);
            },
        }
    }
}

/// An address whose flight landed is answered by it, and one whose flight was
/// given up is tried again.
pub proof fn law_what_is_joined_arrives_or_is_tried_again(
    arrived: Seq<(Seq<char>, Option<Result<LookupView, ErrorView>>)>,
    i: int,
)
    requires
        0 <= i < arrived.len(),
    ensures
        match arrived[i].1 {
            Some(outcome) => arrived_with(arrived).contains((arrived[i].0, outcome)),
            None => given_up(arrived).contains(arrived[i].0),
        },
        arrived_with(arrived).len() + given_up(arrived).len() == arrived.len(),
    decreases arrived.len(),
{
    let front = arrived.drop_last();
    if front.len() > 0 {
        law_what_is_joined_arrives_or_is_tried_again(front, if i < front.len() {
            i
        } else {
            0
        });
    } else {
        assert(arrived_with(front).len() + given_up(front).len() == 0);
    }
    if i < front.len() {
        assert(front[i] == arrived[i]);
        match arrived[i].1 {
            Some(outcome) => {
                let entry = (arrived[i].0, outcome);
                let k = arrived_with(front).index_of(entry);
                assert(arrived_with(arrived)[k] == entry);
            },
            None => {
                let k = given_up(front).index_of(arrived[i].0);
                assert(given_up(arrived)[k] == arrived[i].0);
            },
        }
    } else {
        match arrived[i].1 {
            Some(outcome) => {
                assert(arrived_with(arrived)[arrived_with(front).len() as int] == (
                    arrived[i].0,
                    outcome,
                ));
            },
            None => {
                assert(given_up(arrived)[given_up(front).len() as int] == arrived[i].0);
            },
        }
    }
}

/// The addresses that answers are for.
pub open spec fn answered_for(entries: Seq<(Seq<char>, Result<LookupView, ErrorView>)>) -> Seq<
    Seq<char>,
> {
    entries.map_values(|entry: (Seq<char>, Result<LookupView, ErrorView>)| entry.0)
}

/// What a chunk is answered: by the body of its answer, or by its failure.
pub open spec fn chunk_answer(
    chunk: Seq<Seq<char>>,
    answered: Result<(Map<Seq<char>, AnswerView>, Map<Seq<char>, (Seq<char>, i32)>), ErrorView>,
) -> Seq<(Seq<char>, Result<LookupView, ErrorView>)> {
    match answered {
        Ok((results, errors)) => chunk_outcomes(chunk, results, errors),
        Err(e) => chunk_failed(chunk, e),
    }
}

/// The addresses a batch asks about, of those it missed.
pub open spec fn asked_of(caching: bool, board: FlightsView, missed: Seq<Seq<char>>) -> Seq<
    Seq<char>,
> {
    if caching {
        addresses(boarded(board, missed).led)
    } else {
        missed
    }
}

/// The addresses whose flight a batch joins, of those it missed.
pub open spec fn joined_of(caching: bool, board: FlightsView, missed: Seq<Seq<char>>) -> Seq<
    Seq<char>,
> {
    if caching {
        addresses(boarded(board, missed).joined)
    } else {
        Seq::empty()
    }
}

/// One round answers what was missed: once what was found when the cache was read
/// again, what every chunk was answered and what the flights that were joined
/// landed with are all in, there is an answer for each address that was missed,
/// but for those whose flight was given up, which the next round tries again. When
/// none was, the batch can be put together.
pub proof fn law_a_round_answers_what_was_missed(
    caching: bool,
    board: FlightsView,
    ips: Seq<Seq<char>>,
    hits: Seq<Option<LookupView>>,
    again: Seq<Option<LookupView>>,
    answered: Seq<
        Result<(Map<Seq<char>, AnswerView>, Map<Seq<char>, (Seq<char>, i32)>), ErrorView>,
    >,
    arrived: Seq<(Seq<char>, Option<Result<LookupView, ErrorView>>)>,
    landed: Seq<(Seq<char>, Result<LookupView, ErrorView>)>,
)
    requires
        hits.len() == ips.len(),
        ({
            let missed = pending(ips, hits);
            let asked = asked_of(caching, board, missed);
            let chunks = chunked(unfound(asked, again), BATCH_MAX as nat);
            &&& again.len() == asked.len()
            &&& answered.len() == chunks.len()
            &&& arrived.len() == joined_of(caching, board, missed).len()
            &&& forall|j: int|
                0 <= j < arrived.len() ==> (#[trigger] arrived[j]).0 == joined_of(
                    caching,
                    board,
                    missed,
                )[j]
            &&& forall|ip: Seq<char>| #[trigger]
                answered_for(found(asked, again)).contains(ip) ==> answered_for(landed).contains(ip)
            &&& forall|c: int, ip: Seq<char>|
                0 <= c < chunks.len() && #[trigger] answered_for(
                    chunk_answer(chunks[c], answered[c]),
                ).contains(ip) ==> answered_for(landed).contains(ip)
            &&& forall|ip: Seq<char>| #[trigger]
                answered_for(arrived_with(arrived)).contains(ip) ==> answered_for(landed).contains(
                    ip,
                )
        }),
    ensures
        forall|ip: Seq<char>| #[trigger]
            pending(ips, hits).contains(ip) ==> answered_for(landed).contains(ip) || given_up(
                arrived,
            ).contains(ip),
        given_up(arrived).len() == 0 ==> all_answered(
            ips,
            Seq::new(ips.len(), |i: int| local_answer(ips[i], hits[i])),
            landed,
        ),
{
    let missed = pending(ips, hits);
    let asked = asked_of(caching, board, missed);
    let joined = joined_of(caching, board, missed);
    let chunks = chunked(unfound(asked, again), BATCH_MAX as nat);
    assert forall|ip: Seq<char>| #[trigger] missed.contains(ip) implies answered_for(
        landed,
    ).contains(ip) || given_up(arrived).contains(ip) by {
        if caching {
            law_what_is_missed_is_asked_or_joined(board, missed, ip);
        }
        if asked.contains(ip) {
            let i = asked.index_of(ip);
            law_what_is_led_is_found_or_asked(asked, again, i);
            match again[i] {
                Some(hit) => {
                    let entry = (ip, Ok::<LookupView, ErrorView>(hit));
                    let k = found(asked, again).index_of(entry);
                    assert(answered_for(found(asked, again))[k] == ip);
                    assert(answered_for(found(asked, again)).contains(ip));
                },
                None => {
                    let c = chunk_answers_what_is_unfound(unfound(asked, again), answered, ip);
                    assert(answered_for(chunk_answer(chunks[c], answered[c])).contains(ip));
                },
            }
        } else {
            let j = joined.index_of(ip);
            law_what_is_joined_arrives_or_is_tried_again(arrived, j);
            if let Some(outcome) = arrived[j].1 {
                let k = arrived_with(arrived).index_of((ip, outcome));
                assert(answered_for(arrived_with(arrived))[k] == ip);
                assert(answered_for(arrived_with(arrived)).contains(ip));
            }
        }
    }
    if given_up(arrived).len() == 0 {
        assert forall|ip: Seq<char>| #[trigger] missed.contains(ip) implies exists|k: int|
            0 <= k < landed.len() && (#[trigger] landed[k]).0 == ip by {
            let k = answered_for(landed).index_of(ip);
            assert(landed[k].0 == ip);
        }
        law_a_batch_is_whole_once_its_chunks_landed(ips, hits, landed);
    }
}

/// An address that is laid out in chunks is in one of them.
proof fn laid_out_among(chunks: Seq<Seq<Seq<char>>>, ip: Seq<char>) -> (c: int)
    requires
        laid_out(chunks).contains(ip),
    ensures
        0 <= c < chunks.len(),
        chunks[c].contains(ip),
    decreases chunks.len(),
{
    let k = laid_out(chunks).index_of(ip);
    if k < chunks[0].len() {
        assert(chunks[0][k] == ip);
        0
    } else {
        assert(laid_out(chunks.skip(1))[k - chunks[0].len()] == ip);
        let c = laid_out_among(chunks.skip(1), ip);
        assert(chunks.skip(1)[c] == chunks[c + 1]);
        c + 1
    }
}

proof fn chunk_answers_what_is_unfound(
    all: Seq<Seq<char>>,
    answered: Seq<
        Result<(Map<Seq<char>, AnswerView>, Map<Seq<char>, (Seq<char>, i32)>), ErrorView>,
    >,
    ip: Seq<char>,
) -> (c: int)
    requires
        all.contains(ip),
        answered.len() == chunked(all, BATCH_MAX as nat).len(),
    ensures
        0 <= c < answered.len(),
        answered_for(chunk_answer(chunked(all, BATCH_MAX as nat)[c], answered[c])).contains(ip),
{
    let chunks = chunked(all, BATCH_MAX as nat);
    law_chunks_hold_what_is_pending(all, BATCH_MAX as nat);
    let c = laid_out_among(chunks, ip);
    let k = chunks[c].index_of(ip);
    match answered[c] {
        Ok((results, errors)) => {
            law_a_chunk_answers_what_it_was_asked(chunks[c], results, errors);
        },
        Err(_) => {},
    }
    assert(answered_for(chunk_answer(chunks[c], answered[c]))[k] == ip);
    c
}

/// A bogon is answered as a bogon, whatever is kept of it. Any other address is
/// answered with what is kept of it, and asked about when nothing is, in the order of
/// the batch. Only what is no bogon is looked for in the cache, where there is one.
pub proof fn law_a_batch_asks_about_what_it_does_not_have(
    ips: Seq<Seq<char>>,
    hits: Seq<Option<LookupView>>,
    ip: Seq<char>,
    hit: Option<LookupView>,
    caching: bool,
)
    requires
        ips.len() == hits.len(),
    ensures
        bogon_text(ip) ==> local_answer(ip, hit) == Some(bogon_view(ip)),
        !bogon_text(ip) ==> local_answer(ip, hit) == hit,
        pending(Seq::empty(), Seq::empty()) == Seq::<Seq<char>>::empty(),
        bogon_text(ip) || hit is Some ==> pending(ips.push(ip), hits.push(hit)) == pending(
            ips,
            hits,
        ),
        !bogon_text(ip) && hit is None ==> pending(ips.push(ip), hits.push(hit)) == pending(
            ips,
            hits,
        ).push(ip),
        to_read(seq![ip], caching) == seq![caching && !bogon_text(ip)],
        to_read(ips.push(ip), caching) == to_read(ips, caching).push(caching && !bogon_text(ip)),
{
    assert(ips.push(ip).drop_last() =~= ips);
    assert(hits.push(hit).drop_last() =~= hits);
    assert(to_read(seq![ip], caching) =~= seq![caching && !bogon_text(ip)]);
    assert(to_read(ips.push(ip), caching) =~= to_read(ips, caching).push(
        caching && !bogon_text(ip),
    ));
}

/// The status of an entry is the one it has, or that of a server error when it is
/// none. An address that an answer says nothing of fails as a server does, under the
/// status of the answer, and is named.
pub proof fn law_what_an_entry_fails_with(status: i32, ip: Seq<char>)
    ensures
        0 <= status < 0x1_0000 ==> entry_status(status) == status,
        status < 0 || status >= 0x1_0000 ==> entry_status(status) == 500,
        left_out(ip).kind() == ErrorKind::ServerError,
        left_out(ip).retryable(),
        left_out(ip).status() == Some(200u16),
        left_out(ip).retry_after() is None,
        left_out(ip).message() == "the batch answer did not include "@ + ip,
{
}

/// When a chunk fails as a whole, each of its addresses fails with that failure: with
/// its kind, its message, its status and its wait.
pub proof fn law_a_failed_chunk_fails_each_address(
    chunk: Seq<Seq<char>>,
    failure: ErrorView,
    i: int,
)
    requires
        0 <= i < chunk.len(),
    ensures
        chunk_failed(chunk, failure).len() == chunk.len(),
        chunk_failed(chunk, failure)[i].0 == chunk[i],
        chunk_failed(chunk, failure)[i].1 matches Err(e) && e.kind() == failure.kind()
            && e.message() == failure.message() && e.status() == failure.status()
            && e.retry_after() == failure.retry_after(),
{
}

/// Of the answers and the failures that name one address the last stands, and an
/// address that none names has none.
pub proof fn law_the_last_entry_of_an_address_stands(
    results: Seq<(String, LookupResponse)>,
    errors: Seq<(String, EntryFailure)>,
    result: (String, LookupResponse),
    error: (String, EntryFailure),
    ip: Seq<char>,
)
    ensures
        results_map(Seq::empty()) == Map::<Seq<char>, AnswerView>::empty(),
        results_map(results.push(result)).contains_key(result.0@),
        results_map(results.push(result))[result.0@] == result.1@,
        ip != result.0@ ==> results_map(results.push(result)).contains_key(ip) == results_map(
            results,
        ).contains_key(ip) && results_map(results.push(result))[ip] == results_map(results)[ip],
        errors_map(Seq::empty()) == Map::<Seq<char>, (Seq<char>, i32)>::empty(),
        errors_map(errors.push(error)).contains_key(error.0@),
        errors_map(errors.push(error))[error.0@] == (error.1.error@, error.1.status),
        ip != error.0@ ==> errors_map(errors.push(error)).contains_key(ip) == errors_map(
            errors,
        ).contains_key(ip) && errors_map(errors.push(error))[ip] == errors_map(errors)[ip],
{
    assert(results.push(result).drop_last() =~= results);
    assert(errors.push(error).drop_last() =~= errors);
}

/// An address of a batch is handed what is served for it, field for field and marked as
/// served, the failure the answer has for it, with the status and the message it has
/// there and never worth retrying on a 429, or the failure of an answer that leaves it
/// out: whatever the answer has for other addresses.
pub proof fn law_an_address_is_handed_its_own_outcome(
    chunk: Seq<Seq<char>>,
    results: Map<Seq<char>, AnswerView>,
    errors: Map<Seq<char>, (Seq<char>, i32)>,
    i: int,
)
    requires
        chunk.no_duplicates(),
        0 <= i < chunk.len(),
    ensures
        ({
            let ip = chunk[i];
            let landed = chunk_outcomes(chunk, results, errors);
            &&& landed[i].0 == ip
            &&& landed_for(landed, ip) == Some(landed[i].1)
            &&& results.contains_key(ip) ==> (landed[i].1 matches Ok(lookup) && lookup.answer
                == results[ip] && !lookup.is_bogon)
            &&& !results.contains_key(ip) && errors.contains_key(ip) ==> (landed[i].1 matches Err(e)
                && e.message() == errors[ip].0 && (0 < errors[ip].1 < 0x1_0000 ==> e.status()
                == Some(errors[ip].1 as u16)) && e.retry_after() is None && (errors[ip].1 == 429
                ==> e.kind() == ErrorKind::QuotaExceeded && !e.retryable()) && (400 <= errors[ip].1
                < 500 ==> !e.retryable()))
            &&& !results.contains_key(ip) && !errors.contains_key(ip) ==> (landed[i].1 matches Err(e)
                && e.kind() == ErrorKind::ServerError && e.status() == Some(200u16))
        }),
{
    law_an_entry_is_answered_for_itself(chunk, results, errors, i);
    law_a_chunk_answers_what_it_was_asked(chunk, results, errors);
    let landed = chunk_outcomes(chunk, results, errors);
    landed_for_is(landed, chunk[i]);
    match landed_for(landed, chunk[i]) {
        Some(answer) => {
            let k = choose|k: int| 0 <= k < landed.len() && landed[k] == (chunk[i], answer);
            assert(landed[k].0 == chunk[k]);
            assert(k == i);
        },
        None => {
            assert(landed[i].0 == chunk[i]);
        },
    }
}

/// A batch hands each address over with what it was answered locally, and with what
/// landed for it where that was nothing. What landed last for an address is what landed
/// for it.
pub proof fn law_a_batch_hands_over_local_answers_first(
    ips: Seq<Seq<char>>,
    local: Seq<Option<LookupView>>,
    landed: Seq<(Seq<char>, Result<LookupView, ErrorView>)>,
    ip: Seq<char>,
    outcome: Result<LookupView, ErrorView>,
    i: int,
)
    requires
        ips.len() == local.len(),
        0 <= i < ips.len(),
    ensures
        batch_answers(ips, local, landed).len() == ips.len(),
        batch_answers(ips, local, landed)[i].0 == ips[i],
        local[i] matches Some(lookup) ==> batch_answers(ips, local, landed)[i].1 == Ok::<
            LookupView,
            ErrorView,
        >(lookup),
        local[i] is None ==> (landed_for(landed, ips[i]) matches Some(there) ==> batch_answers(
            ips,
            local,
            landed,
        )[i].1 == there),
        landed_for(landed.push((ip, outcome)), ip) == Some(outcome),
        ips[i] != ip ==> landed_for(landed.push((ip, outcome)), ips[i]) == landed_for(
            landed,
            ips[i],
        ),
        landed_for(Seq::empty(), ip) is None,
{
    assert(landed.push((ip, outcome)).drop_last() =~= landed);
}

/// What landed is kept as it landed when it is an answer, and not at all when it is a
/// failure.
pub proof fn law_only_answers_are_kept(
    landed: Seq<(Seq<char>, Result<LookupView, ErrorView>)>,
    ip: Seq<char>,
    lookup: LookupView,
    failure: ErrorView,
)
    ensures
        to_keep(Seq::empty()) == Seq::<(Seq<char>, LookupView)>::empty(),
        to_keep(landed.push((ip, Ok(lookup)))) == to_keep(landed).push((ip, lookup)),
        to_keep(landed.push((ip, Err(failure)))) == to_keep(landed),
{
    assert(landed.push((ip, Ok(lookup))).drop_last() =~= landed);
    assert(landed.push((ip, Err(failure))).drop_last() =~= landed);
}

/// A batch that may keep nothing in flight fails as a misuse that says so.
pub proof fn law_a_batch_keeps_something_in_flight()
    ensures
        nothing_in_flight().kind() == ErrorKind::BadRequest,
        !nothing_in_flight().retryable(),
        nothing_in_flight().message() == "concurrency must be at least 1"@,
        BATCH_MAX == 1000,
{
}

/// Of what a batch leads, what was found and what was not stand each in the order of
/// what it leads; and of what it joined, what landed and what was given up.
pub proof fn law_what_a_batch_sorts_keeps_its_order(
    ips: Seq<Seq<char>>,
    hits: Seq<Option<LookupView>>,
    arrived: Seq<(Seq<char>, Option<Result<LookupView, ErrorView>>)>,
    ip: Seq<char>,
    hit: LookupView,
    outcome: Result<LookupView, ErrorView>,
)
    requires
        ips.len() == hits.len(),
    ensures
        found(ips.push(ip), hits.push(Some(hit))) == found(ips, hits).push((ip, Ok(hit))),
        found(ips.push(ip), hits.push(None)) == found(ips, hits),
        unfound(ips.push(ip), hits.push(Some(hit))) == unfound(ips, hits),
        unfound(ips.push(ip), hits.push(None)) == unfound(ips, hits).push(ip),
        arrived_with(arrived.push((ip, Some(outcome)))) == arrived_with(arrived).push(
            (ip, outcome),
        ),
        arrived_with(arrived.push((ip, None))) == arrived_with(arrived),
        given_up(arrived.push((ip, Some(outcome)))) == given_up(arrived),
        given_up(arrived.push((ip, None))) == given_up(arrived).push(ip),
{
    assert(ips.push(ip).drop_last() =~= ips);
    assert(hits.push(Some(hit)).drop_last() =~= hits);
    assert(hits.push(None).drop_last() =~= hits);
    assert(arrived.push((ip, Some(outcome))).drop_last() =~= arrived);
    assert(arrived.push((ip, None)).drop_last() =~= arrived);
}

/// What a batch is handed and hands over reads as it is, each entry where it stands.
pub proof fn law_entries_read_as_they_are(
    hits: Seq<Option<Lookup>>,
    entries: Seq<(String, Result<Lookup, Error>)>,
    arrived: Seq<(String, Option<Result<Lookup, Error>>)>,
    kept: Seq<(String, Lookup)>,
    chunks: Seq<Vec<String>>,
    i: int,
)
    ensures
        hit_views(hits).len() == hits.len() && entries_view(entries).len() == entries.len()
            && arrival_views(arrived).len() == arrived.len() && kept_views(kept).len() == kept.len()
            && chunk_texts(chunks).len() == chunks.len(),
        0 <= i < hits.len() ==> hit_views(hits)[i] == (match hits[i] {
            Some(lookup) => Some(lookup@),
            None => None,
        }),
        0 <= i < entries.len() ==> entries_view(entries)[i] == (
            entries[i].0@,
            match entries[i].1 {
                Ok(lookup) => Ok(lookup@),
                Err(e) => Err(e@),
            },
        ),
        0 <= i < arrived.len() ==> arrival_views(arrived)[i] == (
            arrived[i].0@,
            match arrived[i].1 {
                Some(Ok(lookup)) => Some(Ok(lookup@)),
                Some(Err(e)) => Some(Err(e@)),
                None => None,
            },
        ),
        0 <= i < kept.len() ==> kept_views(kept)[i] == (kept[i].0@, kept[i].1@),
        0 <= i < chunks.len() ==> chunk_texts(chunks)[i] == chunks[i]@.map_values(
            |ip: String| ip@,
        ),
{
}

}
