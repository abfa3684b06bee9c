//! The requests in flight, one per address, so concurrent misses share one.
//!
//! Every caller that misses while a request for its address is in flight awaits
//! that request, whether a single lookup or a batch sent it. The board says which
//! flights there are; what carries an answer to those who wait is the caller's.

use vstd::hash_map::StringHashMap;
use vstd::prelude::*;

use crate::client::outcome_view;
use crate::error::{Error, ErrorView};
use crate::lookup::{Lookup, LookupView};
use crate::text::{texts};

verus! {

/// The addresses that have a request in flight, each with the number of its
/// flight. A number is never used twice.
pub struct Flights {
    flying: StringHashMap<u64>,
    next: u64,
}

pub struct FlightsView {
    pub flying: Map<Seq<char>, u64>,
    pub next: u64,
}

impl View for Flights {
    type V = FlightsView;

    closed spec fn view(&self) -> FlightsView {
        FlightsView { flying: self.flying@, next: self.next }
    }
}

/// What a caller got for its addresses: those it leads a new flight for, and
/// those whose flight it joined, each with the number of the flight.
#[derive(Debug)]
pub struct Boarding {
    pub led: Vec<(String, u64)>,
    pub joined: Vec<(String, u64)>,
}

pub open spec fn seats(entries: Seq<(String, u64)>) -> Seq<(Seq<char>, u64)> {
    entries.map_values(|entry: (String, u64)| (entry.0@, entry.1))
}

/// The board after callers boarded one address after another, and who leads and
/// who joined.
pub struct Boarded {
    pub board: FlightsView,
    pub led: Seq<(Seq<char>, u64)>,
    pub joined: Seq<(Seq<char>, u64)>,
}

/// An address that has a flight is joined; one that has none gets a new flight,
/// which is led.
pub open spec fn boarded(board: FlightsView, ips: Seq<Seq<char>>) -> Boarded
    decreases ips.len(),
{
    if ips.len() == 0 {
        Boarded { board, led: Seq::empty(), joined: Seq::empty() }
    } else {
        let before = boarded(board, ips.drop_last());
        let ip = ips.last();
        if before.board.flying.contains_key(ip) {
            Boarded { joined: before.joined.push((ip, before.board.flying[ip])), ..before }
        } else {
            Boarded {
                board: FlightsView {
                    flying: before.board.flying.insert(ip, before.board.next),
                    next: (before.board.next + 1) as u64,
                },
                led: before.led.push((ip, before.board.next)),
                ..before
            }
        }
    }
}

impl FlightsView {
    /// Every flight has a number that was given out.
    pub open spec fn sound(self) -> bool {
        &&& forall|ip: Seq<char>| #[trigger]
            self.flying.contains_key(ip) ==> self.flying[ip] < self.next
        &&& forall|a: Seq<char>, b: Seq<char>| #[trigger]
            self.flying.contains_key(a) && #[trigger] self.flying.contains_key(b) && a != b
                ==> self.flying[a] != self.flying[b]
    }

    /// The board once one flight is over. A flight that is not the one the
    /// address has now leaves the board as it is.
    pub open spec fn landed(self, ip: Seq<char>, flight: u64) -> FlightsView {
        if self.flying.contains_key(ip) && self.flying[ip] == flight {
            FlightsView { flying: self.flying.remove(ip), ..self }
        } else {
            self
        }
    }
}

impl Flights {
    #[verifier::type_invariant]
    spec fn numbered(self) -> bool {
        self@.sound()
    }

    /// A board without flights.
    pub fn new() -> (r: Self)
        ensures
            r@.flying == Map::<Seq<char>, u64>::empty(),
            r@.next == 0,
    {
        Flights { flying: StringHashMap::new(), next: 0 }
    }

    /// Whether there is a number left for each of so many new flights.
    pub fn has_room(&self, count: usize) -> (r: bool)
        ensures
            r == (self@.next + count <= u64::MAX),
    {
        count as u64 <= u64::MAX - self.next
    }

    /// Joins the request in flight for each address that has one, and leads a new
    /// one for each that has none.
    pub fn board(&mut self, ips: &Vec<String>) -> (r: Boarding)
        requires
            old(self)@.next + ips@.len() <= u64::MAX,
        ensures
            boarded(old(self)@, texts(ips@)) == (Boarded {
                board: final(self)@,
                led: seats(r.led@),
                joined: seats(r.joined@),
            }),
    {
        proof {
            use_type_invariant(&*self);
        }
        let ghost start = self@;
        let ghost all = texts(ips@);
        let mut flying: StringHashMap<u64> = StringHashMap::new();
        std::mem::swap(&mut flying, &mut self.flying);
        let mut next: u64 = self.next;
        let mut led: Vec<(String, u64)> = Vec::new();
        let mut joined: Vec<(String, u64)> = Vec::new();
        assert(seats(led@) =~= Seq::empty());
        assert(seats(joined@) =~= Seq::empty());
        for i in 0..ips.len()
            invariant
                all == texts(ips@),
                start.next + ips@.len() <= u64::MAX,
                next <= start.next + i,
                boarded(start, all.take(i as int)) == (Boarded {
                    board: FlightsView { flying: flying@, next },
                    led: seats(led@),
                    joined: seats(joined@),
                }),
                (FlightsView { flying: flying@, next }).sound(),
        {
            assert(all.take(i + 1).drop_last() =~= all.take(i as int));
            let ip = ips[i].as_str();
            let seat = match flying.get(ip) {
                Some(flight) => Some(*flight),
                None => None,
            };
            match seat {
                Some(flight) => {
                    let ghost before = joined@;
                    joined.push((ips[i].clone(), flight));
                    assert(seats(joined@) =~= seats(before).push((ip@, flight)));
                },
                None => {
                    let ghost before = led@;
                    proof {
                        sound_with(FlightsView { flying: flying@, next }, ip@);
                    }
                    flying.insert(ips[i].clone(), next);
                    led.push((ips[i].clone(), next));
                    assert(seats(led@) =~= seats(before).push((ip@, next)));
                    next = next + 1;
                },
            }
        }
        assert(all.take(all.len() as int) =~= all);
        *self = Flights { flying, next };
        Boarding { led, joined }
    }

    /// Takes a flight off the board: its answer was handed to those who wait, or
    /// the caller leading it is gone.
    pub fn land(&mut self, ip: &str, flight: u64)
        ensures
            final(self)@ == old(self)@.landed(ip@, flight),
    {
        proof {
            use_type_invariant(&*self);
        }
        let ghost start = self@;
        let mut flying: StringHashMap<u64> = StringHashMap::new();
        std::mem::swap(&mut flying, &mut self.flying);
        let now = match flying.get(ip) {
            Some(number) => *number == flight,
            None => false,
        };
        if now {
            proof {
                sound_without(start, ip@);
            }
            flying.remove(ip);
        }
        let next: u64 = self.next;
        *self = Flights { flying, next };
    }

    /// Takes every flight a caller leads off the board, when it is gone before
    /// they landed: the next caller then leads a request of its own.
    pub fn abandon(&mut self, led: &Vec<(String, u64)>)
        ensures
            final(self)@ == abandoned(old(self)@, seats(led@)),
    {
        let ghost start = self@;
        for i in 0..led.len()
            invariant
                self@ == abandoned(start, seats(led@).take(i as int)),
        {
            assert(seats(led@).take(i + 1).drop_last() =~= seats(led@).take(i as int));
            self.land(led[i].0.as_str(), led[i].1);
        }
        assert(seats(led@).take(led@.len() as int) =~= seats(led@));
    }
}

proof fn sound_with(board: FlightsView, ip: Seq<char>)
    requires
        board.sound(),
        board.next < u64::MAX,
    ensures
        (FlightsView {
            flying: board.flying.insert(ip, board.next),
            next: (board.next + 1) as u64,
        }).sound(),
{
    let flying = board.flying.insert(ip, board.next);
    assert forall|k: Seq<char>| #[trigger] flying.contains_key(k) implies flying[k] < board.next
        + 1 by {
        if k != ip {
            assert(board.flying.contains_key(k));
        }
    }
    assert forall|a: Seq<char>, b: Seq<char>| #[trigger]
        flying.contains_key(a) && #[trigger] flying.contains_key(b) && a != b implies flying[a]
        != flying[b] by {
        if a != ip {
            assert(board.flying.contains_key(a));
        }
        if b != ip {
            assert(board.flying.contains_key(b));
        }
    }
}

proof fn sound_without(board: FlightsView, ip: Seq<char>)
    requires
        board.sound(),
    ensures
        (FlightsView { flying: board.flying.remove(ip), ..board }).sound(),
{
    let left = board.flying.remove(ip);
    assert forall|k: Seq<char>| #[trigger] left.contains_key(k) implies left[k] < board.next by {
        assert(board.flying.contains_key(k));
    }
    assert forall|a: Seq<char>, b: Seq<char>| #[trigger]
        left.contains_key(a) && #[trigger] left.contains_key(b) && a != b implies left[a]
        != left[b] by {
        assert(board.flying.contains_key(a));
        assert(board.flying.contains_key(b));
    }
}

/// The board once these flights are over.
pub open spec fn abandoned(board: FlightsView, led: Seq<(Seq<char>, u64)>) -> FlightsView
    decreases led.len(),
{
    if led.len() == 0 {
        board
    } else {
        abandoned(board, led.drop_last()).landed(led.last().0, led.last().1)
    }
}

/// Whether a caller leads the flight of an address.
pub fn leads(led: &Vec<(String, u64)>, ip: &str) -> (r: bool)
    ensures
        r == exists|i: int| 0 <= i < led@.len() && (#[trigger] led@[i]).0@ == ip@,
{
    for i in 0..led.len()
        invariant
            forall|j: int| 0 <= j < i ==> (#[trigger] led@[j]).0@ != ip@,
    {
        if crate::text::same(led[i].0.as_str(), ip) {
            return true;
        }
    }
    false
}

/// A landed answer as one waiter's own: a lookup is kept, and a failure restated.
pub open spec fn restated(answer: Result<LookupView, ErrorView>) -> Result<LookupView, ErrorView> {
    match answer {
        Ok(lookup) => Ok(lookup),
        Err(e) => Err(e.restated()),
    }
}

/// A landed answer as one waiter's own: the lookup cloned, an error restated the
/// way a batch restates a chunk's failure for each of its addresses.
pub fn restate(answer: &Result<Lookup, Error>) -> (r: Result<Lookup, Error>)
    ensures
        outcome_view(r) == restated(outcome_view(*answer)),
{
    match answer {
        Ok(lookup) => Ok(lookup.clone()),
        Err(e) => Err(e.restated()),
    }
}

/// Boarding keeps the board sound, and after it every address has a flight.
pub proof fn law_every_address_boarded_has_a_flight(board: FlightsView, ips: Seq<Seq<char>>)
    requires
        board.sound(),
        board.next + ips.len() <= u64::MAX,
    ensures
        boarded(board, ips).board.sound(),
        board.next <= boarded(board, ips).board.next <= board.next + ips.len(),
        forall|i: int|
            0 <= i < ips.len() ==> boarded(board, ips).board.flying.contains_key(#[trigger] ips[i]),
        forall|ip: Seq<char>| #[trigger]
            board.flying.contains_key(ip) ==> boarded(board, ips).board.flying.contains_key(ip)
                && boarded(board, ips).board.flying[ip] == board.flying[ip],
    decreases ips.len(),
{
    if ips.len() > 0 {
        let front = ips.drop_last();
        law_every_address_boarded_has_a_flight(board, front);
        let before = boarded(board, front);
        let after = boarded(board, ips);
        if !before.board.flying.contains_key(ips.last()) {
            sound_with(before.board, ips.last());
        }
        assert forall|i: int| 0 <= i < ips.len() implies after.board.flying.contains_key(
            #[trigger] ips[i],
        ) by {
            if i < front.len() {
                assert(before.board.flying.contains_key(front[i]));
            }
        }
    }
}

/// An address has one request in flight however many callers want it: whoever
/// boards while it flies joins it and leads nothing for it.
pub proof fn law_an_address_in_flight_is_joined(
    board: FlightsView,
    ips: Seq<Seq<char>>,
    ip: Seq<char>,
)
    requires
        board.sound(),
        board.next + ips.len() <= u64::MAX,
        board.flying.contains_key(ip),
    ensures
        forall|i: int|
            0 <= i < boarded(board, ips).led.len() ==> (#[trigger] boarded(board, ips).led[i]).0
                != ip,
    decreases ips.len(),
{
    if ips.len() > 0 {
        let front = ips.drop_last();
        law_an_address_in_flight_is_joined(board, front, ip);
        law_every_address_boarded_has_a_flight(board, front);
        let before = boarded(board, front);
        let after = boarded(board, ips);
        assert(before.board.flying.contains_key(ip));
        assert forall|i: int| 0 <= i < after.led.len() implies (#[trigger] after.led[i]).0
            != ip by {
            if i < before.led.len() {
                assert(after.led[i] == before.led[i]);
            }
        }
    }
}

/// Once a flight is over its address has none, so that the next caller leads one
/// of its own.
pub proof fn law_a_landed_address_can_be_led_again(board: FlightsView, ip: Seq<char>)
    requires
        board.sound(),
        board.flying.contains_key(ip),
        board.next < u64::MAX,
    ensures
        !board.landed(ip, board.flying[ip]).flying.contains_key(ip),
        boarded(board.landed(ip, board.flying[ip]), seq![ip]).led == seq![(ip, board.next)],
{
    let after = board.landed(ip, board.flying[ip]);
    assert(seq![ip].drop_last() =~= Seq::empty());
    assert(boarded(after, seq![ip].drop_last()) == (Boarded {
        board: after,
        led: Seq::empty(),
        joined: Seq::empty(),
    }));
    assert(boarded(after, seq![ip]).led =~= seq![(ip, board.next)]);
}

/// A flight that is over leaves every other flight where it is.
pub proof fn law_landing_leaves_other_flights(
    board: FlightsView,
    ip: Seq<char>,
    flight: u64,
    other: Seq<char>,
)
    requires
        other != ip,
    ensures
        board.landed(ip, flight).flying.contains_key(other) == board.flying.contains_key(other),
        board.flying.contains_key(other) ==> board.landed(ip, flight).flying[other]
            == board.flying[other],
{
}

/// What lands is handed to everyone who waits as it is when it is an answer, and with
/// the same kind, message, status and wait when it is a failure.
pub proof fn law_what_lands_is_shared_as_it_is(lookup: LookupView, e: ErrorView)
    ensures
        restated(Ok(lookup)) == Ok::<LookupView, ErrorView>(lookup),
        restated(Err(e)) matches Err(again) && again.kind() == e.kind() && again.message()
            == e.message() && again.status() == e.status() && again.retry_after()
            == e.retry_after(),
{
}

/// A caller that boards an address without a flight leads a new one under the next
/// number, and one that boards an address with a flight joins that flight and leaves the
/// board as it is.
pub proof fn law_boarding_leads_or_joins(
    board: FlightsView,
    ips: Seq<Seq<char>>,
    ip: Seq<char>,
)
    ensures
        boarded(board, Seq::empty()) == (Boarded {
            board,
            led: Seq::empty(),
            joined: Seq::empty(),
        }),
        ({
            let before = boarded(board, ips);
            let after = boarded(board, ips.push(ip));
            &&& before.board.flying.contains_key(ip) ==> after.board == before.board && after.led
                == before.led && after.joined == before.joined.push(
                (ip, before.board.flying[ip]),
            )
            &&& !before.board.flying.contains_key(ip) ==> after.board.flying
                == before.board.flying.insert(ip, before.board.next) && after.led
                == before.led.push((ip, before.board.next)) && after.joined == before.joined && (
            before.board.next < u64::MAX ==> after.board.next == before.board.next + 1)
        }),
{
    assert(ips.push(ip).drop_last() =~= ips);
}

/// Giving up what was led takes each of those flights off the board and no other.
pub proof fn law_giving_up_takes_only_what_was_led(
    board: FlightsView,
    led: Seq<(Seq<char>, u64)>,
    ip: Seq<char>,
    flight: u64,
)
    ensures
        abandoned(board, Seq::empty()) == board,
        ({
            let before = abandoned(board, led);
            let after = abandoned(board, led.push((ip, flight)));
            &&& before.flying.contains_key(ip) && before.flying[ip] == flight ==> after.flying
                == before.flying.remove(ip)
            &&& !(before.flying.contains_key(ip) && before.flying[ip] == flight) ==> after.flying
                == before.flying
            &&& after.next == before.next
        }),
{
    assert(led.push((ip, flight)).drop_last() =~= led);
}

}
