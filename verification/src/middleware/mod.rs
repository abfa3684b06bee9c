//! The framework-agnostic half of a web middleware: resolve a client address,
//! classify it, and decide whether the condition matched.
//!
//! Blocking is opt-in. Without a condition a request is only enriched.

pub mod condition;
pub mod matching;
pub mod reading;
pub mod selectors;

pub use condition::{Bound, Condition, ConditionError, Conditions, Value};
pub use reading::from_json;
pub use selectors::{framework_ip, header, xff, IpSelector, RequestView};

use vstd::hash_set::StringHashSet;
use vstd::prelude::*;

use crate::bogon::{bogon_text, is_bogon};
use crate::client::{outcome_view, parsed_url, Client, ClientBuilder, ClientView};
use crate::client::DEFAULT_BASE_URL;
use crate::error::{Error, ErrorView};
use crate::json::{Json, JsonView};
use crate::lookup::{law_each_member_is_its_own_field, LookupView};
use crate::middleware::condition::{condition_views, ValueView};
use crate::middleware::matching::{conditions_match, constrains_nothing, leaves_of_terms};
use crate::middleware::matching::law_a_flag_is_matched_by_itself;
use crate::middleware::matching::{missing_members, missing_of, shown, validate};
use crate::middleware::selectors::selected;
use crate::text::{concat, debug_text, join, joined, maybe_text, texts, trim, trimmed};
use crate::text::without_end_slashes;
use crate::time::Duration;

verus! {

/// How many milliseconds a lookup may hold a request unless told otherwise.
pub const DEFAULT_TIMEOUT_MILLIS: u64 = 2500;

/// How many further attempts a transient failure gets unless told otherwise.
pub const DEFAULT_RETRIES: u32 = 0;

/// What to do when a condition names a member the plan does not serve.
#[derive(Clone, Copy, Debug, PartialEq, Eq, Structural)]
pub enum OnMissingField {
    Warn,
    Fail,
    Ignore,
}

impl Default for OnMissingField {
    fn default() -> (r: Self)
        ensures
            r == OnMissingField::Warn,
    {
        OnMissingField::Warn
    }
}

/// How a middleware behaves.
#[derive(Debug)]
pub struct Options {
    /// An existing client to use.
    pub client: Option<Client>,
    pub api_key: Option<String>,
    pub base_url: Option<String>,
    /// How long a lookup may hold the request: every attempt has so long, and with
    /// no time at all it fails at once. Ignored when `client` is set.
    pub timeout: Duration,
    /// Retry attempts for a transient failure. Ignored when `client` is set.
    pub retries: u32,
    /// How the client address is decided.
    pub ip_selector: Option<IpSelector>,
    /// What to block on.
    pub block_condition: Option<Conditions>,
    /// Block when the lookup itself fails and there is something to block on.
    pub fail_closed: bool,
    pub on_missing_field: OnMissingField,
}

impl Options {
    pub fn new() -> (r: Self)
        ensures
            r.client is None,
            r.api_key is None,
            r.base_url is None,
            r.timeout@ == DEFAULT_TIMEOUT_MILLIS * 1_000_000,
            r.retries == DEFAULT_RETRIES,
            r.ip_selector is None,
            r.block_condition is None,
            !r.fail_closed,
            r.on_missing_field == OnMissingField::Warn,
    {
        Options {
            client: None,
            api_key: None,
            base_url: None,
            timeout: Duration::from_millis(DEFAULT_TIMEOUT_MILLIS),
            retries: DEFAULT_RETRIES,
            ip_selector: None,
            block_condition: None,
            fail_closed: false,
            on_missing_field: OnMissingField::Warn,
        }
    }

    pub fn api_key(self, key: String) -> (r: Self)
        ensures
            r == (Options { api_key: Some(key), ..self }),
    {
        Options { api_key: Some(key), ..self }
    }

    pub fn base_url(self, url: String) -> (r: Self)
        ensures
            r == (Options { base_url: Some(url), ..self }),
    {
        Options { base_url: Some(url), ..self }
    }

    pub fn client(self, client: Client) -> (r: Self)
        ensures
            r == (Options { client: Some(client), ..self }),
    {
        Options { client: Some(client), ..self }
    }

    pub fn timeout(self, timeout: Duration) -> (r: Self)
        ensures
            r == (Options { timeout, ..self }),
    {
        Options { timeout, ..self }
    }

    pub fn retries(self, retries: u32) -> (r: Self)
        ensures
            r == (Options { retries, ..self }),
    {
        Options { retries, ..self }
    }

    pub fn ip_selector(self, selector: IpSelector) -> (r: Self)
        ensures
            r == (Options { ip_selector: Some(selector), ..self }),
    {
        Options { ip_selector: Some(selector), ..self }
    }

    pub fn block_condition(self, conditions: Conditions) -> (r: Self)
        ensures
            r == (Options { block_condition: Some(conditions), ..self }),
    {
        Options { block_condition: Some(conditions), ..self }
    }

    pub fn fail_closed(self, fail_closed: bool) -> (r: Self)
        ensures
            r == (Options { fail_closed, ..self }),
    {
        Options { fail_closed, ..self }
    }

    pub fn on_missing_field(self, on: OnMissingField) -> (r: Self)
        ensures
            r == (Options { on_missing_field: on, ..self }),
    {
        Options { on_missing_field: on, ..self }
    }

    /// The client these options ask for when none is given, but for how long its
    /// attempts have.
    pub open spec fn builder(self) -> ClientBuilder {
        ClientBuilder {
            api_key: self.api_key,
            base_url: self.base_url,
            cache_capacity: None,
            cache_ttl: None,
            cache_off: false,
            concurrency: None,
            retries: Some(self.retries),
            timeout: None,
        }
    }

    /// The client these options ask for when none is given: one whose every
    /// attempt has as long as a lookup may hold a request. It is built from how
    /// its URL is shown and what that URL reads as.
    pub open spec fn built(self, shown: Seq<char>, parsed: Result<bool, Seq<char>>) -> Result<
        ClientView,
        ErrorView,
    > {
        match self.builder().built(shown, parsed) {
            Ok(client) => Ok(ClientView { timeout: self.timeout@, ..client }),
            Err(e) => Err(e),
        }
    }

    /// The first condition that constrains nothing.
    pub open spec fn unconstraining(self) -> Option<Seq<(Seq<char>, ValueView)>> {
        match self.block_condition {
            Some(conditions) => first_unconstraining(condition_views(conditions@)),
            None => None,
        }
    }
}

impl Default for Options {
    fn default() -> (r: Self)
        ensures
            r.client is None,
            r.api_key is None,
            r.base_url is None,
            r.timeout@ == DEFAULT_TIMEOUT_MILLIS * 1_000_000,
            r.retries == DEFAULT_RETRIES,
            r.ip_selector is None,
            r.block_condition is None,
            !r.fail_closed,
            r.on_missing_field == OnMissingField::Warn,
    {
        Options::new()
    }
}

pub open spec fn first_unconstraining(conditions: Seq<Seq<(Seq<char>, ValueView)>>) -> Option<
    Seq<(Seq<char>, ValueView)>,
>
    decreases conditions.len(),
{
    if conditions.len() == 0 {
        None
    } else {
        match first_unconstraining(conditions.drop_last()) {
            Some(condition) => Some(condition),
            None => if leaves_of_terms(conditions.last()) == 0 {
                Some(conditions.last())
            } else {
                None
            },
        }
    }
}

proof fn first_unconstraining_is(conditions: Seq<Seq<(Seq<char>, ValueView)>>, i: int)
    requires
        0 <= i <= conditions.len(),
        forall|j: int| 0 <= j < i ==> leaves_of_terms(#[trigger] conditions[j]) > 0,
        i < conditions.len() ==> leaves_of_terms(conditions[i]) == 0,
    ensures
        first_unconstraining(conditions) == (if i < conditions.len() {
            Some(conditions[i])
        } else {
            None
        }),
    decreases conditions.len(),
{
    if conditions.len() > 0 {
        let front = conditions.drop_last();
        assert forall|j: int| 0 <= j < i && j < front.len() implies leaves_of_terms(
            #[trigger] front[j],
        ) > 0 by {
            assert(leaves_of_terms(conditions[j]) > 0);
        }
        if i < front.len() {
            assert(front[i] == conditions[i]);
            first_unconstraining_is(front, i);
        } else {
            first_unconstraining_is(front, front.len() as int);
            if i == conditions.len() {
                assert(leaves_of_terms(conditions[conditions.len() - 1]) > 0);
            }
        }
    }
}

/// What a middleware attached to the request, whether or not it succeeded.
#[derive(Debug)]
pub struct Lookup {
    /// Whether the condition matched. Always false when none was configured.
    pub blocked: bool,
    /// The address that was classified.
    pub ip: Option<String>,
    /// The answer. `None` when the lookup failed.
    pub result: Option<crate::lookup::Lookup>,
    /// Why the lookup failed. `None` when it succeeded.
    pub error: Option<Error>,
}

pub struct Attached {
    pub blocked: bool,
    pub ip: Option<Seq<char>>,
    pub outcome: Result<LookupView, ErrorView>,
}

impl Lookup {
    /// Exactly one of the answer and the failure is there.
    pub open spec fn attaches(self, attached: Attached) -> bool {
        &&& self.blocked == attached.blocked
        &&& maybe_text(self.ip) == attached.ip
        &&& match attached.outcome {
            Ok(lookup) => self.error is None && (self.result matches Some(result) && result@
                == lookup),
            Err(failure) => self.result is None && (self.error matches Some(error) && error@
                == failure),
        }
    }
}

/// Classifies one request and answers what the adapter should do with it.
pub struct Core {
    pub client: Client,
    pub selector: IpSelector,
    pub condition: Option<Conditions>,
    pub fail_closed: bool,
    pub on_missing_field: OnMissingField,
    /// What has been warned of.
    pub warned: StringHashSet,
}

/// What a request needs next.
#[derive(Debug)]
pub enum Step {
    /// Look this address up.
    LookUp(String),
    /// Hand this to the application.
    Attach(Lookup),
}

pub open spec fn no_address_warning() -> Seq<char> {
    "could not resolve a client address from this request; pass an ip_selector that knows where yours comes from"@
}

pub open spec fn bogon_warning(ip: Seq<char>) -> Seq<char> {
    "resolved the client address as "@ + ip
        + ", which is not a public address. If this application runs behind a proxy or load balancer, configure its trusted-proxy setting or pass an ip_selector that reads your edge's header."@
}

pub open spec fn missing_message(missing: Seq<Seq<char>>) -> Seq<char> {
    "block_condition names "@ + joined(missing, ", "@)
        + ", which your plan does not include, so those terms can never match. An absent member means \"not in your plan\", not \"checked, and no\"."@
}

/// The address a selector's pick stands for: the pick without the white space
/// around it.
pub open spec fn resolved(picked: Option<Seq<char>>) -> Seq<char> {
    match picked {
        Some(ip) => trimmed(ip),
        None => trimmed(Seq::empty()),
    }
}

/// The warning resolving an address gives rise to.
pub open spec fn resolve_warning(ip: Seq<char>) -> Option<Seq<char>> {
    if ip.len() == 0 {
        Some(no_address_warning())
    } else if bogon_text(ip) {
        Some(bogon_warning(ip))
    } else {
        None
    }
}

/// What the members an answer lacks give rise to: a warning, or a refusal.
pub open spec fn missing_report(
    on: OnMissingField,
    conditions: Seq<Seq<(Seq<char>, ValueView)>>,
    answer: JsonView,
) -> Result<Option<Seq<char>>, Seq<char>> {
    let missing = missing_of(conditions, answer);
    if on == OnMissingField::Ignore || missing.len() == 0 {
        Ok(None)
    } else if on == OnMissingField::Fail {
        Err(missing_message(missing))
    } else {
        Ok(Some(missing_message(missing)))
    }
}

/// What is warned of: a warning that was given before is not given again.
pub open spec fn fresh(warned: Set<Seq<char>>, warning: Option<Seq<char>>) -> Option<Seq<char>> {
    match warning {
        Some(message) => if warned.contains(message) {
            None
        } else {
            Some(message)
        },
        None => None,
    }
}

/// What has been warned of once a warning was given.
pub open spec fn warned_with(warned: Set<Seq<char>>, warning: Option<Seq<char>>) -> Set<Seq<char>> {
    match warning {
        Some(message) => warned.insert(message),
        None => warned,
    }
}

impl Core {
    /// What has been warned of.
    pub open spec fn warned(self) -> Set<Seq<char>> {
        self.warned@
    }

    /// Everything but what has been warned of is as it was.
    pub open spec fn kept(self, other: Core) -> bool {
        &&& self.client == other.client
        &&& self.selector == other.selector
        &&& self.condition == other.condition
        &&& self.fail_closed == other.fail_closed
        &&& self.on_missing_field == other.on_missing_field
    }

    /// Refuses a condition that constrains nothing, and builds a client when none
    /// was passed.
    pub fn new(options: Options) -> (r: Result<Self, Error>)
        ensures
            match r {
                Ok(core) => {
                    &&& options.unconstraining() is None
                    &&& match options.client {
                        Some(client) => core.client == client,
                        None => options.built(
                            debug_text(options.builder().url()),
                            parsed_url(options.builder().url()),
                        ) == Ok::<ClientView, ErrorView>(core.client@),
                    }
                    &&& core.selector == (match options.ip_selector {
                        Some(selector) => selector,
                        None => IpSelector::FrameworkIp,
                    })
                    &&& core.condition == options.block_condition
                    &&& core.fail_closed == options.fail_closed
                    &&& core.on_missing_field == options.on_missing_field
                    &&& core.warned() == Set::<Seq<char>>::empty()
                },
                Err(e) => match options.unconstraining() {
                    Some(condition) => e@ == ErrorView::Config(
                        "vpndetection: "@ + constrains_nothing(shown(condition)),
                    ),
                    None => options.client is None && options.built(
                        debug_text(options.builder().url()),
                        parsed_url(options.builder().url()),
                    ) == Err::<ClientView, ErrorView>(e@),
                },
            },
            options.unconstraining() is None && options.client is None && options.base_url is None
                ==> parsed_url(DEFAULT_BASE_URL@) == Ok::<bool, Seq<char>>(true),
    {
        match &options.block_condition {
            Some(conditions) => {
                let checked = validate(conditions);
                proof {
                    unconstraining_found(conditions@, checked);
                }
                match checked {
                    Ok(_) => {},
                    Err(e) => return Err(Error::Config(e.to_text())),
                }
            },
            None => {},
        }
        let client = match options.client {
            Some(client) => client,
            None => {
                let builder = ClientBuilder {
                    api_key: options.api_key,
                    base_url: options.base_url,
                    cache_capacity: None,
                    cache_ttl: None,
                    cache_off: false,
                    concurrency: None,
                    retries: Some(options.retries),
                    timeout: None,
                };
                match builder.build() {
                    Ok(client) => Client { timeout: options.timeout, ..client },
                    Err(e) => return Err(e),
                }
            },
        };
        Ok(
            Core {
                client,
                selector: match options.ip_selector {
                    Some(selector) => selector,
                    None => IpSelector::FrameworkIp,
                },
                condition: options.block_condition,
                fail_closed: options.fail_closed,
                on_missing_field: options.on_missing_field,
                warned: StringHashSet::new(),
            },
        )
    }

    /// Whether a condition was configured at all.
    pub fn blocking(&self) -> (r: bool)
        ensures
            r == (self.condition is Some),
    {
        self.condition.is_some()
    }

    /// Hands a warning over the first time it is given: a misconfiguration is
    /// the same on every request.
    fn warn(&mut self, message: String) -> (r: Option<String>)
        ensures
            maybe_text(r) == fresh(old(self).warned(), Some(message@)),
            final(self).warned() == warned_with(old(self).warned(), Some(message@)),
            final(self).kept(*old(self)),
    {
        if self.warned.insert(message.clone()) {
            Some(message)
        } else {
            assert(self.warned@ =~= old(self).warned@);
            None
        }
    }

    /// Classifies one request: picks its address with the selector, and says what
    /// to do with it.
    pub fn evaluate(&mut self, view: &RequestView) -> (r: (Step, Option<String>))
        ensures
            final(self).kept(*old(self)),
            final(self).warned() == warned_with(
                old(self).warned(),
                resolve_warning(resolved(selected(old(self).selector, *view))),
            ),
            maybe_text(r.1) == fresh(
                old(self).warned(),
                resolve_warning(resolved(selected(old(self).selector, *view))),
            ),
            step_of(
                r.0,
                resolved(selected(old(self).selector, *view)),
                old(self).fail_closed && old(self).condition is Some,
            ),
    {
        let picked = self.selector.select(view);
        self.resolve(picked)
    }

    /// Says what to do with the address a selector picked, and what to warn of.
    pub fn resolve(&mut self, picked: Option<String>) -> (r: (Step, Option<String>))
        ensures
            final(self).kept(*old(self)),
            final(self).warned() == warned_with(
                old(self).warned(),
                resolve_warning(resolved(maybe_text(picked))),
            ),
            maybe_text(r.1) == fresh(
                old(self).warned(),
                resolve_warning(resolved(maybe_text(picked))),
            ),
            step_of(
                r.0,
                resolved(maybe_text(picked)),
                old(self).fail_closed && old(self).condition is Some,
            ),
    {
        let raw = match picked {
            Some(ip) => ip,
            None => String::new(),
        };
        let ip = trim(raw.as_str());
        if ip.as_str().is_empty() {
            let warning = self.warn(
                "could not resolve a client address from this request; pass an ip_selector that knows where yours comes from".to_owned(),
            );
            let attached = Lookup {
                blocked: self.fail_closed && self.condition.is_some(),
                ip: None,
                result: None,
                error: Some(Error::Config("no client address on the request".to_owned())),
            };
            return (Step::Attach(attached), warning);
        }
        let mut warning: Option<String> = None;
        if is_bogon(ip.as_str()) {
            let mut message = concat("resolved the client address as ", ip.as_str());
            message.append(
                ", which is not a public address. If this application runs behind a proxy or load balancer, configure its trusted-proxy setting or pass an ip_selector that reads your edge's header.",
            );
            warning = self.warn(message);
        }
        (Step::LookUp(ip), warning)
    }

    /// Says what to attach once the address was looked up, and what to warn of. A
    /// failed lookup is no error here. What can fail is a misconfiguration: a
    /// condition naming a member the plan does not serve.
    pub fn conclude(&mut self, ip: String, outcome: Result<crate::lookup::Lookup, Error>) -> (r: (
        Result<Lookup, ConditionError>,
        Option<String>,
    ))
        ensures
            final(self).kept(*old(self)),
            final(self).warned() == warned_with(
                old(self).warned(),
                conclusion(*old(self), ip@, outcome_view(outcome)).1,
            ),
            maybe_text(r.1) == fresh(
                old(self).warned(),
                conclusion(*old(self), ip@, outcome_view(outcome)).1,
            ),
            match r.0 {
                Ok(lookup) => conclusion(
                    *old(self),
                    ip@,
                    outcome_view(outcome),
                ).0 matches Ok(attached) && lookup.attaches(attached),
                Err(e) => conclusion(*old(self), ip@, outcome_view(outcome)).0 == Err::<
                    Attached,
                    Seq<char>,
                >(e@),
            },
    {
        let result = match outcome {
            Ok(result) => result,
            Err(error) => {
                let attached = Lookup {
                    blocked: self.fail_closed && self.condition.is_some(),
                    ip: Some(ip),
                    result: None,
                    error: Some(error),
                };
                return (Ok(attached), None);
            },
        };
        let mut warning: Option<String> = None;
        let mut blocked = false;
        if self.condition.is_some() {
            let answer = result.answer.wire();
            match self.report_missing(&answer) {
                Ok(given) => {
                    warning = given;
                },
                Err(e) => return (Err(e), None),
            }
            blocked =
            match &self.condition {
                Some(conditions) => crate::middleware::matching::matches(conditions, &answer),
                None => false,
            };
        }
        let attached = Lookup { blocked, ip: Some(ip), result: Some(result), error: None };
        (Ok(attached), warning)
    }

    fn report_missing(&mut self, answer: &Json) -> (r: Result<Option<String>, ConditionError>)
        requires
            old(self).condition is Some,
        ensures
            final(self).kept(*old(self)),
            match missing_report(
                old(self).on_missing_field,
                condition_views((old(self).condition->0)@),
                answer@,
            ) {
                Ok(warning) => {
                    &&& r matches Ok(given) && maybe_text(given) == fresh(
                        old(self).warned(),
                        warning,
                    )
                    &&& final(self).warned() == warned_with(old(self).warned(), warning)
                },
                Err(message) => {
                    &&& r matches Err(e) && e@ == message
                    &&& final(self).warned() == old(self).warned()
                },
            },
    {
        if self.on_missing_field == OnMissingField::Ignore {
            return Ok(None);
        }
        let missing = match &self.condition {
            Some(conditions) => missing_members(conditions, answer),
            None => Vec::new(),
        };
        assert(texts(missing@).len() == missing@.len());
        if missing.len() == 0 {
            return Ok(None);
        }
        let names = join(&missing, ", ");
        let mut message = concat("block_condition names ", names.as_str());
        message.append(
            ", which your plan does not include, so those terms can never match. An absent member means \"not in your plan\", not \"checked, and no\".",
        );
        if self.on_missing_field == OnMissingField::Fail {
            return Err(ConditionError::new(message));
        }
        Ok(self.warn(message))
    }
}

proof fn unconstraining_found(conditions: Seq<Condition>, checked: Result<(), ConditionError>)
    requires
        match checked {
            Ok(_) => forall|i: int|
                0 <= i < conditions.len() ==> leaves_of_terms((#[trigger] conditions[i])@) > 0,
            Err(e) => exists|i: int|
                0 <= i < conditions.len() && leaves_of_terms((#[trigger] conditions[i])@) == 0
                    && e@ == constrains_nothing(shown(conditions[i]@)) && forall|j: int|
                    0 <= j < i ==> leaves_of_terms((#[trigger] conditions[j])@) > 0,
        },
    ensures
        match checked {
            Ok(_) => first_unconstraining(condition_views(conditions)) is None,
            Err(e) => first_unconstraining(condition_views(conditions)) matches Some(condition)
                && e@ == constrains_nothing(shown(condition)),
        },
{
    let views = condition_views(conditions);
    match checked {
        Ok(_) => {
            assert forall|j: int| 0 <= j < views.len() implies leaves_of_terms(#[trigger] views[j])
                > 0 by {
                assert(leaves_of_terms(conditions[j]@) > 0);
            }
            first_unconstraining_is(views, views.len() as int);
        },
        Err(e) => {
            let i = choose|i: int|
                0 <= i < conditions.len() && leaves_of_terms((#[trigger] conditions[i])@) == 0
                    && e@ == constrains_nothing(shown(conditions[i]@)) && forall|j: int|
                    0 <= j < i ==> leaves_of_terms((#[trigger] conditions[j])@) > 0;
            assert forall|j: int| 0 <= j < i implies leaves_of_terms(#[trigger] views[j]) > 0 by {
                assert(leaves_of_terms(conditions[j]@) > 0);
            }
            first_unconstraining_is(views, i);
        },
    }
}

/// What resolving an address comes to: a request without one is attached with
/// that failure, blocked or not, and any other address is looked up.
pub open spec fn step_of(step: Step, ip: Seq<char>, blocked: bool) -> bool {
    if ip.len() == 0 {
        step matches Step::Attach(lookup) && lookup.attaches(
            Attached {
                blocked,
                ip: None,
                outcome: Err(ErrorView::Config("no client address on the request"@)),
            },
        )
    } else {
        step matches Step::LookUp(address) && address@ == ip
    }
}

/// What a looked up address comes to, and what to warn of.
pub open spec fn conclusion(
    core: Core,
    ip: Seq<char>,
    outcome: Result<LookupView, ErrorView>,
) -> (Result<Attached, Seq<char>>, Option<Seq<char>>) {
    match outcome {
        Err(_) => (
            Ok(
                Attached {
                    blocked: core.fail_closed && core.condition is Some,
                    ip: Some(ip),
                    outcome,
                },
            ),
            None,
        ),
        Ok(lookup) => match core.condition {
            None => (Ok(Attached { blocked: false, ip: Some(ip), outcome }), None),
            Some(conditions) => match missing_report(
                core.on_missing_field,
                condition_views(conditions@),
                lookup.answer.wire(),
            ) {
                Err(message) => (Err(message), None),
                Ok(warning) => (
                    Ok(
                        Attached {
                            blocked: conditions_match(
                                condition_views(conditions@),
                                lookup.answer.wire(),
                            ),
                            ip: Some(ip),
                            outcome,
                        },
                    ),
                    warning,
                ),
            },
        },
    }
}

/// Without a condition no request is blocked, whatever came of its lookup and
/// whatever failures are to do.
pub proof fn law_without_a_condition_nothing_is_blocked(
    core: Core,
    ip: Seq<char>,
    outcome: Result<LookupView, ErrorView>,
)
    requires
        core.condition is None,
    ensures
        conclusion(core, ip, outcome).0 matches Ok(attached) && !attached.blocked,
{
}

/// Without a condition a request that no address could be resolved for is not
/// blocked either.
pub proof fn law_without_a_condition_no_address_is_needed(core: Core, step: Step)
    requires
        core.condition is None,
        step_of(step, Seq::empty(), core.fail_closed && core.condition is Some),
    ensures
        step matches Step::Attach(lookup) && !lookup.blocked,
{
}

/// A lookup that failed lets the request through, unless there is a condition
/// and failures are to block.
pub proof fn law_a_failed_lookup_blocks_only_when_told_to(
    core: Core,
    ip: Seq<char>,
    failure: ErrorView,
)
    ensures
        conclusion(core, ip, Err(failure)).0 matches Ok(attached) && attached.blocked == (
        core.fail_closed && core.condition is Some),
{
}

/// A warning is given once, however often it arises.
pub proof fn law_a_warning_is_given_once(warned: Set<Seq<char>>, message: Seq<char>)
    ensures
        fresh(warned_with(warned, Some(message)), Some(message)) is None,
{
}

/// A request is blocked, where its lookup succeeded, exactly when one of the conditions
/// matches what was served on the wire, and it carries the answer and the address as they
/// are.
pub proof fn law_a_request_is_blocked_when_a_condition_matches(
    core: Core,
    conditions: Conditions,
    ip: Seq<char>,
    lookup: LookupView,
    failure: ErrorView,
)
    requires
        core.condition == Some(conditions),
    ensures
        conclusion(core, ip, Ok(lookup)).0 matches Ok(attached) ==> attached.blocked
            == conditions_match(condition_views(conditions@), lookup.answer.wire())
            && attached.ip == Some(ip) && attached.outcome == Ok::<LookupView, ErrorView>(lookup),
        core.on_missing_field == OnMissingField::Ignore ==> conclusion(core, ip, Ok(lookup)).0 is Ok,
        core.on_missing_field == OnMissingField::Warn ==> conclusion(core, ip, Ok(lookup)).0 is Ok,
        missing_of(condition_views(conditions@), lookup.answer.wire()).len() == 0 ==> conclusion(
            core,
            ip,
            Ok(lookup),
        ).0 is Ok,
        conclusion(core, ip, Err(failure)).0 matches Ok(attached) && attached.ip == Some(ip)
            && attached.outcome == Err::<LookupView, ErrorView>(failure),
{
}

/// A condition on one flag blocks exactly the requests whose address is served that flag
/// as true: each flag by its own name, whatever the other flags are, and never for a flag
/// that is absent or false.
pub proof fn law_a_flag_blocks_what_it_flags(
    core: Core,
    conditions: Conditions,
    ip: Seq<char>,
    lookup: crate::lookup::Lookup,
    name: Seq<char>,
)
    requires
        core.condition == Some(conditions),
        core.on_missing_field != OnMissingField::Fail,
        condition_views(conditions@) == seq![seq![(name, ValueView::Bool(true))]],
    ensures
        ({
            let blocked = (conclusion(core, ip, Ok(lookup@)).0->Ok_0).blocked;
            &&& name == "is_vpn"@ ==> blocked == (lookup.answer.is_vpn)
            &&& name == "is_cdn"@ ==> blocked == (lookup.answer.is_cdn == Some(true))
            &&& name == "is_dcproxy"@ ==> blocked == (lookup.answer.is_dcproxy == Some(true))
            &&& name == "is_hosting"@ ==> blocked == (lookup.answer.is_hosting == Some(true))
            &&& name == "is_mobproxy"@ ==> blocked == (lookup.answer.is_mobproxy == Some(true))
            &&& name == "is_relay"@ ==> blocked == (lookup.answer.is_relay == Some(true))
            &&& name == "is_resproxy"@ ==> blocked == (lookup.answer.is_resproxy == Some(true))
            &&& name == "is_tor"@ ==> blocked == (lookup.answer.is_tor == Some(true))
        }),
{
    law_each_member_is_its_own_field(lookup.answer);
    law_a_flag_is_matched_by_itself(name, name, lookup@.answer.wire());
}

/// A request without an address is attached with that failure, and any other address is
/// looked up as it was picked, without the space around it.
pub proof fn law_an_address_is_looked_up_as_picked(
    step: Step,
    picked: Seq<char>,
    blocked: bool,
)
    ensures
        resolved(Some(picked)) == trimmed(picked),
        resolved(None).len() == 0,
        step_of(step, resolved(Some(picked)), blocked) && trimmed(picked).len() > 0 ==> (
        step matches Step::LookUp(ip) && ip@ == trimmed(picked)),
        step_of(step, resolved(None), blocked) || (step_of(step, resolved(Some(picked)), blocked)
            && trimmed(picked).len() == 0) ==> (step matches Step::Attach(attached)
            && attached.blocked == blocked && attached.ip is None && attached.result is None && (
        attached.error matches Some(e) && e@ == ErrorView::Config(
            "no client address on the request"@,
        ))),
{
}

/// What is warned of: an address that cannot be resolved, one that is not public and is
/// named, and nothing else; each the first time it arises and never after.
pub proof fn law_what_is_warned_of(
    ip: Seq<char>,
    warned: Set<Seq<char>>,
    message: Seq<char>,
    other: Seq<char>,
)
    ensures
        ip.len() == 0 ==> resolve_warning(ip) == Some(
            "could not resolve a client address from this request; pass an ip_selector that knows where yours comes from"@,
        ),
        ip.len() > 0 && !bogon_text(ip) ==> resolve_warning(ip) is None,
        ip.len() > 0 && bogon_text(ip) ==> resolve_warning(ip) == Some(
            "resolved the client address as "@ + ip
                + ", which is not a public address. If this application runs behind a proxy or load balancer, configure its trusted-proxy setting or pass an ip_selector that reads your edge's header."@,
        ),
        fresh(warned, None) is None,
        !warned.contains(message) ==> fresh(warned, Some(message)) == Some(message),
        warned.contains(message) ==> fresh(warned, Some(message)) is None,
        warned_with(warned, None) == warned,
        warned_with(warned, Some(message)).contains(message),
        other != message ==> warned_with(warned, Some(message)).contains(other) == warned.contains(
            other,
        ),
{
}

/// Members that are wanted and not served are passed over, refused or warned of, as the
/// middleware was told, and named in order in so many words.
pub proof fn law_what_missing_members_give_rise_to(
    conditions: Seq<Seq<(Seq<char>, ValueView)>>,
    answer: JsonView,
)
    ensures
        ({
            let missing = missing_of(conditions, answer);
            let message = "block_condition names "@ + joined(missing, ", "@)
                + ", which your plan does not include, so those terms can never match. An absent member means \"not in your plan\", not \"checked, and no\"."@;
            &&& missing_report(OnMissingField::Ignore, conditions, answer) == Ok::<
                Option<Seq<char>>,
                Seq<char>,
            >(None)
            &&& missing.len() == 0 ==> missing_report(OnMissingField::Warn, conditions, answer)
                == Ok::<Option<Seq<char>>, Seq<char>>(None) && missing_report(
                OnMissingField::Fail,
                conditions,
                answer,
            ) == Ok::<Option<Seq<char>>, Seq<char>>(None)
            &&& missing.len() > 0 ==> missing_report(OnMissingField::Warn, conditions, answer)
                == Ok::<Option<Seq<char>>, Seq<char>>(Some(message)) && missing_report(
                OnMissingField::Fail,
                conditions,
                answer,
            ) == Err::<Option<Seq<char>>, Seq<char>>(message)
        }),
{
}

/// Options are refused for the first of their conditions that constrains nothing, and for
/// none when each constrains something.
pub proof fn law_the_first_condition_that_constrains_nothing(
    options: Options,
    conditions: Conditions,
    i: int,
)
    requires
        options.block_condition == Some(conditions),
        0 <= i <= conditions@.len(),
        forall|j: int|
            0 <= j < i ==> leaves_of_terms(#[trigger] condition_views(conditions@)[j]) > 0,
        i < conditions@.len() ==> leaves_of_terms(condition_views(conditions@)[i]) == 0,
    ensures
        options.unconstraining() == (if i < conditions@.len() {
            Some(conditions@[i]@)
        } else {
            None
        }),
{
    first_unconstraining_is(condition_views(conditions@), i);
}

/// Without a condition, options are refused for none.
pub proof fn law_no_condition_is_none_that_constrains_nothing(options: Options)
    requires
        options.block_condition is None,
    ensures
        options.unconstraining() is None,
{
}

/// The client a middleware builds has its key, its URL, its retries and its timeout, and
/// otherwise what any client has. Set for a request path, it has two and a half seconds
/// and no retries unless told otherwise.
pub proof fn law_a_middleware_builds_the_client_it_was_told(options: Options, shown: Seq<char>)
    ensures
        options.built(shown, Ok(true)) matches Ok(client) && client.timeout == options.timeout@
            && client.retries == options.retries && client.concurrency == 8 && client.cache == Some(
            (10_000u64, 3600 * 1_000_000_000nat),
        ),
        options.api_key is None ==> (options.built(shown, Ok(true))->Ok_0).api_key is None,
        options.api_key matches Some(key) ==> (options.built(shown, Ok(true))->Ok_0).api_key == Some(
            key@,
        ),
        options.base_url matches Some(url) ==> (options.built(shown, Ok(true))->Ok_0).base_url
            == without_end_slashes(url@),
        options.base_url is None ==> (options.built(shown, Ok(true))->Ok_0).base_url
            == without_end_slashes("https://api.vpndetection.io"@),
        options.built(shown, Ok(false)) is Err,
        DEFAULT_TIMEOUT_MILLIS == 2500,
        DEFAULT_RETRIES == 0,
{
}

/// What is attached reads as it is: one answer or one failure, and never both.
pub proof fn law_one_of_answer_and_failure_is_attached(lookup: Lookup, attached: Attached)
    requires
        lookup.attaches(attached),
    ensures
        lookup.blocked == attached.blocked,
        (lookup.result is Some) != (lookup.error is Some),
        attached.outcome matches Ok(answer) ==> (lookup.result matches Some(result) && result@
            == answer),
        attached.outcome matches Err(failure) ==> (lookup.error matches Some(error) && error@
            == failure),
        attached.ip is None ==> lookup.ip is None,
        attached.ip matches Some(ip) ==> (lookup.ip matches Some(text) && text@ == ip),
{
}

/// Nothing but what has been warned of changes about a middleware that is kept.
pub proof fn law_a_middleware_stays_what_it_was(core: Core, other: Core)
    requires
        core.kept(other),
    ensures
        core.client == other.client,
        core.selector == other.selector,
        core.condition == other.condition,
        core.fail_closed == other.fail_closed,
        core.on_missing_field == other.on_missing_field,
{
}

/// Members that are wanted and not served end in a refusal when the middleware was told to
/// fail on them, and in a warning beside the answer when it was told to warn, in the words
/// that name them.
pub proof fn law_missing_members_end_as_the_middleware_was_told(
    core: Core,
    conditions: Conditions,
    ip: Seq<char>,
    lookup: LookupView,
)
    requires
        core.condition == Some(conditions),
    ensures
        ({
            let missing = missing_of(condition_views(conditions@), lookup.answer.wire());
            let (concluded, warning) = conclusion(core, ip, Ok(lookup));
            &&& missing.len() > 0 && core.on_missing_field == OnMissingField::Fail ==> concluded
                == Err::<Attached, Seq<char>>(missing_message(missing)) && warning is None
            &&& missing.len() > 0 && core.on_missing_field == OnMissingField::Warn ==> concluded
                is Ok && warning == Some(missing_message(missing))
            &&& missing.len() == 0 || core.on_missing_field == OnMissingField::Ignore ==> concluded
                is Ok && warning is None
        }),
{
}

}
