//! The resolution orchestrator, as a state machine: it says which page to
//! fetch next, takes what the fetch brought, and ends with a record or with
//! one message that names every adapter that failed, in the order they were
//! tried. The caller performs the fetches.
use vstd::prelude::*;
use crate::adapters::{
    douyin_item_model, is_success_status, mirror_accepts, mirror_endpoint, mirror_label,
    mirror_outcome_ok, mirror_response, Mirror,
};
use crate::json::parsed_json;
use crate::douyin::{
    api_item, candidate_pages, embedded_json, item_info_page, page_item, retry_work, work_in,
    candidate_urls, extract_aweme_id, find_retry_work, item_info_url, official_api_record,
    scrape_share_page, PageResult,
};
use crate::platform::{classify, platform_of, Platform};
use crate::record::{
    built_from, has_content, raw_has_content, strings_view, Failure, FailureKind, MediaRecord,
};
use crate::json::Json;
use crate::text::{chars_of, find_chars, find_from, occurs_at, string_of, slice_chars};

verus! {

/// One adapter of a resolution plan.
#[derive(Clone, Copy, Debug, PartialEq, Eq, Structural)]
pub enum Provider {
    SharePage,
    OfficialApi,
    Mirror(Mirror),
}

pub open spec fn provider_label(p: Provider) -> Seq<char> {
    match p {
        Provider::SharePage => "share-page"@,
        Provider::OfficialApi => "official-api"@,
        Provider::Mirror(m) => mirror_label(m),
    }
}

impl Provider {
    pub fn label(&self) -> (r: String)
        ensures
            r@ == provider_label(*self),
    {
        match self {
            Provider::SharePage => String::from_str("share-page"),
            Provider::OfficialApi => String::from_str("official-api"),
            Provider::Mirror(m) => m.label(),
        }
    }
}

/// The provider chain: the share page for a Douyin link, then the three
/// services in their fixed order.
pub open spec fn chain_plan(p: Platform) -> Seq<Provider> {
    let mirrors = seq![
        Provider::Mirror(Mirror::TikWm),
        Provider::Mirror(Mirror::Hybrid),
        Provider::Mirror(Mirror::Flagged),
    ];
    if p == Platform::Douyin {
        seq![Provider::SharePage] + mirrors
    } else {
        mirrors
    }
}

/// The legacy order: share page, item-info API, then the whole chain.
pub open spec fn legacy_plan(p: Platform) -> Seq<Provider> {
    seq![Provider::SharePage, Provider::OfficialApi] + chain_plan(p)
}

pub open spec fn plan_for(p: Platform, legacy: bool) -> Seq<Provider> {
    if legacy {
        legacy_plan(p)
    } else {
        chain_plan(p)
    }
}

/// `label: detail` for one failed adapter.
pub open spec fn entry_text(p: Provider, detail: Seq<char>) -> Seq<char> {
    provider_label(p) + ": "@ + detail
}

/// The entries from `from` on, joined by ` | `.
pub open spec fn joined(plan: Seq<Provider>, ds: Seq<Seq<char>>, from: int) -> Seq<char>
    decreases plan.len() - from,
{
    if from < 0 || from >= plan.len() {
        Seq::<char>::empty()
    } else if from == plan.len() - 1 {
        entry_text(plan[from], ds[from])
    } else {
        entry_text(plan[from], ds[from]) + " | "@ + joined(plan, ds, from + 1)
    }
}

/// The message when every adapter failed: the chain's entries joined; for
/// the legacy order, the share-page part, the item-info part and the chain's
/// part.
pub open spec fn final_message(plan: Seq<Provider>, ds: Seq<Seq<char>>, legacy: bool) -> Seq<char> {
    if legacy {
        entry_text(plan[0], ds[0]) + " | "@ + entry_text(plan[1], ds[1]) + " | provider chain: "@
            + joined(plan, ds, 2)
    } else {
        joined(plan, ds, 0)
    }
}

pub open spec fn details(fs: Seq<Failure>) -> Seq<Seq<char>> {
    fs.map_values(|f: Failure| f.detail@)
}

/// `b` extends `a`.
pub open spec fn extends<T>(a: Seq<T>, b: Seq<T>) -> bool {
    a.len() <= b.len() && forall|i: int| 0 <= i < a.len() ==> #[trigger] b[i] == a[i]
}

/// A fetch the caller is to make.
#[derive(Debug)]
pub struct Request {
    pub url: String,
    /// The value of a `url` query parameter to add, where there is one.
    pub query_url: Option<String>,
    pub referer: String,
}

/// What a fetch brought.
#[derive(Debug)]
pub enum Event {
    /// An HTTP answer, with the URL that redirects ended at.
    Response { status: u16, final_url: String, body: String },
    /// No answer: connection, timeout or redirect failure.
    TransportError(String),
}

#[derive(Debug)]
pub enum Action {
    Fetch(Request),
    Done(Result<MediaRecord, String>),
}

/// Where the adapter in progress stands.
#[derive(Clone, Copy, Debug, PartialEq, Eq, Structural)]
pub enum Phase {
    /// Its first fetch.
    Entry,
    /// The share page's retry on candidate page `i`.
    Candidate(usize),
    /// The item-info API call.
    ApiCall,
}

/// One resolution in progress.
pub struct Resolver {
    source: String,
    platform: Platform,
    legacy: bool,
    plan: Vec<Provider>,
    pos: usize,
    phase: Phase,
    failures: Vec<Failure>,
    candidates: Vec<String>,
    attempts: String,
}

/// The page to send as `Referer` for a source URL: its scheme and host, or
/// the Douyin home page where it has none.
pub open spec fn referer_of(u: Seq<char>) -> Seq<char> {
    match find_from(u, "://"@, 0) {
        Some(k) => {
            let h = host_end(u, k + 3);
            if k > 0 && h > k + 3 {
                u.subrange(0, h) + "/"@
            } else {
                "https://www.douyin.com/"@
            }
        },
        None => "https://www.douyin.com/"@,
    }
}

/// The first index at or after `from` holding `/`, `?` or `#`, else the length.
pub open spec fn host_end(u: Seq<char>, from: int) -> int
    decreases u.len() - from,
{
    if from < 0 || from >= u.len() {
        u.len() as int
    } else if u[from] == '/' || u[from] == '?' || u[from] == '#' {
        from
    } else {
        host_end(u, from + 1)
    }
}

pub fn referer_for(url: &str) -> (r: String)
    ensures
        r@ == referer_of(url@),
{
    let u = chars_of(url);
    let mark = chars_of("://");
    let n = u.len();
    match find_chars(&u, &mark, 0) {
        Some(k) => {
            proof {
                crate::text::lemma_find_from_in_range(u@, mark@, 0);
                reveal_strlit("://");
            }
            let mut h: usize = k + 3;
            while h < n && u[h] != '/' && u[h] != '?' && u[h] != '#'
                invariant
                    k + 3 <= h <= n == u@.len(),
                    host_end(u@, k + 3) == host_end(u@, h as int),
                decreases n - h,
            {
                h = h + 1;
            }
            if k > 0 && h > k + 3 {
                let mut v = slice_chars(&u, 0, h);
                v.push('/');
                proof {
                    reveal_strlit("/");
                }
                assert(v@ =~= u@.subrange(0, h as int) + "/"@);
                string_of(v.as_slice())
            } else {
                String::from_str("https://www.douyin.com/")
            }
        },
        None => String::from_str("https://www.douyin.com/"),
    }
}

fn plan_vec(p: Platform, legacy: bool) -> (r: Vec<Provider>)
    ensures
        r@ == plan_for(p, legacy),
{
    let mut r: Vec<Provider> = Vec::new();
    if legacy {
        r.push(Provider::SharePage);
        r.push(Provider::OfficialApi);
    }
    if p == Platform::Douyin {
        r.push(Provider::SharePage);
    }
    r.push(Provider::Mirror(Mirror::TikWm));
    r.push(Provider::Mirror(Mirror::Hybrid));
    r.push(Provider::Mirror(Mirror::Flagged));
    assert(r@ =~= plan_for(p, legacy));
    r
}

/// `req` is the first request of adapter `p` for the source URL `source`: the
/// source itself for the share page and the item-info API, the service's
/// endpoint with the source as its `url` parameter for a mirror; the referer
/// is the source's.
pub open spec fn starts_adapter(p: Provider, source: Seq<char>, req: Request) -> bool {
    &&& req.referer@ == referer_of(source)
    &&& match p {
        Provider::Mirror(m) => req.url@ == mirror_endpoint(m) && req.query_url is Some
            && req.query_url->0@ == source,
        _ => req.url@ == source && req.query_url is None,
    }
}

/// The adapter in progress has failed: at least one more failure is recorded
/// (the adapters skipped after it are share pages of a non-Douyin link), and
/// a fetch that follows is the first request of the next adapter.
pub open spec fn moved_on(old: Resolver, new: Resolver, a: Action) -> bool {
    &&& new.failed_count() > old.failed_count()
    &&& new.phase_view() == Phase::Entry
    &&& (a matches Action::Fetch(req) ==> new.running() && starts_adapter(
        new.current(),
        new.source_view(),
        req,
    ))
}

/// Candidate page `i` gave nothing: the next candidate is fetched, or after
/// the last one the share page has failed.
pub open spec fn candidate_moved(old: Resolver, new: Resolver, a: Action, i: int) -> bool {
    if i + 1 < old.candidates_view().len() {
        &&& a is Fetch
        &&& a->Fetch_0.url@ == old.candidates_view()[i + 1]
        &&& new.phase_view() == Phase::Candidate((i + 1) as usize)
        &&& new.candidates_view() == old.candidates_view()
        &&& new.failed_count() == old.failed_count()
    } else {
        moved_on(old, new, a)
    }
}

/// The item of a fetched share page, where the answer is 2xx and its embedded
/// JSON parses.
pub open spec fn page_item_of(status: u16, body: Seq<char>) -> Option<Json> {
    if is_success_status(status) && embedded_json(body) is Some && parsed_json(
        embedded_json(body)->0,
    ) is Some {
        page_item(parsed_json(embedded_json(body)->0)->0)
    } else {
        None
    }
}

pub open spec fn page_gives_record(status: u16, body: Seq<char>) -> bool {
    page_item_of(status, body) is Some && raw_has_content(
        douyin_item_model(page_item_of(status, body)->0),
    )
}

/// The answer has no item to offer, which sends the share page to its retry.
pub open spec fn page_is_missing(status: u16, body: Seq<char>) -> bool {
    ||| !is_success_status(status)
    ||| embedded_json(body) is None
    ||| (parsed_json(embedded_json(body)->0) is Some && page_item(
        parsed_json(embedded_json(body)->0)->0,
    ) is None)
}

/// What the share page does with one answer.
pub open spec fn share_step(old: Resolver, new: Resolver, event: Event, a: Action) -> bool {
    match event {
        Event::TransportError(_) => match old.phase_view() {
            Phase::Candidate(i) => candidate_moved(old, new, a, i as int),
            _ => moved_on(old, new, a),
        },
        Event::Response { status, final_url, body } => if page_gives_record(status, body@) {
            a is Done && a->Done_0 is Ok && built_from(
                douyin_item_model(page_item_of(status, body@)->0),
                platform_of(old.source_view()),
                a->Done_0->Ok_0,
            )
        } else {
            match old.phase_view() {
                Phase::Candidate(i) => candidate_moved(old, new, a, i as int),
                _ => if page_is_missing(status, body@) {
                    match retry_work(final_url@, old.source_view(), body@) {
                        Some(w) => {
                            &&& a is Fetch
                            &&& a->Fetch_0.url@ == candidate_pages(w.0, w.1)[0]
                            &&& new.phase_view() == Phase::Candidate(0)
                            &&& new.candidates_view() == candidate_pages(w.0, w.1)
                            &&& new.failed_count() == old.failed_count()
                        },
                        None => moved_on(old, new, a),
                    }
                } else {
                    moved_on(old, new, a)
                },
            }
        },
    }
}

/// The item-info answer gives a record: 2xx, JSON, an item, content in it.
pub open spec fn api_gives_record(status: u16, body: Seq<char>) -> bool {
    &&& is_success_status(status)
    &&& parsed_json(body) is Some
    &&& api_item(parsed_json(body)->0) is Some
    &&& raw_has_content(douyin_item_model(api_item(parsed_json(body)->0)->0))
}

/// What the item-info adapter does with one answer.
pub open spec fn official_step(old: Resolver, new: Resolver, event: Event, a: Action) -> bool {
    match event {
        Event::TransportError(_) => moved_on(old, new, a),
        Event::Response { status, final_url, body } => match old.phase_view() {
            Phase::ApiCall => if api_gives_record(status, body@) {
                a is Done && a->Done_0 is Ok && built_from(
                    douyin_item_model(api_item(parsed_json(body@)->0)->0),
                    platform_of(old.source_view()),
                    a->Done_0->Ok_0,
                )
            } else {
                moved_on(old, new, a)
            },
            _ => match work_in(final_url@) {
                Some(w) => {
                    &&& a is Fetch
                    &&& a->Fetch_0.url@ == item_info_page(w.0)
                    &&& a->Fetch_0.query_url is None
                    &&& a->Fetch_0.referer@ == referer_of(old.source_view())
                    &&& new.phase_view() == Phase::ApiCall
                    &&& new.failed_count() == old.failed_count()
                },
                None => moved_on(old, new, a),
            },
        },
    }
}

/// What a mirror adapter does with one answer.
pub open spec fn mirror_step(m: Mirror, old: Resolver, new: Resolver, event: Event, a: Action) -> bool {
    match event {
        Event::Response { status, final_url: _, body } => if mirror_accepts(m, status, body@) {
            a is Done && a->Done_0 is Ok && mirror_outcome_ok(
                m,
                parsed_json(body@)->0,
                old.source_view(),
                a->Done_0->Ok_0,
            )
        } else {
            moved_on(old, new, a)
        },
        Event::TransportError(e) => moved_on(old, new, a) && new.failure_details()[old.failed_count() as int] == e@,
    }
}

impl Resolver {
    pub closed spec fn source_view(&self) -> Seq<char> {
        self.source@
    }

    pub closed spec fn is_legacy(&self) -> bool {
        self.legacy
    }

    pub closed spec fn plan_view(&self) -> Seq<Provider> {
        self.plan@
    }

    /// The number of adapters that have failed so far.
    pub closed spec fn failed_count(&self) -> nat {
        self.failures@.len()
    }

    /// Where the adapter in progress stands.
    pub closed spec fn phase_view(&self) -> Phase {
        self.phase
    }

    /// The share pages that the share-page adapter retries with.
    pub closed spec fn candidates_view(&self) -> Seq<Seq<char>> {
        strings_view(self.candidates@)
    }

    /// The adapter in progress.
    pub open spec fn current(&self) -> Provider {
        self.plan_view()[self.failed_count() as int]
    }

    pub closed spec fn failure_details(&self) -> Seq<Seq<char>> {
        details(self.failures@)
    }

    /// The resolver's invariant: the plan is the one for its source and mode,
    /// and the adapters before the one in progress have each failed once.
    pub closed spec fn wf(&self) -> bool {
        &&& self.plan@ == plan_for(platform_of(self.source@), self.legacy)
        &&& self.platform == platform_of(self.source@)
        &&& self.pos <= self.plan@.len()
        &&& self.failures@.len() == self.pos
        &&& (self.phase matches Phase::Candidate(i) ==> i < self.candidates@.len())
    }

    /// An adapter is in progress: a fetch is awaited.
    pub closed spec fn running(&self) -> bool {
        self.pos < self.plan@.len()
    }

    pub fn is_running(&self) -> (r: bool)
        requires
            self.wf(),
        ensures
            r == self.running(),
    {
        self.pos < self.plan.len()
    }

    fn request(&self, url: String) -> (r: Request)
        ensures
            r.url@ == url@,
            r.query_url is None,
            r.referer@ == referer_of(self.source@),
    {
        Request { url, query_url: None, referer: referer_for(self.source.as_str()) }
    }

    /// Ends the adapter in progress with `f` and moves to the next.
    fn fail_current(&mut self, f: Failure)
        requires
            old(self).wf(),
            old(self).running(),
        ensures
            final(self).wf(),
            final(self).source == old(self).source,
            final(self).legacy == old(self).legacy,
            final(self).pos == old(self).pos + 1,
            final(self).phase == Phase::Entry,
            final(self).failures@ == old(self).failures@.push(f),
    {
        self.failures.push(f);
        self.pos = self.pos + 1;
        self.phase = Phase::Entry;
    }

    /// The message that names every failed adapter.
    fn message(&self) -> (r: String)
        requires
            self.wf(),
            !self.running(),
        ensures
            r@ == final_message(self.plan@, details(self.failures@), self.legacy),
    {
        let n = self.plan.len();
        let ghost ds = details(self.failures@);
        let from: usize = if self.legacy {
            2
        } else {
            0
        };
        let mut acc = String::new();
        let mut i: usize = n;
        while i > from
            invariant
                from <= i <= n == self.plan@.len(),
                self.wf(),
                !self.running(),
                ds == details(self.failures@),
                (i == n ==> acc@ == Seq::<char>::empty()),
                (i < n ==> acc@ == joined(self.plan@, ds, i as int)),
            decreases i,
        {
            i = i - 1;
            let entry = self.plan[i].label().concat(": ").concat(self.failures[i].detail.as_str());
            assert(entry@ == entry_text(self.plan@[i as int], ds[i as int]));
            if i == n - 1 {
                acc = entry;
            } else {
                acc = entry.concat(" | ").concat(acc.as_str());
            }
        }
        if self.legacy {
            let first = self.plan[0].label().concat(": ").concat(self.failures[0].detail.as_str());
            let second = self.plan[1].label().concat(": ").concat(
                self.failures[1].detail.as_str(),
            );
            first.concat(" | ").concat(second.as_str()).concat(" | provider chain: ").concat(
                acc.as_str(),
            )
        } else {
            acc
        }
    }

    /// Starts the adapter at the current position, skipping the share page
    /// for a link that is not Douyin's, or ends with the failure message.
    fn enter(&mut self) -> (a: Action)
        requires
            old(self).wf(),
            old(self).phase == Phase::Entry,
        ensures
            final(self).wf(),
            final(self).source == old(self).source,
            final(self).legacy == old(self).legacy,
            final(self).pos >= old(self).pos,
            final(self).phase == Phase::Entry,
            extends(old(self).failures@, final(self).failures@),
            forall|j: int|
                old(self).pos <= j < final(self).pos ==> final(self).plan@[j] == Provider::SharePage,
            a matches Action::Fetch(req) ==> final(self).running() && starts_adapter(
                final(self).current(),
                final(self).source@,
                req,
            ),
            a matches Action::Done(res) ==> !final(self).running() && (res matches Err(msg) && msg@
                == final_message(final(self).plan@, details(final(self).failures@), final(self).legacy)),
    {
        while self.pos < self.plan.len()
            invariant
                self.wf(),
                self.phase == Phase::Entry,
                self.source == old(self).source,
                self.legacy == old(self).legacy,
                self.pos >= old(self).pos,
                extends(old(self).failures@, self.failures@),
                forall|j: int| old(self).pos <= j < self.pos ==> self.plan@[j] == Provider::SharePage,
            decreases self.plan@.len() - self.pos,
        {
            match self.plan[self.pos] {
                Provider::SharePage => {
                    if self.platform == Platform::Douyin {
                        let url = self.source.clone();
                        return Action::Fetch(self.request(url));
                    }
                    self.fail_current(Failure::new(FailureKind::Shape, "not a Douyin link"));
                },
                Provider::OfficialApi => {
                    let url = self.source.clone();
                    return Action::Fetch(self.request(url));
                },
                Provider::Mirror(m) => {
                    return Action::Fetch(
                        Request {
                            url: m.endpoint(),
                            query_url: Some(self.source.clone()),
                            referer: referer_for(self.source.as_str()),
                        },
                    );
                },
            }
        }
        Action::Done(Err(self.message()))
    }

    /// Starts a resolution of `url`: through the provider chain, or in the
    /// legacy order.
    pub fn new(url: &str, legacy: bool) -> (r: (Resolver, Action))
        ensures
            r.0.wf(),
            r.0.source_view() == url@,
            r.0.is_legacy() == legacy,
            r.0.plan_view() == plan_for(platform_of(url@), legacy),
            r.0.running(),
            r.0.phase_view() == Phase::Entry,
            forall|j: int| 0 <= j < r.0.failed_count() ==> r.0.plan_view()[j] == Provider::SharePage,
            r.1 matches Action::Fetch(req) && starts_adapter(r.0.current(), url@, req),
    {
        let platform = classify(url);
        let mut res = Resolver {
            source: String::from_str(url),
            platform,
            legacy,
            plan: plan_vec(platform, legacy),
            pos: 0,
            phase: Phase::Entry,
            failures: Vec::new(),
            candidates: Vec::new(),
            attempts: String::new(),
        };
        let a = res.enter();
        assert(res.plan@[res.plan@.len() - 1] == Provider::Mirror(Mirror::Flagged));
        (res, a)
    }

    /// Records one failed candidate page and moves to the next, or ends the
    /// share page with every attempt's reason.
    fn next_candidate(&mut self, i: usize, reason: &str) -> (a: Action)
        requires
            old(self).wf(),
            old(self).running(),
            old(self).phase == Phase::Candidate(i),
        ensures
            final(self).wf(),
            final(self).source == old(self).source,
            final(self).legacy == old(self).legacy,
            extends(old(self).failures@, final(self).failures@),
            candidate_moved(*old(self), *final(self), a, i as int),
            a is Fetch ==> final(self).running(),
            a matches Action::Done(res) ==> !final(self).running() && (res matches Err(msg) && msg@
                == final_message(final(self).plan@, details(final(self).failures@), final(self).legacy)),
    {
        let note = String::from_str("; ").concat(self.candidates[i].as_str()).concat(": ").concat(
            reason,
        );
        self.attempts = self.attempts.clone().concat(note.as_str());
        if i < self.candidates.len() - 1 {
            self.phase = Phase::Candidate(i + 1);
            let url = self.candidates[i + 1].clone();
            Action::Fetch(self.request(url))
        } else {
            let detail = self.attempts.clone();
            self.fail_current(Failure { kind: FailureKind::Shape, detail });
            self.enter()
        }
    }

    /// Takes what the awaited fetch brought and says what to do next.
    pub fn step(&mut self, event: Event) -> (a: Action)
        requires
            old(self).wf(),
            old(self).running(),
        ensures
            final(self).wf(),
            final(self).source_view() == old(self).source_view(),
            final(self).is_legacy() == old(self).is_legacy(),
            final(self).plan_view() == plan_for(platform_of(final(self).source_view()), final(self).is_legacy()),
            final(self).failed_count() == final(self).failure_details().len(),
            final(self).failed_count() >= old(self).failed_count(),
            final(self).failure_details().subrange(0, old(self).failed_count() as int)
                == old(self).failure_details(),
            old(self).current() == Provider::SharePage ==> share_step(*old(self), *final(self), event, a),
            old(self).current() == Provider::OfficialApi ==> official_step(*old(self), *final(self), event, a),
            old(self).current() matches Provider::Mirror(m) ==> mirror_step(m, *old(self), *final(self), event, a),
            a is Fetch ==> final(self).running(),
            a matches Action::Done(res) ==> match res {
                Ok(rec) => has_content(rec) && rec.platform == platform_of(final(self).source_view()),
                Err(msg) => !final(self).running() && final(self).failure_details().len()
                    == final(self).plan_view().len() && msg@ == final_message(
                    final(self).plan_view(),
                    final(self).failure_details(),
                    final(self).is_legacy(),
                ),
            },
    {
        let provider = self.plan[self.pos];
        let ghost old_failures = self.failures@;
        let a = match provider {
            Provider::SharePage => self.step_share_page(event),
            Provider::OfficialApi => self.step_official(event),
            Provider::Mirror(m) => {
                let outcome = match event {
                    Event::TransportError(e) => Err(
                        Failure { kind: FailureKind::Transport, detail: e },
                    ),
                    Event::Response { status, final_url: _, body } => mirror_response(
                        m,
                        status,
                        body.as_str(),
                        self.source.as_str(),
                    ),
                };
                match outcome {
                    Ok(rec) => Action::Done(Ok(rec)),
                    Err(f) => {
                        let ghost detail = f.detail@;
                        self.fail_current(f);
                        assert(self.failures@[old_failures.len() as int].detail@ == detail);
                        let a = self.enter();
                        a
                    },
                }
            },
        };
        proof {
            assert(details(self.failures@).subrange(0, old_failures.len() as int) =~= details(
                old_failures,
            ));
        }
        a
    }

    fn step_share_page(&mut self, event: Event) -> (a: Action)
        requires
            old(self).wf(),
            old(self).running(),
        ensures
            share_step(*old(self), *final(self), event, a),
            final(self).wf(),
            final(self).source == old(self).source,
            final(self).legacy == old(self).legacy,
            extends(old(self).failures@, final(self).failures@),
            a is Fetch ==> final(self).running(),
            a matches Action::Done(res) ==> match res {
                Ok(rec) => has_content(rec) && rec.platform == platform_of(final(self).source@),
                Err(msg) => !final(self).running() && msg@ == final_message(
                    final(self).plan@,
                    details(final(self).failures@),
                    final(self).legacy,
                ),
            },
    {
        match self.phase {
            Phase::Candidate(i) => {
                let reason = match event {
                    Event::TransportError(e) => e,
                    Event::Response { status, final_url: _, body } => if 200 <= status && status < 300 {
                        match scrape_share_page(body.as_str(), self.source.as_str()) {
                            PageResult::Record(rec) => {
                                return Action::Done(Ok(rec));
                            },
                            PageResult::Failed(f) => f.detail,
                            PageResult::Missing => String::from_str("no embedded item"),
                        }
                    } else {
                        String::from_str("error status")
                    },
                };
                self.next_candidate(i, reason.as_str())
            },
            _ => match event {
                Event::TransportError(e) => {
                    self.fail_current(Failure { kind: FailureKind::Transport, detail: e });
                    self.enter()
                },
                Event::Response { status, final_url, body } => {
                    let page = if 200 <= status && status < 300 {
                        scrape_share_page(body.as_str(), self.source.as_str())
                    } else {
                        PageResult::Missing
                    };
                    match page {
                        PageResult::Record(rec) => Action::Done(Ok(rec)),
                        PageResult::Failed(f) => {
                            self.fail_current(f);
                            self.enter()
                        },
                        PageResult::Missing => match find_retry_work(
                            final_url.as_str(),
                            self.source.as_str(),
                            body.as_str(),
                        ) {
                            None => {
                                self.fail_current(
                                    Failure::new(
                                        FailureKind::Shape,
                                        "no embedded item and no work id found",
                                    ),
                                );
                                self.enter()
                            },
                            Some(w) => {
                                self.candidates = candidate_urls(&w);
                                assert(crate::record::strings_view(self.candidates@).len() == 4);
                                self.attempts = String::from_str("entry page: no embedded item");
                                self.phase = Phase::Candidate(0);
                                let url = self.candidates[0].clone();
                                Action::Fetch(self.request(url))
                            },
                        },
                    }
                },
            },
        }
    }

    fn step_official(&mut self, event: Event) -> (a: Action)
        requires
            old(self).wf(),
            old(self).running(),
        ensures
            official_step(*old(self), *final(self), event, a),
            final(self).wf(),
            final(self).source == old(self).source,
            final(self).legacy == old(self).legacy,
            extends(old(self).failures@, final(self).failures@),
            a is Fetch ==> final(self).running(),
            a matches Action::Done(res) ==> match res {
                Ok(rec) => has_content(rec) && rec.platform == platform_of(final(self).source@),
                Err(msg) => !final(self).running() && msg@ == final_message(
                    final(self).plan@,
                    details(final(self).failures@),
                    final(self).legacy,
                ),
            },
    {
        match event {
            Event::TransportError(e) => {
                self.fail_current(Failure { kind: FailureKind::Transport, detail: e });
                self.enter()
            },
            Event::Response { status, final_url, body } => match self.phase {
                Phase::ApiCall => {
                    let outcome = if 200 <= status && status < 300 {
                        official_api_record(body.as_str(), self.source.as_str())
                    } else {
                        Err(Failure::new(FailureKind::Transport, "item-info error status"))
                    };
                    match outcome {
                        Ok(rec) => Action::Done(Ok(rec)),
                        Err(f) => {
                            self.fail_current(f);
                            self.enter()
                        },
                    }
                },
                _ => match extract_aweme_id(final_url.as_str()) {
                    Some(id) => {
                        self.phase = Phase::ApiCall;
                        let url = item_info_url(id.as_str());
                        Action::Fetch(self.request(url))
                    },
                    None => {
                        self.fail_current(
                            Failure::new(FailureKind::Shape, "no work id in the redirected URL"),
                        );
                        self.enter()
                    },
                },
            },
        }
    }
}

/// Each of `labels` occurs in `msg`, each after the end of the one before.
pub open spec fn names_in_order(msg: Seq<char>, labels: Seq<Seq<char>>) -> bool {
    exists|offs: Seq<int>|
        offs.len() == labels.len() && (forall|i: int|
            0 <= i < labels.len() ==> occurs_at(msg, labels[i], #[trigger] offs[i])) && (forall|
            i: int,
        |
            0 <= i < labels.len() - 1 ==> offs[i] + labels[i].len() <= #[trigger] offs[i + 1])
}

pub open spec fn plan_labels(plan: Seq<Provider>) -> Seq<Seq<char>> {
    plan.map_values(|p: Provider| provider_label(p))
}

/// Where entry `i` starts in `joined(plan, ds, from)`.
pub open spec fn entry_offset(plan: Seq<Provider>, ds: Seq<Seq<char>>, from: int, i: int) -> int
    decreases i - from,
{
    if i <= from {
        0
    } else {
        entry_text(plan[from], ds[from]).len() + 3 + entry_offset(plan, ds, from + 1, i)
    }
}

proof fn lemma_occurs_shift(a: Seq<char>, b: Seq<char>, p: Seq<char>, k: int)
    requires
        occurs_at(b, p, k),
    ensures
        occurs_at(a + b, p, a.len() + k),
{
    assert((a + b).subrange(a.len() + k, a.len() + k + p.len()) =~= b.subrange(k, k + p.len()));
}

proof fn lemma_occurs_prefix(p: Seq<char>, rest: Seq<char>)
    ensures
        occurs_at(p + rest, p, 0),
{
    assert((p + rest).subrange(0, p.len() as int) =~= p);
}

proof fn lemma_offset_step(plan: Seq<Provider>, ds: Seq<Seq<char>>, from: int, i: int)
    requires
        0 <= from <= i,
    ensures
        entry_offset(plan, ds, from, i + 1) == entry_offset(plan, ds, from, i) + entry_text(
            plan[i],
            ds[i],
        ).len() + 3,
    decreases i - from,
{
    if from < i {
        lemma_offset_step(plan, ds, from + 1, i);
    } else {
        assert(entry_offset(plan, ds, from + 1, i + 1) == 0);
        assert(entry_offset(plan, ds, from, i) == 0);
    }
}

proof fn lemma_joined_entries(plan: Seq<Provider>, ds: Seq<Seq<char>>, from: int, i: int)
    requires
        0 <= from <= i < plan.len(),
        ds.len() == plan.len(),
    ensures
        occurs_at(joined(plan, ds, from), provider_label(plan[i]), entry_offset(plan, ds, from, i)),
    decreases i - from,
{
    reveal_strlit(": ");
    reveal_strlit(" | ");
    let e = entry_text(plan[from], ds[from]);
    if i == from {
        if from == plan.len() - 1 {
            lemma_occurs_prefix(provider_label(plan[i]), ": "@ + ds[from]);
            assert(e =~= provider_label(plan[i]) + (": "@ + ds[from]));
        } else {
            lemma_occurs_prefix(
                provider_label(plan[i]),
                ": "@ + ds[from] + " | "@ + joined(plan, ds, from + 1),
            );
            assert(joined(plan, ds, from) =~= provider_label(plan[i]) + (": "@ + ds[from] + " | "@
                + joined(plan, ds, from + 1)));
        }
    } else {
        lemma_joined_entries(plan, ds, from + 1, i);
        lemma_occurs_shift(
            e + " | "@,
            joined(plan, ds, from + 1),
            provider_label(plan[i]),
            entry_offset(plan, ds, from + 1, i),
        );
        assert(joined(plan, ds, from) =~= (e + " | "@) + joined(plan, ds, from + 1));
    }
}

/// The message that ends a failed resolution names every adapter of the
/// plan, in the order they were tried (for the legacy order, the chain's
/// adapters after the share page and the item-info API).
pub proof fn lemma_failure_names_adapters(plan: Seq<Provider>, ds: Seq<Seq<char>>, legacy: bool)
    requires
        ds.len() == plan.len(),
        legacy ==> plan.len() >= 2,
    ensures
        names_in_order(final_message(plan, ds, legacy), plan_labels(plan)),
{
    reveal_strlit(": ");
    reveal_strlit(" | ");
    reveal_strlit(" | provider chain: ");
    let labels = plan_labels(plan);
    let msg = final_message(plan, ds, legacy);
    if !legacy {
        let offs = Seq::new(plan.len(), |i: int| entry_offset(plan, ds, 0, i));
        assert forall|i: int| 0 <= i < labels.len() implies occurs_at(msg, labels[i], offs[i]) by {
            lemma_joined_entries(plan, ds, 0, i);
        }
        assert forall|i: int| 0 <= i < labels.len() - 1 implies offs[i] + labels[i].len()
            <= #[trigger] offs[i + 1] by {
            lemma_offset_step(plan, ds, 0, i);
        }
        assert(offs.len() == labels.len());
    } else {
        let e0 = entry_text(plan[0], ds[0]);
        let e1 = entry_text(plan[1], ds[1]);
        let pre = e0 + " | "@ + e1 + " | provider chain: "@;
        let offs = Seq::new(
            plan.len(),
            |i: int|
                if i == 0 {
                    0int
                } else if i == 1 {
                    e0.len() + 3int
                } else {
                    pre.len() + entry_offset(plan, ds, 2, i)
                },
        );
        assert(msg =~= pre + joined(plan, ds, 2));
        assert forall|i: int| 0 <= i < labels.len() implies occurs_at(msg, labels[i], offs[i]) by {
            if i == 0 {
                lemma_occurs_prefix(provider_label(plan[0]), ": "@ + ds[0] + (" | "@ + e1
                    + " | provider chain: "@ + joined(plan, ds, 2)));
                assert(msg =~= provider_label(plan[0]) + (": "@ + ds[0] + (" | "@ + e1
                    + " | provider chain: "@ + joined(plan, ds, 2))));
            } else if i == 1 {
                lemma_occurs_prefix(provider_label(plan[1]), ": "@ + ds[1] + (" | provider chain: "@
                    + joined(plan, ds, 2)));
                lemma_occurs_shift(
                    e0 + " | "@,
                    provider_label(plan[1]) + (": "@ + ds[1] + (" | provider chain: "@ + joined(plan, ds, 2))),
                    provider_label(plan[1]),
                    0,
                );
                assert(msg =~= (e0 + " | "@) + (provider_label(plan[1]) + (": "@ + ds[1] + (
                " | provider chain: "@ + joined(plan, ds, 2)))));
            } else {
                lemma_joined_entries(plan, ds, 2, i);
                lemma_occurs_shift(pre, joined(plan, ds, 2), labels[i], entry_offset(plan, ds, 2, i));
            }
        }
        assert forall|i: int| 0 <= i < labels.len() - 1 implies offs[i] + labels[i].len()
            <= #[trigger] offs[i + 1] by {
            if i >= 2 {
                lemma_offset_step(plan, ds, 2, i);
            }
        }
        assert(offs.len() == labels.len());
    }
}

} // verus!
