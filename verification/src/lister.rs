//! Retrieval of an account's repositories from a service that hands them out
//! in pages of a fixed size.
//!
//! The [`Lister`] decides which page to ask for and when the listing is
//! complete. The caller makes each request and passes the answer in.

use crate::descriptor::{views, DescriptorView, RepositoryDescriptor};
use crate::error::ErrorKind;
use vstd::prelude::*;

verus! {

/// Why a listing failed.
#[derive(Clone, Copy, Debug, PartialEq, Eq, Structural)]
pub enum ListError {
    /// The service does not know the account.
    NotFound,
    /// The service refused the request because too many were made.
    RateLimited,
    /// No usable response arrived.
    TransportError,
    /// The response arrived, but its payload is not a list of repositories.
    DecodeError,
}

impl ListError {
    /// The kind of failure: everything but a payload that does not decode
    /// is a failure of the transport.
    pub open spec fn kind_of(self) -> ErrorKind {
        match self {
            ListError::DecodeError => ErrorKind::Decode,
            _ => ErrorKind::Transport,
        }
    }

    /// The kind of failure.
    pub fn kind(&self) -> (kind: ErrorKind)
        ensures
            kind == self.kind_of(),
    {
        match self {
            ListError::DecodeError => ErrorKind::Decode,
            _ => ErrorKind::Transport,
        }
    }
}

/// What came back from one page request, before it is judged.
pub enum PageFetch {
    /// No response: the connection was refused or timed out.
    Unreachable,
    /// A response with its status code and, where the payload decoded, its
    /// records.
    Response { status: u16, records: Option<Vec<RepositoryDescriptor>> },
}

/// The mathematical value of a [`PageFetch`].
pub enum PageFetchView {
    Unreachable,
    Response { status: u16, records: Option<Seq<DescriptorView>> },
}

impl View for PageFetch {
    type V = PageFetchView;

    open spec fn view(&self) -> PageFetchView {
        match *self {
            PageFetch::Unreachable => PageFetchView::Unreachable,
            PageFetch::Response { status, records } => PageFetchView::Response {
                status,
                records: match records {
                    Some(list) => Some(views(list@)),
                    None => None,
                },
            },
        }
    }
}

/// The value of a judged page: its records, or the failure.
pub open spec fn reply_view(reply: Result<Vec<RepositoryDescriptor>, ListError>) -> Result<
    Seq<DescriptorView>,
    ListError,
> {
    match reply {
        Ok(records) => Ok(views(records@)),
        Err(error) => Err(error),
    }
}

/// How a page request is judged.
///
/// A status of 404 means the account is unknown, 403 and 429 mean the caller
/// is being throttled, any other status outside 200..=299 is a transport
/// failure. A success status needs a payload that decoded.
pub open spec fn judged(fetch: PageFetchView) -> Result<Seq<DescriptorView>, ListError> {
    match fetch {
        PageFetchView::Unreachable => Err(ListError::TransportError),
        PageFetchView::Response { status, records } => {
            if status == 404 {
                Err(ListError::NotFound)
            } else if status == 403 || status == 429 {
                Err(ListError::RateLimited)
            } else if status < 200 || status > 299 {
                Err(ListError::TransportError)
            } else {
                match records {
                    Some(list) => Ok(list),
                    None => Err(ListError::DecodeError),
                }
            }
        },
    }
}

/// Judges what a page request came back with.
pub fn judge(fetch: PageFetch) -> (reply: Result<Vec<RepositoryDescriptor>, ListError>)
    ensures
        reply_view(reply) == judged(fetch@),
{
    match fetch {
        PageFetch::Unreachable => Err(ListError::TransportError),
        PageFetch::Response { status, records } => {
            if status == 404 {
                Err(ListError::NotFound)
            } else if status == 403 || status == 429 {
                Err(ListError::RateLimited)
            } else if status < 200 || status > 299 {
                Err(ListError::TransportError)
            } else {
                match records {
                    Some(list) => Ok(list),
                    None => Err(ListError::DecodeError),
                }
            }
        },
    }
}

/// Whether a descriptor stays in the listing.
pub open spec fn kept(exclude_forks: bool) -> spec_fn(DescriptorView) -> bool {
    |d: DescriptorView| !(exclude_forks && d.fork)
}

/// The records that stay in the listing, in their order.
pub open spec fn retained(records: Seq<DescriptorView>, exclude_forks: bool) -> Seq<
    DescriptorView,
> {
    records.filter(kept(exclude_forks))
}

/// The mathematical value of a [`Lister`].
pub struct ListerView {
    /// The number of records in a full page.
    pub page_size: nat,
    pub exclude_forks: bool,
    /// The page to ask for; the first page is page 1.
    pub page: nat,
    /// What the earlier pages contributed.
    pub collected: Seq<DescriptorView>,
}

impl ListerView {
    /// A page holds at least one record, and pages are counted from 1.
    pub open spec fn well_formed(self) -> bool {
        self.page_size > 0 && self.page > 0
    }
}

/// The mathematical value of a [`ListerStep`].
pub enum ListerStepView {
    NextPage(ListerView),
    Finished(Seq<DescriptorView>),
    Failed(ListError),
}

/// The lister before its first request.
pub open spec fn initial(page_size: nat, exclude_forks: bool) -> ListerView {
    ListerView { page_size, exclude_forks, page: 1, collected: Seq::empty() }
}

/// What a judged page does to the listing.
///
/// A failure ends the listing and discards what was collected. A page adds
/// the records that are kept; it is the last page exactly when it is shorter
/// than a full page.
pub open spec fn after_reply(
    lister: ListerView,
    reply: Result<Seq<DescriptorView>, ListError>,
) -> ListerStepView {
    match reply {
        Err(error) => ListerStepView::Failed(error),
        Ok(records) => {
            let collected = lister.collected + retained(records, lister.exclude_forks);
            if records.len() < lister.page_size {
                ListerStepView::Finished(collected)
            } else {
                ListerStepView::NextPage(
                    ListerView { page: lister.page + 1, collected, ..lister },
                )
            }
        },
    }
}

/// The records of page `page`, counted from 1, of a service that holds
/// `records` and hands them out `page_size` at a time.
pub open spec fn service_page(records: Seq<DescriptorView>, page_size: nat, page: nat) -> Seq<
    DescriptorView,
> {
    let start = served_before(records.len(), page_size, page);
    let end = if start + page_size <= records.len() {
        start + page_size
    } else {
        records.len() as int
    };
    records.subrange(start, end)
}

/// The number of records that the pages before `page` hold.
pub open spec fn served_before(count: nat, page_size: nat, page: nat) -> int {
    if (page - 1) * page_size <= count {
        (page - 1) * page_size
    } else {
        count as int
    }
}

/// A listing that ran to its end: what it gave and how many pages it asked for.
pub struct Listing {
    pub outcome: Result<Seq<DescriptorView>, ListError>,
    pub requests: nat,
}

/// Runs a lister against a service that holds `records` and answers every
/// request, from the lister's present state to the end of the listing.
pub open spec fn listing_from(records: Seq<DescriptorView>, lister: ListerView) -> Listing
    decreases records.len() - served_before(records.len(), lister.page_size, lister.page),
    when lister.well_formed()
    via listing_from_terminates
{
    let page = service_page(records, lister.page_size, lister.page);
    match after_reply(lister, Ok(page)) {
        ListerStepView::NextPage(next) => {
            let rest = listing_from(records, next);
            Listing { outcome: rest.outcome, requests: rest.requests + 1 }
        },
        ListerStepView::Finished(all) => Listing { outcome: Ok(all), requests: 1 },
        ListerStepView::Failed(error) => Listing { outcome: Err(error), requests: 1 },
    }
}

#[via_fn]
proof fn listing_from_terminates(records: Seq<DescriptorView>, lister: ListerView) {
    let page = service_page(records, lister.page_size, lister.page);
    if page.len() >= lister.page_size {
        assert(lister.page * lister.page_size == (lister.page - 1) * lister.page_size
            + lister.page_size) by (nonlinear_arith);
    }
}

/// The whole listing of a service that holds `records`.
pub open spec fn listing(records: Seq<DescriptorView>, page_size: nat, exclude_forks: bool) -> Listing {
    listing_from(records, initial(page_size, exclude_forks))
}

/// The number of page requests that a listing of `count` records takes: one
/// for each page that holds records, and one more to see an empty page where
/// the last of them is full.
pub open spec fn requests_needed(count: nat, page_size: nat) -> int {
    (count + page_size - 1) / (page_size as int) + if count % page_size == 0 {
        1int
    } else {
        0int
    }
}

/// A listing in progress: it waits for the answer to the request for one page.
pub struct Lister {
    page_size: usize,
    exclude_forks: bool,
    page: u64,
    collected: Vec<RepositoryDescriptor>,
}

impl View for Lister {
    type V = ListerView;

    closed spec fn view(&self) -> ListerView {
        ListerView {
            page_size: self.page_size as nat,
            exclude_forks: self.exclude_forks,
            page: self.page as nat,
            collected: views(self.collected@),
        }
    }
}

/// What the listing needs next.
pub enum ListerStep {
    /// Another page has to be requested.
    NextPage(Lister),
    /// The listing is complete.
    Finished(Vec<RepositoryDescriptor>),
    /// The listing failed; nothing of it is handed out.
    Failed(ListError),
}

impl View for ListerStep {
    type V = ListerStepView;

    open spec fn view(&self) -> ListerStepView {
        match *self {
            ListerStep::NextPage(lister) => ListerStepView::NextPage(lister@),
            ListerStep::Finished(records) => ListerStepView::Finished(views(records@)),
            ListerStep::Failed(error) => ListerStepView::Failed(error),
        }
    }
}

/// Copies the records of `page` that are kept to the end of `collected`.
fn collect_page(
    collected: &mut Vec<RepositoryDescriptor>,
    page: &Vec<RepositoryDescriptor>,
    exclude_forks: bool,
)
    ensures
        views(final(collected)@) == views(old(collected)@) + retained(views(page@), exclude_forks),
{
    let ghost before = views(collected@);
    let ghost records = views(page@);
    let mut i: usize = 0;
    assert(records.take(0) =~= Seq::<DescriptorView>::empty());
    assert(views(collected@) =~= before + retained(records.take(0), exclude_forks));
    while i < page.len()
        invariant
            i <= page.len(),
            records == views(page@),
            views(collected@) == before + retained(records.take(i as int), exclude_forks),
        decreases page.len() - i,
    {
        let ghost seen = records.take(i as int);
        proof {
            records.lemma_take_succ_push(i as int);
            seen.lemma_filter_push(records[i as int], kept(exclude_forks));
        }
        if !(exclude_forks && page[i].fork) {
            let ghost sofar = collected@;
            let copy = page[i].clone();
            collected.push(copy);
            proof {
                sofar.lemma_push_map_commute(|d: RepositoryDescriptor| d@, copy);
                assert(views(collected@) =~= before + retained(seen, exclude_forks).push(
                    records[i as int],
                ));
            }
        }
        i += 1;
    }
    assert(records.take(page.len() as int) =~= records);
}

impl Lister {
    #[verifier::type_invariant]
    spec fn inv(self) -> bool {
        self@.well_formed()
    }

    /// Starts a listing with pages of `page_size` records.
    ///
    /// There is no listing with empty pages: `None` for a `page_size` of zero.
    pub fn new(page_size: usize, exclude_forks: bool) -> (lister: Option<Lister>)
        ensures
            lister.is_some() <==> page_size > 0,
            lister matches Some(l) ==> l@ == initial(page_size as nat, exclude_forks),
    {
        if page_size == 0 {
            None
        } else {
            let collected: Vec<RepositoryDescriptor> = Vec::new();
            assert(views(collected@) =~= Seq::<DescriptorView>::empty());
            Some(Lister { page_size, exclude_forks, page: 1, collected })
        }
    }

    /// The page that has to be requested now.
    pub fn page(&self) -> (page: u64)
        ensures
            page == self@.page,
            self@.well_formed(),
    {
        proof {
            use_type_invariant(self);
        }
        self.page
    }

    /// The number of records in a full page.
    pub fn page_size(&self) -> (page_size: usize)
        ensures
            page_size == self@.page_size,
    {
        self.page_size
    }

    /// Whether forks are left out.
    pub fn exclude_forks(&self) -> (exclude_forks: bool)
        ensures
            exclude_forks == self@.exclude_forks,
    {
        self.exclude_forks
    }

    /// Takes the judged answer to the request for page `self.page()`.
    ///
    /// The page number must have a successor, for the request that may
    /// follow.
    pub fn on_reply(self, reply: Result<Vec<RepositoryDescriptor>, ListError>) -> (step:
        ListerStep)
        requires
            self@.page < u64::MAX,
        ensures
            step@ == after_reply(self@, reply_view(reply)),
    {
        proof {
            use_type_invariant(&self);
        }
        match reply {
            Err(error) => ListerStep::Failed(error),
            Ok(records) => {
                let mut collected = self.collected;
                collect_page(&mut collected, &records, self.exclude_forks);
                if records.len() < self.page_size {
                    ListerStep::Finished(collected)
                } else {
                    ListerStep::NextPage(
                        Lister {
                            page_size: self.page_size,
                            exclude_forks: self.exclude_forks,
                            page: self.page + 1,
                            collected,
                        },
                    )
                }
            },
        }
    }
}

/// From any point of a listing on, the listing ends with every record that
/// is kept, after one request for each page that is still to come.
proof fn lemma_listing_from(records: Seq<DescriptorView>, lister: ListerView, done: nat)
    requires
        lister.page_size > 0,
        lister.page == done + 1,
        done * lister.page_size <= records.len(),
        lister.collected == retained(
            records.take((done * lister.page_size) as int),
            lister.exclude_forks,
        ),
    ensures
        listing_from(records, lister) == (Listing {
            outcome: Ok(retained(records, lister.exclude_forks)),
            requests: (records.len() / lister.page_size - done + 1) as nat,
        }),
        done <= records.len() / lister.page_size,
    decreases records.len() - done * lister.page_size,
{
    let size = lister.page_size;
    let count = records.len();
    let start = (done * size) as int;
    let page = service_page(records, size, lister.page);
    let seen = records.take(start);
    let pred = kept(lister.exclude_forks);
    assert((done + 1) * size == done * size + size) by (nonlinear_arith);
    assert(served_before(count, size, lister.page) == start);
    Seq::filter_distributes_over_add(seen, page, pred);
    if start + size <= count {
        assert(page.len() == size);
        assert(seen + page =~= records.take(start + size));
        let next = ListerView {
            page: lister.page + 1,
            collected: lister.collected + retained(page, lister.exclude_forks),
            ..lister
        };
        assert(after_reply(lister, Ok(page)) == ListerStepView::NextPage(next));
        lemma_listing_from(records, next, done + 1);
    } else {
        assert(page.len() < size);
        assert(seen + page =~= records);
        vstd::arithmetic::div_mod::lemma_fundamental_div_mod_converse(
            count as int,
            size as int,
            done as int,
            count - start,
        );
    }
}

/// A listing returns every record that the service holds, in the service's
/// order and without those that are filtered out, and takes
/// `requests_needed` page requests to do so: also where the number of
/// records is a multiple of the page size.
pub proof fn lemma_listing_is_complete(
    records: Seq<DescriptorView>,
    page_size: nat,
    exclude_forks: bool,
)
    requires
        page_size > 0,
    ensures
        listing(records, page_size, exclude_forks) == (Listing {
            outcome: Ok(retained(records, exclude_forks)),
            requests: requests_needed(records.len(), page_size) as nat,
        }),
        requests_needed(records.len(), page_size) == records.len() / page_size + 1,
        retained(records, false) == records,
{
    let lister = initial(page_size, exclude_forks);
    assert(0 * page_size == 0) by (nonlinear_arith);
    assert(retained(records.take(0), exclude_forks) =~= Seq::<DescriptorView>::empty()) by {
        reveal(Seq::filter);
    }
    lemma_listing_from(records, lister, 0);
    lemma_requests_needed(records.len(), page_size);
    lemma_retained_all(records);
}

/// Rounding the number of pages up and adding one for a full last page
/// comes to one more than the number of full pages.
proof fn lemma_requests_needed(count: nat, page_size: nat)
    requires
        page_size > 0,
    ensures
        requests_needed(count, page_size) == count / page_size + 1,
{
    let size = page_size as int;
    let full = count as int / size;
    let rest = count as int % size;
    vstd::arithmetic::div_mod::lemma_fundamental_div_mod(count as int, size);
    vstd::arithmetic::div_mod::lemma_mod_pos_bound(count as int, size);
    assert(size * full == full * size) by (nonlinear_arith);
    if rest == 0 {
        vstd::arithmetic::div_mod::lemma_fundamental_div_mod_converse(
            count + size - 1,
            size,
            full,
            size - 1,
        );
    } else {
        assert((full + 1) * size == full * size + size) by (nonlinear_arith);
        vstd::arithmetic::div_mod::lemma_fundamental_div_mod_converse(
            count + size - 1,
            size,
            full + 1,
            rest - 1,
        );
    }
}

/// Where forks are not excluded, every record is kept.
proof fn lemma_retained_all(records: Seq<DescriptorView>)
    ensures
        retained(records, false) == records,
    decreases records.len(),
{
    reveal(Seq::filter);
    if records.len() > 0 {
        lemma_retained_all(records.drop_last());
        assert(records.drop_last().push(records.last()) =~= records);
    }
}

/// A listing that excludes forks holds no fork, and holds exactly the
/// records of the listing that includes them which are no forks: each of
/// its records is among those of the other.
pub proof fn lemma_excluding_forks(records: Seq<DescriptorView>, page_size: nat)
    requires
        page_size > 0,
    ensures
        ({
            let without = listing(records, page_size, true).outcome;
            let with = listing(records, page_size, false).outcome;
            &&& without is Ok
            &&& with is Ok
            &&& without->Ok_0 == with->Ok_0.filter(kept(true))
            &&& forall|i: int|
                0 <= i < without->Ok_0.len() ==> !(#[trigger] without->Ok_0[i]).fork
            &&& forall|i: int|
                0 <= i < without->Ok_0.len() ==> with->Ok_0.contains(#[trigger] without->Ok_0[i])
        }),
{
    lemma_listing_is_complete(records, page_size, true);
    lemma_listing_is_complete(records, page_size, false);
    lemma_retained_has_no_fork(records);
}

/// What is kept when forks are excluded holds no fork and only records of
/// the whole.
proof fn lemma_retained_has_no_fork(records: Seq<DescriptorView>)
    ensures
        forall|i: int|
            0 <= i < retained(records, true).len() ==> !(#[trigger] retained(records, true)[i]).fork,
        forall|i: int|
            0 <= i < retained(records, true).len() ==> records.contains(
                #[trigger] retained(records, true)[i],
            ),
{
    let without = retained(records, true);
    assert forall|i: int| 0 <= i < without.len() implies !(#[trigger] without[i]).fork by {
        records.lemma_filter_pred(kept(true), i);
    }
    assert forall|i: int| 0 <= i < without.len() implies records.contains(
        #[trigger] without[i],
    ) by {
        assert(without.contains(without[i]));
        records.lemma_filter_contains_rev(kept(true), without[i]);
    }
}

} // verus!
