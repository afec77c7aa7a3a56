//! A list of a source that comes page by page, fetched one page after the other in the
//! background.

use vstd::prelude::*;

verus! {

/// The time between pages, in milliseconds.
pub const DEFAULT_PAGE_DELAY: u64 = 5000;

/// One page of a list.
pub struct RemotePage<T> {
    pub hits: Vec<T>,
    /// How many items the source says there are.
    pub total: usize,
    /// How many items of the source this page stands for; more than the hits where some were
    /// left out.
    pub consumed: usize,
}

pub struct PagedList<T> {
    label: String,
    items: Vec<T>,
    consumed: usize,
    total: Option<usize>,
    fetching: bool,
    demand: usize,
    errored: bool,
    page_delay: u64,
}

/// What is known of a list: its items so far, where the next page starts, where it ends, whether
/// it is being fetched, how many items are wanted, and whether a page could not be fetched.
pub struct PagedView<T> {
    pub label: Seq<char>,
    pub items: Seq<T>,
    pub consumed: usize,
    pub total: Option<usize>,
    pub fetching: bool,
    pub demand: usize,
    pub errored: bool,
    pub page_delay: u64,
}

impl<T> View for PagedList<T> {
    type V = PagedView<T>;

    closed spec fn view(&self) -> PagedView<T> {
        PagedView {
            label: self.label@,
            items: self.items@,
            consumed: self.consumed,
            total: self.total,
            fetching: self.fetching,
            demand: self.demand,
            errored: self.errored,
            page_delay: self.page_delay,
        }
    }
}

/// Whether all that the source says there is has come.
pub open spec fn complete<T>(l: PagedView<T>) -> bool {
    l.total matches Some(t) && l.consumed >= t
}

/// Whether more of a list may still come.
pub open spec fn more_to_come<T>(l: PagedView<T>) -> bool {
    l.fetching || l.total is None
}

/// What is to be done after a page.
#[derive(Clone, Copy, PartialEq, Eq, Structural, Debug)]
pub enum WalkStep {
    /// Fetches the page at `offset` after a wait of so many milliseconds.
    Fetch { offset: usize, wait: u64 },
    End,
}

/// A list after it was asked for, and whether its fetching starts now.
pub open spec fn asked<T>(l: PagedView<T>, want: usize) -> (PagedView<T>, bool) {
    let starts = l.total is None && !l.fetching;
    (
        PagedView {
            demand: if want > l.demand {
                want
            } else {
                l.demand
            },
            fetching: l.fetching || starts,
            ..l
        },
        starts,
    )
}

/// A list after a page, before it is decided how to go on.
pub open spec fn with_page<T>(l: PagedView<T>, page: Option<(Seq<T>, usize, usize)>) -> PagedView<T> {
    match page {
        Some((hits, total, consumed)) => PagedView {
            items: l.items + hits,
            total: Some(total),
            consumed: (l.consumed + consumed) as usize,
            ..l
        },
        None => PagedView { total: Some(l.consumed), errored: true, ..l },
    }
}

/// How long to wait before the next page: not at all while more items are wanted.
pub open spec fn pause_of<T>(l: PagedView<T>) -> u64 {
    if l.items.len() >= l.demand {
        l.page_delay
    } else {
        0
    }
}

/// How many items of the source a page stands for.
pub open spec fn got_of<T>(page: Option<(Seq<T>, usize, usize)>) -> usize {
    match page {
        Some((_, _, consumed)) => consumed,
        None => 0,
    }
}

/// A list after a page, and what is to be done next: an empty page and one that could not be
/// fetched end the fetching.
pub open spec fn landed<T>(l: PagedView<T>, page: Option<(Seq<T>, usize, usize)>) -> (PagedView<T>, WalkStep) {
    let l1 = with_page(l, page);
    if got_of(page) == 0 || complete(l1) {
        (PagedView { fetching: false, ..l1 }, WalkStep::End)
    } else {
        (l1, WalkStep::Fetch { offset: l1.consumed, wait: pause_of(l1) })
    }
}

pub open spec fn page_view<T>(page: Result<RemotePage<T>, String>) -> Option<(Seq<T>, usize, usize)> {
    match page {
        Ok(p) => Some((p.hits@, p.total, p.consumed)),
        Err(_) => None,
    }
}

impl<T> PagedList<T> {
    pub fn new(label: String) -> (r: PagedList<T>)
        ensures
            r@ == (PagedView {
                label: label@,
                items: Seq::<T>::empty(),
                consumed: 0,
                total: None,
                fetching: false,
                demand: 0,
                errored: false,
                page_delay: DEFAULT_PAGE_DELAY,
            }),
    {
        PagedList::new_with_delay(label, DEFAULT_PAGE_DELAY)
    }

    pub fn new_with_delay(label: String, page_delay: u64) -> (r: PagedList<T>)
        ensures
            r@ == (PagedView {
                label: label@,
                items: Seq::<T>::empty(),
                consumed: 0,
                total: None,
                fetching: false,
                demand: 0,
                errored: false,
                page_delay,
            }),
    {
        PagedList {
            label,
            items: Vec::new(),
            consumed: 0,
            total: None,
            fetching: false,
            demand: 0,
            errored: false,
            page_delay,
        }
    }

    /// Asks for `want` items; says whether fetching starts now, at the offset that `first_page`
    /// gives.
    pub fn snapshot(&mut self, want: usize) -> (starts: bool)
        ensures
            (final(self)@, starts) == asked(old(self)@, want),
    {
        if want > self.demand {
            self.demand = want;
        }
        if self.total.is_some() || self.fetching {
            false
        } else {
            self.fetching = true;
            true
        }
    }

    /// The items so far.
    pub fn items(&self) -> (r: &Vec<T>)
        ensures
            r@ == self@.items,
    {
        &self.items
    }

    /// Whether more may still come: a walk is under way, or has yet to start.
    pub fn partial(&self) -> (r: bool)
        ensures
            r == more_to_come(self@),
    {
        self.fetching || self.total.is_none()
    }

    /// Where the first page of a walk that starts now is.
    pub fn first_page(&self) -> (r: usize)
        ensures
            r == self@.consumed,
    {
        self.consumed
    }

    /// Takes a page, or that it could not be fetched; says how to go on.
    pub fn page_landed(&mut self, page: Result<RemotePage<T>, String>) -> (step: WalkStep)
        requires
            page matches Ok(p) ==> old(self)@.consumed + p.consumed <= usize::MAX,
        ensures
            (final(self)@, step) == landed(old(self)@, page_view(page)),
    {
        let got: usize = match page {
            Ok(p) => {
                let mut hits = p.hits;
                let ghost before = self.items@;
                let ghost new = hits@;
                self.items.append(&mut hits);
                assert(self.items@ =~= before + new);
                self.total = Some(p.total);
                self.consumed = self.consumed + p.consumed;
                p.consumed
            },
            Err(_) => {
                self.total = Some(self.consumed);
                self.errored = true;
                0
            },
        };
        let done: bool = match self.total {
            Some(t) => self.consumed >= t,
            None => false,
        };
        if got == 0 || done {
            self.fetching = false;
            return WalkStep::End;
        }
        let wait: u64 = if self.items.len() >= self.demand {
            self.page_delay
        } else {
            0
        };
        WalkStep::Fetch { offset: self.consumed, wait }
    }

    /// What is said of a page that could not be fetched.
    pub fn label(&self) -> (r: &str)
        ensures
            r@ == self@.label,
    {
        self.label.as_str()
    }

    /// Whether a page could not be fetched.
    pub fn errored(&self) -> (r: bool)
        ensures
            r == self@.errored,
    {
        self.errored
    }

    /// Lets a list that stopped at a failure go on where it stopped.
    pub fn retry(&mut self)
        ensures
            final(self)@ == retried(old(self)@),
    {
        if self.errored {
            self.errored = false;
            self.total = None;
        }
    }
}

pub open spec fn retried<T>(l: PagedView<T>) -> PagedView<T> {
    if l.errored {
        PagedView { errored: false, total: None, ..l }
    } else {
        l
    }
}

/// While a list is being fetched, and once it has ended, asking for it starts nothing.
pub proof fn one_walk_at_a_time<T>(l: PagedView<T>, want: usize)
    requires
        l.fetching || l.total is Some,
    ensures
        !asked(l, want).1,
        asked(asked(l, want).0, want) == (asked(l, want).0, false),
{
}

/// A list that failed keeps what it has, is not asked for again by itself, and after a retry goes
/// on at the page that failed.
pub proof fn failures_wait_for_a_retry<T>(l: PagedView<T>, want: usize)
    ensures
        ({
            let (f, step) = landed(l, None);
            &&& step is End && f.items == l.items && f.consumed == l.consumed
            &&& !asked(f, want).1
            &&& asked(retried(f), want).1 && asked(retried(f), want).0.consumed == l.consumed
        }),
{
}

/// Once no more is to come, a list stays as it is, however often it is asked for; a page that is
/// empty or cannot be fetched comes to that, as does the last one.
pub proof fn ended_lists_stay<T>(l: PagedView<T>, want: usize, page: Option<(Seq<T>, usize, usize)>)
    ensures
        !more_to_come(l) ==> !asked(l, want).1 && !more_to_come(asked(l, want).0) && asked(l, want).0.items == l.items,
        more_to_come(landed(l, page).0) == (landed(l, page).1 is Fetch && l.fetching),
        got_of(page) == 0 || complete(with_page(l, page)) ==> !more_to_come(landed(l, page).0),
{
}

/// The next page starts where the last one ended, whatever was left out of it.
pub proof fn pages_join<T>(l: PagedView<T>, hits: Seq<T>, total: usize, consumed: usize)
    requires
        l.consumed + consumed <= usize::MAX,
    ensures
        ({
            let (f, step) = landed(l, Some((hits, total, consumed)));
            &&& f.consumed == l.consumed + consumed && f.items == l.items + hits
            &&& step matches WalkStep::Fetch { offset, .. } ==> offset == l.consumed + consumed && offset < total
        }),
{
}

} // verus!
