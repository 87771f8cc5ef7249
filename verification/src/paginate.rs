//! The paginator: lazy page and item sequences over a cursor-paginated
//! list endpoint.
//!
//! The core is pull-based and performs no I/O of its own.  `PageIterator`
//! holds the cursor state of a raw-page traversal: it hands out the URL to
//! fetch next and, told the outcome of that fetch, advances its cursor from
//! the response's link header.  `ItemIterator` wraps a `PageIterator`
//! together with a buffer holding at most one page's not-yet-yielded items,
//! and yields the supplied pages' items one at a time, in exactly the order
//! the server returned them.  The caller performs each GET (and decodes
//! each body) only when asked to by a `Fetch` step, so no more than one
//! page is ever in flight or buffered ahead of consumer demand.

use vstd::prelude::*;
use vstd::string::StringExecFns;

use crate::link::next_link_of;
use crate::link::get_next_from_link;

verus! {

/// The base URL and bearer token a traversal's requests share.  It holds
/// no mutable state and may be cloned freely across traversals.
pub struct CanvasApi {
    canvas_url: String,
    canvas_token: String,
}

/// What one page fetch came to, as far as the cursor is concerned: the
/// transport failed outright, or a response arrived with a status code and
/// an optional pagination link header.
pub enum FetchResult {
    Failed,
    Response { status: u16, link: Option<String> },
}

/// The cursor a page traversal holds after an outcome is recorded: gone on
/// transport failure or a missing header, else whatever URL the header's
/// `rel="next"` entry names.
pub open spec fn cursor_after(outcome: FetchResult) -> Option<Seq<char>> {
    match outcome {
        FetchResult::Failed => None,
        FetchResult::Response { status, link } => match link {
            None => None,
            Some(l) => next_link_of(l@),
        },
    }
}

/// A lazy, forward-only traversal of raw pages.  The cursor starts at the
/// initial endpoint URL; once it is gone the sequence is exhausted, and no
/// step brings it back.
pub struct PageIterator {
    next_url: Option<String>,
}

impl CanvasApi {
    /// The configured base URL.
    pub closed spec fn base_url(&self) -> Seq<char> {
        self.canvas_url@
    }

    /// The configured bearer token.
    pub closed spec fn token_view(&self) -> Seq<char> {
        self.canvas_token@
    }

    /// A client context for the given Canvas base URL and access token.
    pub fn new(canvas_url: String, canvas_token: String) -> (api: CanvasApi)
        ensures
            api.base_url() == canvas_url@,
            api.token_view() == canvas_token@,
    {
        CanvasApi { canvas_url, canvas_token }
    }

    /// The bearer token, for the caller performing the requests.
    pub fn token(&self) -> (t: &str)
        ensures
            t@ == self.token_view(),
    {
        self.canvas_token.as_str()
    }

    /// The absolute URL of an endpoint under this context's base URL.
    pub fn request_url(&self, endpoint: &str) -> (r: String)
        ensures
            r@ == self.base_url() + endpoint@,
    {
        let mut url = self.canvas_url.clone();
        url.append(endpoint);
        url
    }

    /// A raw-page traversal starting at the given endpoint.
    pub fn get_paginated(&self, endpoint: &str) -> (pages: PageIterator)
        ensures
            pages.cursor() == Some(self.base_url() + endpoint@),
    {
        PageIterator { next_url: Some(self.request_url(endpoint)) }
    }
}

impl Clone for CanvasApi {
    fn clone(&self) -> (r: Self)
        ensures
            r.base_url() == self.base_url(),
            r.token_view() == self.token_view(),
    {
        CanvasApi { canvas_url: self.canvas_url.clone(), canvas_token: self.canvas_token.clone() }
    }
}

impl PageIterator {
    /// The URL of the page to fetch next, or `None` once exhausted.
    pub closed spec fn cursor(&self) -> Option<Seq<char>> {
        match self.next_url {
            Some(ref u) => Some(u@),
            None => None,
        }
    }

    /// A raw-page traversal whose cursor starts at the given absolute URL.
    pub fn start(url: String) -> (pages: PageIterator)
        ensures
            pages.cursor() == Some(url@),
    {
        PageIterator { next_url: Some(url) }
    }

    /// The URL the caller must fetch to advance, or `None` once exhausted.
    pub fn pending(&self) -> (r: Option<String>)
        ensures
            (r is Some) == (self.cursor() is Some),
            r is Some ==> r->0@ == self.cursor()->0,
    {
        match &self.next_url {
            Some(u) => Some(u.clone()),
            None => None,
        }
    }

    /// Whether the traversal is exhausted.
    pub fn exhausted(&self) -> (b: bool)
        ensures
            b == (self.cursor() is None),
    {
        self.next_url.is_none()
    }

    /// End the traversal: the cursor is gone for good.
    pub fn halt(&mut self)
        ensures
            final(self).cursor() is None,
    {
        self.next_url = None;
    }

    /// Move the cursor of a live traversal to whatever a response's link
    /// header tags as `rel="next"`; a missing header ends the traversal.
    /// An exhausted traversal stays exhausted: no step leads out of it.
    pub fn follow(&mut self, link: &Option<String>)
        requires
            old(self).cursor() is Some,
        ensures
            final(self).cursor() == (match *link {
                None => None::<Seq<char>>,
                Some(ref l) => next_link_of(l@),
            }),
    {
        match link {
            None => {
                self.next_url = None;
            },
            Some(l) => {
                self.next_url = get_next_from_link(l.as_str());
                proof {
                    match self.next_url {
                        Some(ref u) => {
                            assert(Some(u@) == next_link_of(l@));
                        },
                        None => {},
                    }
                }
            },
        }
    }

    /// Record the outcome of fetching the pending page: a failed fetch
    /// ends the traversal after surfacing, any response moves the cursor
    /// to the URL its link header tags as `rel="next"`.
    pub fn advance(&mut self, outcome: &FetchResult)
        requires
            old(self).cursor() is Some,
        ensures
            final(self).cursor() == cursor_after(*outcome),
    {
        match outcome {
            FetchResult::Failed => {
                self.halt();
            },
            FetchResult::Response { status: _, link } => {
                self.follow(link);
            },
        }
    }
}

/// A page body as the caller decoded it: an ordered list of items, or a
/// body that did not parse as one.
pub enum Decoded<T> {
    Items(Vec<T>),
    Malformed,
}

/// The outcome of fetching one page on behalf of an item traversal: the
/// transport failed, or a response arrived with its status, its link
/// header, and its decoded body.
pub enum FetchOutcome<T> {
    Failed,
    Response { status: u16, link: Option<String>, body: Decoded<T> },
}

/// Why an item traversal ended early.  A 404 status is not among these:
/// by convention it is a graceful end of data, not an error.
#[derive(Debug, PartialEq, Eq, Structural)]
pub enum PageError {
    Transport,
    UnexpectedStatus(u16),
    Decode,
}

/// How a status code is treated: a 2xx response carries items, 404 ends
/// the traversal gracefully, anything else is fatal.
#[derive(Debug, PartialEq, Eq, Structural)]
pub enum StatusClass {
    Success,
    EndOfData,
    Unexpected,
}

pub open spec fn spec_classify(status: u16) -> StatusClass {
    if status == 404 {
        StatusClass::EndOfData
    } else if 200 <= status < 300 {
        StatusClass::Success
    } else {
        StatusClass::Unexpected
    }
}

/// The convention the consuming utilities share: 404 means "nothing here,
/// stop", a 2xx response is a page of items, and any other status aborts
/// the traversal.
pub fn classify_status(status: u16) -> (c: StatusClass)
    ensures
        c == spec_classify(status),
{
    if status == 404 {
        StatusClass::EndOfData
    } else if 200 <= status && status < 300 {
        StatusClass::Success
    } else {
        StatusClass::Unexpected
    }
}

/// One step of an item traversal: the next item, a demand that the caller
/// fetch the given URL and report back, or the end of the sequence.
pub enum ItemStep<T> {
    Item(T),
    Fetch(String),
    End,
}

/// A lazy, forward-only traversal of typed items over a page traversal.
///
/// Items are yielded in document order, page by page.  At most one page's
/// worth of not-yet-yielded items is buffered at any time, and a new page
/// may be supplied only once that buffer is drained.
pub struct ItemIterator<T> {
    page_iterator: PageIterator,
    buffer: Vec<T>,
    failed: bool,
    pages: Ghost<Seq<Seq<T>>>,
    history: Ghost<Seq<T>>,
}

impl<T> ItemIterator<T> {
    /// The URL of the page that would be fetched next, if any.
    pub closed spec fn cursor(&self) -> Option<Seq<char>> {
        self.page_iterator.cursor()
    }

    /// The current page's items not yet handed to the consumer.
    pub closed spec fn buffered(&self) -> Seq<T> {
        self.buffer@
    }

    /// Every item handed to the consumer so far, oldest first.
    pub closed spec fn yielded_items(&self) -> Seq<T> {
        self.history@
    }

    /// The item lists of every page supplied so far, oldest first.
    pub closed spec fn supplied_pages(&self) -> Seq<Seq<T>> {
        self.pages@
    }

    /// Whether a fatal outcome ended the traversal.
    pub closed spec fn has_failed(&self) -> bool {
        self.failed
    }

    /// The traversal can produce nothing further.
    pub open spec fn terminal(&self) -> bool {
        self.cursor() is None && self.buffered().len() == 0
    }

    /// The traversal's invariant: what was yielded followed by what is
    /// buffered is exactly the supplied pages' items in order, and the
    /// buffer never holds more than the latest supplied page.
    pub open spec fn wf(&self) -> bool {
        &&& self.yielded_items() + self.buffered() == self.supplied_pages().flatten()
        &&& self.supplied_pages().len() == 0 ==> self.buffered().len() == 0
        &&& self.supplied_pages().len() > 0 ==> self.buffered().len()
            <= self.supplied_pages().last().len()
    }

    /// One pull by the consumer.  A buffered item is yielded at once; with
    /// the buffer drained, either the caller is told which page to fetch
    /// (and nothing changes until it reports back), or the traversal is at
    /// its end.  A fetch is demanded only on an empty buffer, so the
    /// traversal never runs ahead of consumption by more than one page.
    pub fn step(&mut self) -> (r: ItemStep<T>)
        requires
            old(self).wf(),
        ensures
            final(self).wf(),
            old(self).buffered().len() > 0 ==> {
                &&& r == ItemStep::Item(old(self).buffered()[0])
                &&& final(self).buffered() == old(self).buffered().drop_first()
                &&& final(self).yielded_items() == old(self).yielded_items().push(
                    old(self).buffered()[0],
                )
                &&& final(self).supplied_pages() == old(self).supplied_pages()
                &&& final(self).cursor() == old(self).cursor()
                &&& final(self).has_failed() == old(self).has_failed()
            },
            old(self).buffered().len() == 0 && old(self).cursor() is Some ==> {
                &&& r matches ItemStep::Fetch(u) && u@ == old(self).cursor()->0
                &&& *final(self) == *old(self)
            },
            old(self).buffered().len() == 0 && old(self).cursor() is None ==> {
                &&& r is End
                &&& *final(self) == *old(self)
            },
    {
        if self.buffer.len() > 0 {
            let item = self.buffer.remove(0);
            proof {
                self.history@ = self.history@.push(item);
                assert(self.history@ + self.buffer@ =~= self.pages@.flatten());
            }
            ItemStep::Item(item)
        } else {
            match self.page_iterator.pending() {
                Some(url) => ItemStep::Fetch(url),
                None => ItemStep::End,
            }
        }
    }

    /// Record the outcome of the fetch demanded by `step`.  A transport
    /// failure, a status that is neither 2xx nor 404, or a malformed body
    /// is fatal: the error is surfaced once and the traversal ends, with
    /// everything already yielded untouched.  A 404 ends the traversal
    /// gracefully.  A 2xx page re-fills the buffer with the page's items
    /// and moves the cursor to the page's own `rel="next"` link.
    pub fn supply_page(&mut self, outcome: FetchOutcome<T>) -> (r: Result<(), PageError>)
        requires
            old(self).wf(),
            old(self).buffered().len() == 0,
            old(self).cursor() is Some,
        ensures
            final(self).wf(),
            final(self).yielded_items() == old(self).yielded_items(),
            match outcome {
                FetchOutcome::Failed => {
                    &&& r == Err::<(), PageError>(PageError::Transport)
                    &&& final(self).terminal()
                    &&& final(self).has_failed()
                    &&& final(self).supplied_pages() == old(self).supplied_pages()
                },
                FetchOutcome::Response { status, link, body } => {
                    if spec_classify(status) is EndOfData {
                        &&& r == Ok::<(), PageError>(())
                        &&& final(self).terminal()
                        &&& final(self).has_failed() == old(self).has_failed()
                        &&& final(self).supplied_pages() == old(self).supplied_pages()
                    } else if spec_classify(status) is Unexpected {
                        &&& r == Err::<(), PageError>(PageError::UnexpectedStatus(status))
                        &&& final(self).terminal()
                        &&& final(self).has_failed()
                        &&& final(self).supplied_pages() == old(self).supplied_pages()
                    } else {
                        match body {
                            Decoded::Malformed => {
                                &&& r == Err::<(), PageError>(PageError::Decode)
                                &&& final(self).terminal()
                                &&& final(self).has_failed()
                                &&& final(self).supplied_pages() == old(self).supplied_pages()
                            },
                            Decoded::Items(v) => {
                                &&& r == Ok::<(), PageError>(())
                                &&& final(self).buffered() == v@
                                &&& final(self).supplied_pages() == old(
                                    self,
                                ).supplied_pages().push(v@)
                                &&& final(self).cursor() == (match link {
                                    None => None::<Seq<char>>,
                                    Some(l) => next_link_of(l@),
                                })
                                &&& final(self).has_failed() == old(self).has_failed()
                            },
                        }
                    }
                },
            },
    {
        match outcome {
            FetchOutcome::Failed => {
                self.page_iterator.halt();
                self.failed = true;
                Err(PageError::Transport)
            },
            FetchOutcome::Response { status, link, body } => {
                match classify_status(status) {
                    StatusClass::EndOfData => {
                        self.page_iterator.halt();
                        Ok(())
                    },
                    StatusClass::Unexpected => {
                        self.page_iterator.halt();
                        self.failed = true;
                        Err(PageError::UnexpectedStatus(status))
                    },
                    StatusClass::Success => {
                        match body {
                            Decoded::Malformed => {
                                self.page_iterator.halt();
                                self.failed = true;
                                Err(PageError::Decode)
                            },
                            Decoded::Items(v) => {
                                proof {
                                    self.pages@ = self.pages@.push(v@);
                                    self.pages@.drop_last().lemma_flatten_push(v@);
                                    assert(self.pages@.drop_last() =~= old(self).pages@);
                                }
                                self.buffer = v;
                                self.page_iterator.follow(&link);
                                proof {
                                    assert(self.history@ + self.buffer@ =~= self.pages@.flatten());
                                }
                                Ok(())
                            },
                        }
                    },
                }
            },
        }
    }
}

impl PageIterator {
    /// An item traversal over this page traversal, with an empty buffer:
    /// nothing is fetched or decoded until the consumer pulls.
    pub fn items<T>(self) -> (it: ItemIterator<T>)
        ensures
            it.wf(),
            it.cursor() == self.cursor(),
            it.buffered().len() == 0,
            it.yielded_items().len() == 0,
            it.supplied_pages().len() == 0,
            !it.has_failed(),
    {
        let it = ItemIterator {
            page_iterator: self,
            buffer: Vec::new(),
            failed: false,
            pages: Ghost(Seq::empty()),
            history: Ghost(Seq::empty()),
        };
        proof {
            assert(it.history@ + it.buffer@ =~= it.pages@.flatten());
        }
        it
    }
}

/// Termination and laziness in one statement: whenever the buffer is
/// drained — in particular whenever a new fetch is permitted, and when the
/// traversal ends — the consumer has been handed exactly the concatenation
/// of all supplied pages' items, in order, nothing extra and nothing
/// missing.
pub proof fn lemma_drained_means_all_yielded<T>(it: ItemIterator<T>)
    requires
        it.wf(),
        it.buffered().len() == 0,
    ensures
        it.yielded_items() == it.supplied_pages().flatten(),
{
    assert(it.yielded_items() =~= it.yielded_items() + it.buffered());
}

/// The single-buffer bound: the items buffered ahead of the consumer never
/// outnumber the latest supplied page, and nothing is buffered before the
/// first page arrives.
pub proof fn lemma_buffer_within_latest_page<T>(it: ItemIterator<T>)
    requires
        it.wf(),
    ensures
        it.supplied_pages().len() == 0 ==> it.buffered().len() == 0,
        it.supplied_pages().len() > 0 ==> it.buffered().len()
            <= it.supplied_pages().last().len(),
{
}

proof fn lemma_flatten_uniform_len<T>(s: Seq<Seq<T>>, k: int)
    requires
        forall|i: int| 0 <= i < s.len() ==> (#[trigger] s[i]).len() == k,
    ensures
        s.flatten().len() == s.len() * k,
    decreases s.len(),
{
    if s.len() == 0 {
        assert(s.flatten().len() == 0);
    } else {
        assert forall|i: int| 0 <= i < s.drop_first().len() implies (#[trigger] s.drop_first()[
            i
        ]).len() == k by {
            assert(s.drop_first()[i] == s[i + 1]);
        }
        lemma_flatten_uniform_len(s.drop_first(), k);
        assert(s.flatten() == s.first() + s.drop_first().flatten());
        assert(s.len() * k == k + (s.len() - 1) * k) by (nonlinear_arith);
    }
}

/// The fetch-count bound: with every supplied page holding exactly `k`
/// items, `k` times the number of pages fetched equals the items yielded
/// plus the buffer, and the buffer holds at most one page — so driving
/// the traversal to its `n`-th item has fetched `n/k` pages, rounded up,
/// and never a page beyond the one being consumed.
pub proof fn lemma_fetch_count<T>(it: ItemIterator<T>, k: int)
    requires
        it.wf(),
        k > 0,
        forall|i: int| 0 <= i < it.supplied_pages().len() ==> (#[trigger] it.supplied_pages()[
            i
        ]).len() == k,
    ensures
        it.supplied_pages().len() * k == it.yielded_items().len() + it.buffered().len(),
        it.buffered().len() <= k,
{
    lemma_flatten_uniform_len(it.supplied_pages(), k);
    if it.supplied_pages().len() > 0 {
        assert(it.supplied_pages()[it.supplied_pages().len() - 1].len() == k);
    }
}

} // verus!
