//! Category records from the video-platform service, traversed through
//! its page-number pagination, and the filter picking the categories worth
//! exporting.
//!
//! The service pages by index rather than by cursor: each request names a
//! page number, and the traversal ends when a page comes back empty.  A
//! transport failure or a page that does not decode is fatal: the error
//! is surfaced to the consumer, never passed off as the end of the data.

use vstd::prelude::*;
use vstd::string::StringExecFns;
use vstd::utf8::encode_utf8;

use crate::link::seq_starts_with;
use crate::paginate::PageError;
use crate::text::{str_eq, str_starts_with};
use crate::urls::{dec_int, i32_dec_str};

verus! {

/// One category, as the service lists it.
#[derive(Debug, Clone)]
pub struct KalturaCategory {
    pub name: String,
    pub full_name: String,
    pub entries_count: i32,
}

/// One step of the category traversal: the next category, a demand that
/// the caller fetch the given page number and report back, or the end.
pub enum KalturaStep {
    Item(KalturaCategory),
    Fetch(i32),
    End,
}

/// What fetching one category page came to: the request failed outright,
/// the body did not decode into a category list, or a page of categories
/// arrived.
pub enum KalturaFetch {
    Failed,
    Malformed,
    Items(Vec<KalturaCategory>),
}

/// A lazy, forward-only traversal of all categories, page by page.
///
/// Categories are yielded in document order; at most one page's worth of
/// not-yet-yielded categories is buffered, and page numbers climb by
/// exactly one per supplied page, starting at one.
pub struct KalturaIterator {
    ks: String,
    next_page: i32,
    items: Vec<KalturaCategory>,
    done: bool,
    failed: bool,
    pages: Ghost<Seq<Seq<KalturaCategory>>>,
    history: Ghost<Seq<KalturaCategory>>,
}

impl KalturaIterator {
    /// The session token the traversal's requests carry.
    pub closed spec fn ks_view(&self) -> Seq<char> {
        self.ks@
    }

    /// The number of the page that would be fetched next.
    pub closed spec fn next_page_num(&self) -> int {
        self.next_page as int
    }

    /// The current page's categories not yet handed to the consumer.
    pub closed spec fn buffered(&self) -> Seq<KalturaCategory> {
        self.items@
    }

    /// Every category handed to the consumer so far, oldest first.
    pub closed spec fn yielded_items(&self) -> Seq<KalturaCategory> {
        self.history@
    }

    /// The category lists of every page supplied so far, oldest first.
    pub closed spec fn supplied_pages(&self) -> Seq<Seq<KalturaCategory>> {
        self.pages@
    }

    /// Whether the traversal has reached its end.
    pub closed spec fn is_done(&self) -> bool {
        self.done
    }

    /// Whether a fatal outcome ended the traversal.
    pub closed spec fn has_failed(&self) -> bool {
        self.failed
    }

    /// The traversal's invariant: what was yielded followed by what is
    /// buffered is exactly the supplied pages' categories in order, the
    /// buffer never holds more than the latest supplied page, and the
    /// next page number is one past the pages already supplied.
    pub open spec fn wf(&self) -> bool {
        &&& self.yielded_items() + self.buffered() == self.supplied_pages().flatten()
        &&& self.supplied_pages().len() == 0 ==> self.buffered().len() == 0
        &&& self.supplied_pages().len() > 0 ==> self.buffered().len()
            <= self.supplied_pages().last().len()
        &&& self.next_page_num() == self.supplied_pages().len() + 1
        &&& self.is_done() ==> self.buffered().len() == 0
        &&& self.has_failed() ==> self.is_done()
    }

    /// The session token, for the caller performing the requests.
    pub fn ks(&self) -> (t: &str)
        ensures
            t@ == self.ks_view(),
    {
        self.ks.as_str()
    }

    /// One pull by the consumer: a buffered category at once, or the page
    /// number the caller must fetch, or the end.  A fetch is demanded only
    /// on an empty buffer.
    pub fn step(&mut self) -> (r: KalturaStep)
        requires
            old(self).wf(),
        ensures
            final(self).wf(),
            old(self).buffered().len() > 0 ==> {
                &&& r == KalturaStep::Item(old(self).buffered()[0])
                &&& final(self).buffered() == old(self).buffered().drop_first()
                &&& final(self).yielded_items() == old(self).yielded_items().push(
                    old(self).buffered()[0],
                )
                &&& final(self).supplied_pages() == old(self).supplied_pages()
                &&& final(self).next_page_num() == old(self).next_page_num()
                &&& final(self).is_done() == old(self).is_done()
                &&& final(self).has_failed() == old(self).has_failed()
            },
            old(self).buffered().len() == 0 && !old(self).is_done() ==> {
                &&& r matches KalturaStep::Fetch(p) && p as int == old(self).next_page_num()
                &&& *final(self) == *old(self)
            },
            old(self).buffered().len() == 0 && old(self).is_done() ==> {
                &&& r is End
                &&& *final(self) == *old(self)
            },
    {
        if self.items.len() > 0 {
            let item = self.items.remove(0);
            proof {
                self.history@ = self.history@.push(item);
                assert(self.history@ + self.items@ =~= self.pages@.flatten());
            }
            KalturaStep::Item(item)
        } else if self.done {
            KalturaStep::End
        } else {
            KalturaStep::Fetch(self.next_page)
        }
    }

    /// Record what fetching the demanded page came to.  A failed request
    /// or a body that does not decode is fatal: the error is surfaced
    /// once and the traversal ends, with everything already yielded
    /// untouched.  An empty page is the normal end of the data.  A
    /// non-empty page re-fills the buffer in document order and moves the
    /// page number on by one.
    pub fn supply(&mut self, fetched: KalturaFetch) -> (r: Result<(), PageError>)
        requires
            old(self).wf(),
            old(self).buffered().len() == 0,
            !old(self).is_done(),
            old(self).next_page_num() < i32::MAX,
        ensures
            final(self).wf(),
            final(self).yielded_items() == old(self).yielded_items(),
            final(self).ks_view() == old(self).ks_view(),
            match fetched {
                KalturaFetch::Failed => {
                    &&& r == Err::<(), PageError>(PageError::Transport)
                    &&& final(self).is_done()
                    &&& final(self).has_failed()
                    &&& final(self).supplied_pages() == old(self).supplied_pages()
                    &&& final(self).buffered().len() == 0
                },
                KalturaFetch::Malformed => {
                    &&& r == Err::<(), PageError>(PageError::Decode)
                    &&& final(self).is_done()
                    &&& final(self).has_failed()
                    &&& final(self).supplied_pages() == old(self).supplied_pages()
                    &&& final(self).buffered().len() == 0
                },
                KalturaFetch::Items(v) => {
                    &&& r == Ok::<(), PageError>(())
                    &&& final(self).buffered() == v@
                    &&& final(self).supplied_pages() == old(self).supplied_pages().push(v@)
                    &&& final(self).next_page_num() == old(self).next_page_num() + 1
                    &&& final(self).is_done() == (v@.len() == 0)
                    &&& final(self).has_failed() == old(self).has_failed()
                },
            },
    {
        match fetched {
            KalturaFetch::Failed => {
                self.done = true;
                self.failed = true;
                Err(PageError::Transport)
            },
            KalturaFetch::Malformed => {
                self.done = true;
                self.failed = true;
                Err(PageError::Decode)
            },
            KalturaFetch::Items(v) => {
                proof {
                    self.pages@ = self.pages@.push(v@);
                    self.pages@.drop_last().lemma_flatten_push(v@);
                    assert(self.pages@.drop_last() =~= old(self).pages@);
                }
                self.done = v.len() == 0;
                self.items = v;
                self.next_page = self.next_page + 1;
                proof {
                    assert(self.history@ + self.items@ =~= self.pages@.flatten());
                }
                Ok(())
            },
        }
    }
}

/// A traversal of every category the session token can list.  Nothing is
/// fetched until the consumer pulls.
pub fn get_all_categories(ks: String) -> (it: KalturaIterator)
    ensures
        it.wf(),
        it.ks_view() == ks@,
        it.next_page_num() == 1,
        it.buffered().len() == 0,
        it.yielded_items().len() == 0,
        it.supplied_pages().len() == 0,
        !it.is_done(),
        !it.has_failed(),
{
    let it = KalturaIterator {
        ks,
        next_page: 1,
        items: Vec::new(),
        done: false,
        failed: false,
        pages: Ghost(Seq::empty()),
        history: Ghost(Seq::empty()),
    };
    proof {
        assert(it.history@ + it.items@ =~= it.pages@.flatten());
    }
    it
}

/// Whenever the buffer is drained — in particular whenever a new page may
/// be fetched, and at the end — the consumer has been handed exactly the
/// concatenation of all supplied pages' categories, in order.
pub proof fn lemma_kaltura_drained_means_all_yielded(it: KalturaIterator)
    requires
        it.wf(),
        it.buffered().len() == 0,
    ensures
        it.yielded_items() == it.supplied_pages().flatten(),
{
    assert(it.yielded_items() =~= it.yielded_items() + it.buffered());
}

/// The request body listing one page of categories, exactly as the
/// service expects it: the session token and the page number spliced into
/// the fixed filter document.
pub fn category_request_body(ks: &str, page: i32) -> (r: String)
    ensures
        r@ == "{\"ks\":\""@ + ks@
            + "\",\"responseProfile\": {\"objectType\": \"KalturaDetachedResponseProfile\",\"type\":1,\"fields\":\"id, name, createdAt, directSubCategoriesCount, entriesCount, fullName, tags, parentId, privacyContexts\"},\"filter\":{\"objectType\":\"KalturaCategoryFilter\",\"orderBy\":\"-createdAt\",\"advancedSearch\": {\"objectType\":\"KalturaSearchOperator\",\"type\":1,\"items\":[{\"objectType\":\"KalturaMetadataSearchItem\",\"type\":1,\"metadataProfileId\":2001}]}},\"pager\":{\"objectType\":\"KalturaFilterPager\",\"pageSize\":250,\"pageIndex\":"@
            + dec_int(page as int) + "},\"apiVersion\":\"15.6.0\"}"@,
{
    let mut r = "{\"ks\":\"".to_owned();
    r.append(ks);
    r.append(
        "\",\"responseProfile\": {\"objectType\": \"KalturaDetachedResponseProfile\",\"type\":1,\"fields\":\"id, name, createdAt, directSubCategoriesCount, entriesCount, fullName, tags, parentId, privacyContexts\"},\"filter\":{\"objectType\":\"KalturaCategoryFilter\",\"orderBy\":\"-createdAt\",\"advancedSearch\": {\"objectType\":\"KalturaSearchOperator\",\"type\":1,\"items\":[{\"objectType\":\"KalturaMetadataSearchItem\",\"type\":1,\"metadataProfileId\":2001}]}},\"pager\":{\"objectType\":\"KalturaFilterPager\",\"pageSize\":250,\"pageIndex\":",
    );
    r.append(i32_dec_str(page).as_str());
    r.append("},\"apiVersion\":\"15.6.0\"}");
    r
}

/// Whether a category is worth exporting: a channel under the expected
/// tree, not the InContext marker, with a short name and at least one
/// entry.
pub open spec fn keep_category(c: KalturaCategory) -> bool {
    &&& c.name@ != "InContext"@
    &&& seq_starts_with(c.full_name@, "Canvas>site>channels"@)
    &&& encode_utf8(c.name@).len() < 10
    &&& c.entries_count > 0
}

/// The subsequence of categories worth exporting, in their given order.
pub open spec fn relevant_categories_of(s: Seq<KalturaCategory>) -> Seq<KalturaCategory>
    decreases s.len(),
{
    if s.len() == 0 {
        Seq::empty()
    } else if keep_category(s[0]) {
        seq![s[0]] + relevant_categories_of(s.drop_first())
    } else {
        relevant_categories_of(s.drop_first())
    }
}

/// The categories worth exporting, in their given order.
pub fn relevant_categories(categories: Vec<KalturaCategory>) -> (r: Vec<KalturaCategory>)
    ensures
        r@ == relevant_categories_of(categories@),
{
    let ghost orig = categories@;
    let mut rest = categories;
    let mut result: Vec<KalturaCategory> = Vec::new();
    while rest.len() > 0
        invariant
            relevant_categories_of(orig) == result@ + relevant_categories_of(rest@),
        decreases rest@.len(),
    {
        let ghost before = rest@;
        let c = rest.remove(0);
        proof {
            assert(before.drop_first() =~= rest@);
        }
        let keep = !str_eq(c.name.as_str(), "InContext") && str_starts_with(
            c.full_name.as_str(),
            "Canvas>site>channels",
        ) && c.name.as_str().as_bytes().len() < 10 && c.entries_count > 0;
        proof {
            assert(keep == keep_category(before[0]));
        }
        if keep {
            result.push(c);
            proof {
                assert(relevant_categories_of(before) =~= seq![before[0]]
                    + relevant_categories_of(rest@));
                assert(relevant_categories_of(orig) =~= result@ + relevant_categories_of(rest@));
            }
        } else {
            proof {
                assert(relevant_categories_of(before) == relevant_categories_of(rest@));
            }
        }
    }
    proof {
        assert(relevant_categories_of(rest@) =~= Seq::<KalturaCategory>::empty());
        assert(relevant_categories_of(orig) =~= result@);
    }
    result
}

} // verus!
