use canvas_api::paginate::{
    classify_status, CanvasApi, Decoded, FetchOutcome, FetchResult, ItemStep, PageError,
    PageIterator, StatusClass,
};

fn page<T>(status: u16, link: Option<&str>, items: Vec<T>) -> FetchOutcome<T> {
    FetchOutcome::Response {
        status,
        link: link.map(|l| l.to_string()),
        body: Decoded::Items(items),
    }
}

#[test]
fn end_to_end_two_pages() {
    // P7: page 1 holds two items and links onwards; page 2 holds one item
    // and no next link.  Exactly the three items come out, in order, with
    // exactly two fetches.
    let api = CanvasApi::new("https://canvas.test".to_string(), "token".to_string());
    let pages = api.get_paginated("/courses");
    let mut it = pages.items::<i32>();
    let mut collected: Vec<i32> = Vec::new();
    let mut fetches = 0;
    loop {
        match it.step() {
            ItemStep::Item(x) => collected.push(x),
            ItemStep::Fetch(url) => {
                fetches += 1;
                if fetches == 1 {
                    assert_eq!(url, "https://canvas.test/courses");
                    let link = "<https://canvas.test/courses?page=2>; rel=\"next\"";
                    it.supply_page(page(200, Some(link), vec![1, 2])).unwrap();
                } else {
                    assert_eq!(url, "https://canvas.test/courses?page=2");
                    let link = "<https://canvas.test/courses?page=1>; rel=\"prev\"";
                    it.supply_page(page(200, Some(link), vec![3])).unwrap();
                }
            }
            ItemStep::End => break,
        }
    }
    assert_eq!(collected, vec![1, 2, 3]);
    assert_eq!(fetches, 2);
}

#[test]
fn no_fetch_happens_before_first_demand() {
    // P3: building the traversal fetches nothing; the first pull asks for
    // exactly one page, and asking again without supplying demands the
    // same page rather than running ahead.
    let pages = PageIterator::start("https://canvas.test/a".to_string());
    let mut it = pages.items::<u8>();
    match it.step() {
        ItemStep::Fetch(url) => assert_eq!(url, "https://canvas.test/a"),
        _ => panic!("expected a fetch demand"),
    }
    match it.step() {
        ItemStep::Fetch(url) => assert_eq!(url, "https://canvas.test/a"),
        _ => panic!("expected the same fetch demand"),
    }
}

#[test]
fn buffer_drains_before_next_fetch() {
    // A supplied page is yielded in full, in order, before any further
    // page is asked for.
    let pages = PageIterator::start("https://canvas.test/a".to_string());
    let mut it = pages.items::<i32>();
    assert!(matches!(it.step(), ItemStep::Fetch(_)));
    let link = "<https://canvas.test/a?page=2>; rel=\"next\"";
    it.supply_page(page(200, Some(link), vec![10, 20, 30])).unwrap();
    assert!(matches!(it.step(), ItemStep::Item(10)));
    assert!(matches!(it.step(), ItemStep::Item(20)));
    assert!(matches!(it.step(), ItemStep::Item(30)));
    match it.step() {
        ItemStep::Fetch(url) => assert_eq!(url, "https://canvas.test/a?page=2"),
        _ => panic!("expected the second page to be demanded only now"),
    }
}

#[test]
fn notfound_ends_sequence_gracefully() {
    // P5: a 404 ends the traversal without an error, and items already
    // yielded stay yielded.
    let pages = PageIterator::start("https://canvas.test/missing".to_string());
    let mut it = pages.items::<i32>();
    let mut collected: Vec<i32> = Vec::new();
    assert!(matches!(it.step(), ItemStep::Fetch(_)));
    let link = "<https://canvas.test/missing?page=2>; rel=\"next\"";
    it.supply_page(page(200, Some(link), vec![1, 2])).unwrap();
    while let ItemStep::Item(x) = it.step() {
        collected.push(x);
    }
    assert!(matches!(it.step(), ItemStep::Fetch(_)));
    let outcome: FetchOutcome<i32> = FetchOutcome::Response {
        status: 404,
        link: Some(link.to_string()),
        body: Decoded::Malformed,
    };
    assert_eq!(it.supply_page(outcome), Ok(()));
    assert!(matches!(it.step(), ItemStep::End));
    assert_eq!(collected, vec![1, 2]);
}

#[test]
fn unexpected_status_is_fatal() {
    // P6: a 500 surfaces as an error carrying the status, and the
    // traversal yields nothing further.
    let pages = PageIterator::start("https://canvas.test/a".to_string());
    let mut it = pages.items::<i32>();
    assert!(matches!(it.step(), ItemStep::Fetch(_)));
    let outcome: FetchOutcome<i32> = page(500, None, vec![9]);
    assert_eq!(it.supply_page(outcome), Err(PageError::UnexpectedStatus(500)));
    assert!(matches!(it.step(), ItemStep::End));
}

#[test]
fn transport_failure_is_fatal() {
    let pages = PageIterator::start("https://canvas.test/a".to_string());
    let mut it = pages.items::<i32>();
    assert!(matches!(it.step(), ItemStep::Fetch(_)));
    assert_eq!(it.supply_page(FetchOutcome::Failed), Err(PageError::Transport));
    assert!(matches!(it.step(), ItemStep::End));
}

#[test]
fn malformed_body_is_fatal() {
    let pages = PageIterator::start("https://canvas.test/a".to_string());
    let mut it = pages.items::<i32>();
    assert!(matches!(it.step(), ItemStep::Fetch(_)));
    let outcome: FetchOutcome<i32> = FetchOutcome::Response {
        status: 200,
        link: None,
        body: Decoded::Malformed,
    };
    assert_eq!(it.supply_page(outcome), Err(PageError::Decode));
    assert!(matches!(it.step(), ItemStep::End));
}

#[test]
fn missing_link_header_ends_after_page() {
    // P2 on one page: a page without a next link is the last; the items
    // yielded are exactly that page's, then the sequence ends.
    let pages = PageIterator::start("https://canvas.test/a".to_string());
    let mut it = pages.items::<i32>();
    assert!(matches!(it.step(), ItemStep::Fetch(_)));
    it.supply_page(page(200, None, vec![7])).unwrap();
    assert!(matches!(it.step(), ItemStep::Item(7)));
    assert!(matches!(it.step(), ItemStep::End));
}

#[test]
fn page_iterator_follows_links() {
    let api = CanvasApi::new("https://canvas.test".to_string(), "secret".to_string());
    assert_eq!(api.token(), "secret");
    assert_eq!(api.request_url("/accounts/1"), "https://canvas.test/accounts/1");
    let mut pages = api.get_paginated("/accounts/1/courses");
    assert_eq!(
        pages.pending(),
        Some("https://canvas.test/accounts/1/courses".to_string())
    );
    assert!(!pages.exhausted());
    pages.advance(&FetchResult::Response {
        status: 200,
        link: Some("<https://canvas.test/accounts/1/courses?page=2>; rel=\"next\"".to_string()),
    });
    assert_eq!(
        pages.pending(),
        Some("https://canvas.test/accounts/1/courses?page=2".to_string())
    );
    pages.advance(&FetchResult::Response { status: 200, link: None });
    assert!(pages.exhausted());
    assert_eq!(pages.pending(), None);
}

#[test]
fn page_iterator_stops_on_failure() {
    let mut pages = PageIterator::start("https://canvas.test/x".to_string());
    pages.advance(&FetchResult::Failed);
    assert!(pages.exhausted());
}

#[test]
fn status_classification() {
    assert_eq!(classify_status(200), StatusClass::Success);
    assert_eq!(classify_status(204), StatusClass::Success);
    assert_eq!(classify_status(299), StatusClass::Success);
    assert_eq!(classify_status(404), StatusClass::EndOfData);
    assert_eq!(classify_status(500), StatusClass::Unexpected);
    assert_eq!(classify_status(302), StatusClass::Unexpected);
    assert_eq!(classify_status(199), StatusClass::Unexpected);
    assert_eq!(classify_status(403), StatusClass::Unexpected);
}
