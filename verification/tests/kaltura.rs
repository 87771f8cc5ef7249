use canvas_api::kaltura_api::{
    category_request_body, get_all_categories, relevant_categories, KalturaCategory, KalturaFetch,
    KalturaStep,
};
use canvas_api::paginate::PageError;

fn cat(name: &str, full_name: &str, entries_count: i32) -> KalturaCategory {
    KalturaCategory {
        name: name.to_string(),
        full_name: full_name.to_string(),
        entries_count,
    }
}

#[test]
fn kaltura_pages_climb_by_one_and_keep_order() {
    let mut it = get_all_categories("the-ks".to_string());
    assert_eq!(it.ks(), "the-ks");
    match it.step() {
        KalturaStep::Fetch(p) => assert_eq!(p, 1),
        _ => panic!("expected the first page to be demanded"),
    }
    it.supply(KalturaFetch::Items(vec![cat("A", "r>A", 1), cat("B", "r>B", 2)]))
        .unwrap();
    assert!(matches!(it.step(), KalturaStep::Item(ref c) if c.name == "A"));
    assert!(matches!(it.step(), KalturaStep::Item(ref c) if c.name == "B"));
    match it.step() {
        KalturaStep::Fetch(p) => assert_eq!(p, 2),
        _ => panic!("expected the second page to be demanded"),
    }
    it.supply(KalturaFetch::Items(vec![cat("C", "r>C", 3)])).unwrap();
    assert!(matches!(it.step(), KalturaStep::Item(ref c) if c.name == "C"));
    match it.step() {
        KalturaStep::Fetch(p) => assert_eq!(p, 3),
        _ => panic!("expected the third page to be demanded"),
    }
    it.supply(KalturaFetch::Items(vec![])).unwrap();
    assert!(matches!(it.step(), KalturaStep::End));
    assert!(matches!(it.step(), KalturaStep::End));
}

#[test]
fn kaltura_undecodable_page_is_fatal() {
    // An undecodable body is surfaced as a decode error, not passed off
    // as the end of the data; items already yielded stay yielded.
    let mut it = get_all_categories("k".to_string());
    assert!(matches!(it.step(), KalturaStep::Fetch(1)));
    it.supply(KalturaFetch::Items(vec![cat("A", "r>A", 1)])).unwrap();
    assert!(matches!(it.step(), KalturaStep::Item(ref c) if c.name == "A"));
    assert!(matches!(it.step(), KalturaStep::Fetch(2)));
    assert_eq!(it.supply(KalturaFetch::Malformed), Err(PageError::Decode));
    assert!(matches!(it.step(), KalturaStep::End));
}

#[test]
fn kaltura_transport_failure_is_fatal() {
    let mut it = get_all_categories("k".to_string());
    assert!(matches!(it.step(), KalturaStep::Fetch(1)));
    assert_eq!(it.supply(KalturaFetch::Failed), Err(PageError::Transport));
    assert!(matches!(it.step(), KalturaStep::End));
}

#[test]
fn category_request_body_splices_token_and_page() {
    let body = category_request_body("KS123", 7);
    let expected = format!(
        r#"{{"ks":"{}","responseProfile": {{"objectType": "KalturaDetachedResponseProfile","type":1,"fields":"id, name, createdAt, directSubCategoriesCount, entriesCount, fullName, tags, parentId, privacyContexts"}},"filter":{{"objectType":"KalturaCategoryFilter","orderBy":"-createdAt","advancedSearch": {{"objectType":"KalturaSearchOperator","type":1,"items":[{{"objectType":"KalturaMetadataSearchItem","type":1,"metadataProfileId":2001}}]}}}},"pager":{{"objectType":"KalturaFilterPager","pageSize":250,"pageIndex":{}}},"apiVersion":"15.6.0"}}"#,
        "KS123", 7
    );
    assert_eq!(body, expected);
}

#[test]
fn relevant_categories_filter() {
    let kept = cat("SF1624", "Canvas>site>channels>SF1624", 4);
    let in_context = cat("InContext", "Canvas>site>channels>InContext", 4);
    let wrong_tree = cat("SF1625", "Other>site>channels>SF1625", 4);
    let long_name = cat("SF1624567890", "Canvas>site>channels>SF1624567890", 4);
    let empty = cat("SF1626", "Canvas>site>channels>SF1626", 0);
    let also_kept = cat("DD1337", "Canvas>site>channels>DD1337", 1);
    let result = relevant_categories(vec![
        kept, in_context, wrong_tree, long_name, empty, also_kept,
    ]);
    let names: Vec<&str> = result.iter().map(|c| c.name.as_str()).collect();
    assert_eq!(names, vec!["SF1624", "DD1337"]);
}
