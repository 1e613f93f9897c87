use okey::name_search::{
    FriendlyNameSearch, NameSearchAction, NameSearchEvent, NameSearchOutcome, NameSearchPhase,
    HRESULT_INSUFFICIENT_BUFFER, HRESULT_NOT_FOUND, HRESULT_NO_MORE_ITEMS,
};

fn wide(s: &str) -> Vec<u16> {
    let mut v: Vec<u16> = s.encode_utf16().collect();
    v.push(0);
    v.push(0x41);
    v
}

fn le_bytes(s: &str) -> Vec<u8> {
    let mut b = Vec::new();
    for u in s.encode_utf16().chain([0u16, 0x58]) {
        b.extend(u.to_le_bytes());
    }
    b
}

#[test]
fn finds_name_of_matching_interface() {
    let (mut s, a) = FriendlyNameSearch::new("\\\\?\\hid#abc");
    assert!(a == NameSearchAction::OpenDeviceList);
    assert!(s.step(NameSearchEvent::Opened(Ok(true))) == NameSearchAction::EnumerateInterface(0));
    assert!(s.step(NameSearchEvent::Completed(Ok(()))) == NameSearchAction::QueryDetailSize(0));
    assert!(s.step(NameSearchEvent::Completed(Err(HRESULT_INSUFFICIENT_BUFFER))) == NameSearchAction::ReadDetail(0));
    assert!(s.step(NameSearchEvent::DetailRead(Ok(wide("\\\\?\\HID#other")))) == NameSearchAction::EnumerateInterface(1));
    assert!(s.step(NameSearchEvent::Completed(Ok(()))) == NameSearchAction::QueryDetailSize(1));
    assert!(s.step(NameSearchEvent::Completed(Ok(()))) == NameSearchAction::ReadDetail(1));
    assert!(s.step(NameSearchEvent::DetailRead(Ok(wide("\\\\?\\HID#ABC")))) == NameSearchAction::ReadDeviceInfo(1));
    assert!(s.step(NameSearchEvent::Completed(Ok(()))) == NameSearchAction::QueryPropertySize(0));
    assert!(s.step(NameSearchEvent::Completed(Err(HRESULT_NOT_FOUND))) == NameSearchAction::QueryPropertySize(1));
    assert!(s.step(NameSearchEvent::Completed(Err(HRESULT_INSUFFICIENT_BUFFER))) == NameSearchAction::ReadProperty(1));
    assert!(s.step(NameSearchEvent::PropertyRead(Ok(le_bytes("Keyboard \u{e9}")))) == NameSearchAction::CloseDeviceList);
    assert_eq!(s.found_name().as_deref(), Some("Keyboard \u{e9}"));
    assert!(s.step(NameSearchEvent::Completed(Ok(()))) == NameSearchAction::Finish(NameSearchOutcome::Named));
    assert!(s.current_phase() == NameSearchPhase::Done);
}

#[test]
fn no_more_items_means_no_name() {
    let (mut s, _) = FriendlyNameSearch::new("x");
    s.step(NameSearchEvent::Opened(Ok(true)));
    assert!(s.step(NameSearchEvent::Completed(Err(HRESULT_NO_MORE_ITEMS))) == NameSearchAction::CloseDeviceList);
    assert!(s.step(NameSearchEvent::Completed(Ok(()))) == NameSearchAction::Finish(NameSearchOutcome::NoName));
    assert!(s.found_name().is_none());
}

#[test]
fn null_list_and_open_failure() {
    let (mut s, _) = FriendlyNameSearch::new("x");
    assert!(s.step(NameSearchEvent::Opened(Ok(false))) == NameSearchAction::Finish(NameSearchOutcome::NoName));
    let (mut s, _) = FriendlyNameSearch::new("x");
    assert!(s.step(NameSearchEvent::Opened(Err(-5))) == NameSearchAction::Finish(NameSearchOutcome::Failed(-5)));
}

#[test]
fn not_found_on_last_key_fails() {
    let (mut s, _) = FriendlyNameSearch::new("p");
    s.step(NameSearchEvent::Opened(Ok(true)));
    s.step(NameSearchEvent::Completed(Ok(())));
    s.step(NameSearchEvent::Completed(Ok(())));
    assert!(s.step(NameSearchEvent::DetailRead(Ok(wide("P")))) == NameSearchAction::ReadDeviceInfo(0));
    s.step(NameSearchEvent::Completed(Ok(())));
    for k in 1..5 {
        assert!(s.step(NameSearchEvent::Completed(Err(HRESULT_NOT_FOUND))) == NameSearchAction::QueryPropertySize(k));
    }
    assert!(s.step(NameSearchEvent::Completed(Err(HRESULT_NOT_FOUND))) == NameSearchAction::CloseDeviceList);
    assert!(s.step(NameSearchEvent::Completed(Ok(()))) == NameSearchAction::Finish(NameSearchOutcome::Failed(HRESULT_NOT_FOUND)));
}

#[test]
fn closing_failure_overrides_result() {
    let (mut s, _) = FriendlyNameSearch::new("x");
    s.step(NameSearchEvent::Opened(Ok(true)));
    s.step(NameSearchEvent::Completed(Err(HRESULT_NO_MORE_ITEMS)));
    assert!(s.step(NameSearchEvent::Completed(Err(-9))) == NameSearchAction::Finish(NameSearchOutcome::Failed(-9)));
}

#[test]
fn other_errors_close_the_list() {
    let (mut s, _) = FriendlyNameSearch::new("x");
    s.step(NameSearchEvent::Opened(Ok(true)));
    s.step(NameSearchEvent::Completed(Ok(())));
    assert!(s.step(NameSearchEvent::Completed(Err(-3))) == NameSearchAction::CloseDeviceList);
    assert!(s.step(NameSearchEvent::Completed(Ok(()))) == NameSearchAction::Finish(NameSearchOutcome::Failed(-3)));
}

#[test]
fn list_is_closed_once_before_finishing() {
    let (mut s, _) = FriendlyNameSearch::new("p");
    let mut closes = 0;
    let answers = vec![
        NameSearchEvent::Opened(Ok(true)),
        NameSearchEvent::Completed(Ok(())),
        NameSearchEvent::Completed(Ok(())),
        NameSearchEvent::DetailRead(Ok(wide("q"))),
        NameSearchEvent::Completed(Err(HRESULT_NO_MORE_ITEMS)),
        NameSearchEvent::Completed(Err(-7)),
    ];
    let mut last = NameSearchAction::OpenDeviceList;
    for a in answers {
        last = s.step(a);
        if last == NameSearchAction::CloseDeviceList {
            closes += 1;
        }
    }
    assert_eq!(closes, 1);
    assert!(last == NameSearchAction::Finish(NameSearchOutcome::Failed(-7)));
}
