use ruma::error::ApiError;
use ruma::error::ForbiddenReason;
use ruma::filter::FilterStore;
use ruma::filter::GetFilter;
use ruma::filter::PostFilter;

#[test]
fn basic_test() {
    let mut store = FilterStore::new();
    let user_id = String::from("@carl:ruma.test");
    let content = String::from(r#"{"room":{"timeline":{"limit":10}}}"#);

    let filter_id = PostFilter::handle(&mut store, &user_id, &user_id, content.clone()).unwrap();

    let body = GetFilter::handle(&store, &user_id, filter_id);
    assert!(body.is_ok());
    assert_eq!(body.unwrap(), r#"{"room":{"timeline":{"limit":10}}}"#);
}

#[test]
fn invalid_user() {
    let mut store = FilterStore::new();
    let carl = String::from("@carl:ruma.test");
    let alice = String::from("@alice:ruma.test");
    let content = String::from(r#"{"room":{"timeline":{"limit":10}}}"#);

    let response = PostFilter::handle(&mut store, &alice, &carl, content);

    assert_eq!(
        response.unwrap_err(),
        ApiError::Forbidden(ForbiddenReason::UserMismatch)
    );
}

#[test]
fn get_not_found() {
    let store = FilterStore::new();
    let user_id = String::from("@carl:ruma.test");

    let response = GetFilter::handle(&store, &user_id, 1);

    let error = response.unwrap_err();
    assert_eq!(error, ApiError::NotFound);
    assert_eq!(error.errcode(), "M_NOT_FOUND");
}

#[test]
fn filter_of_another_user_is_not_found() {
    let mut store = FilterStore::new();
    let carl = String::from("@carl:ruma.test");
    let alice = String::from("@alice:ruma.test");
    let content = String::from(r#"{"room":{"timeline":{"limit":10}}}"#);

    let filter_id = PostFilter::handle(&mut store, &carl, &carl, content).unwrap();

    let response = GetFilter::handle(&store, &alice, filter_id);
    assert_eq!(response.unwrap_err(), ApiError::NotFound);
}

#[test]
fn filter_ids_are_assigned_in_order() {
    let mut store = FilterStore::new();
    let carl = String::from("@carl:ruma.test");

    let first = PostFilter::handle(&mut store, &carl, &carl, String::from("{}")).unwrap();
    let second = PostFilter::handle(&mut store, &carl, &carl, String::from("{\"a\":1}")).unwrap();

    assert_eq!(first, 0);
    assert_eq!(second, 1);
    assert_eq!(GetFilter::handle(&store, &carl, first).unwrap(), "{}");
    assert_eq!(GetFilter::handle(&store, &carl, second).unwrap(), "{\"a\":1}");
}
