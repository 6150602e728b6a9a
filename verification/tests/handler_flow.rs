use grocery_registry::handlers::body_within_limit;
use grocery_registry::handlers::client_error_status;
use grocery_registry::handlers::delete_grocery_list_item;
use grocery_registry::handlers::get_grocery_list;
use grocery_registry::handlers::update_grocery_list;
use grocery_registry::handlers::BODY_SIZE_LIMIT;
use grocery_registry::ClientError;
use grocery_registry::Id;
use grocery_registry::Item;
use grocery_registry::Store;

fn lookup(snapshot: &[grocery_registry::Entry], name: &str) -> Option<i32> {
    snapshot.iter().find(|e| e.name == name).map(|e| e.quantity)
}

#[test]
fn update_reports_created_with_message() {
    let store = Store::new();
    let (status, body) = update_grocery_list(
        Item { name: "apple".to_string(), quantity: 3 },
        &store,
    );
    assert_eq!(status, 201);
    assert_eq!(body, "Added items to the grocery list");
}

#[test]
fn delete_reports_ok_with_message_even_when_absent() {
    let store = Store::new();
    let (status, body) = delete_grocery_list_item(Id { name: "ghost".to_string() }, &store);
    assert_eq!(status, 200);
    assert_eq!(body, "Removed item from grocery list");
    assert_eq!(get_grocery_list(&store).1.len(), 0);
}

#[test]
fn list_reports_ok() {
    let store = Store::new();
    let (status, snap) = get_grocery_list(&store);
    assert_eq!(status, 200);
    assert_eq!(snap.len(), 0);
}

#[test]
fn body_limit_edges() {
    assert!(body_within_limit(0));
    assert!(body_within_limit(16384));
    assert!(!body_within_limit(16385));
    assert_eq!(BODY_SIZE_LIMIT, 16384);
}

#[test]
fn client_error_statuses() {
    assert_eq!(client_error_status(&ClientError::MalformedBody), 400);
    assert_eq!(client_error_status(&ClientError::OversizedBody), 413);
    assert_eq!(client_error_status(&ClientError::UnknownRoute), 404);
}

#[test]
fn end_to_end_scenario() {
    let store = Store::new();

    let (status, _) = update_grocery_list(
        Item { name: "apple".to_string(), quantity: 3 },
        &store,
    );
    assert_eq!(status, 201);

    let (status, snap) = get_grocery_list(&store);
    assert_eq!(status, 200);
    assert_eq!(snap.len(), 1);
    assert_eq!(lookup(&snap, "apple"), Some(3));

    let (status, _) = update_grocery_list(
        Item { name: "apple".to_string(), quantity: 5 },
        &store,
    );
    assert_eq!(status, 201);

    let (status, snap) = get_grocery_list(&store);
    assert_eq!(status, 200);
    assert_eq!(snap.len(), 1);
    assert_eq!(lookup(&snap, "apple"), Some(5));

    let (status, _) = delete_grocery_list_item(Id { name: "apple".to_string() }, &store);
    assert_eq!(status, 200);

    let (status, snap) = get_grocery_list(&store);
    assert_eq!(status, 200);
    assert_eq!(snap.len(), 0);
}
