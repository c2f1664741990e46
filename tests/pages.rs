use std::cell::Cell;

use provision_core::backend::{BNode, BServer, BUser, Backend};
use provision_core::pages::{find_on_pages, Page};

fn user(id: u32, name: &str) -> BUser {
    BUser { id, username: name.to_string() }
}

fn user_pages() -> Vec<Vec<(u32, &'static str)>> {
    vec![
        vec![(1, "alice"), (2, "bob")],
        vec![(3, "carol"), (4, "dave")],
        vec![(5, "erin"), (6, "carol")],
    ]
}

fn serve_users<'a>(
    pages: &'a [Vec<(u32, &'static str)>],
    calls: &'a Cell<u32>,
    fetched: &'a std::cell::RefCell<Vec<u32>>,
) -> impl Fn(u32) -> Option<Page<BUser>> + 'a {
    move |page: u32| {
        calls.set(calls.get() + 1);
        fetched.borrow_mut().push(page);
        let data = pages.get(page as usize - 1)?;
        Some(Page {
            data: data.iter().map(|(id, name)| user(*id, name)).collect(),
            total_pages: pages.len() as u32,
        })
    }
}

#[test]
fn find_stops_on_page_with_match() {
    let pages = user_pages();
    let calls = Cell::new(0);
    let fetched = std::cell::RefCell::new(vec![]);
    let fetch = serve_users(&pages, &calls, &fetched);
    let (found, count) = find_on_pages(&fetch, "carol");
    let found = found.expect("carol is on page 2");
    assert_eq!(found.id, 3);
    assert_eq!(count, 2);
    assert_eq!(calls.get(), 2);
    assert_eq!(*fetched.borrow(), vec![1, 2]);
}

#[test]
fn find_on_first_page_fetches_once() {
    let pages = user_pages();
    let calls = Cell::new(0);
    let fetched = std::cell::RefCell::new(vec![]);
    let fetch = serve_users(&pages, &calls, &fetched);
    let (found, count) = find_on_pages(&fetch, "bob");
    assert_eq!(found.map(|u| u.id), Some(2));
    assert_eq!(count, 1);
    assert_eq!(calls.get(), 1);
}

#[test]
fn find_without_match_fetches_every_page() {
    let pages = user_pages();
    let calls = Cell::new(0);
    let fetched = std::cell::RefCell::new(vec![]);
    let fetch = serve_users(&pages, &calls, &fetched);
    let (found, count) = find_on_pages(&fetch, "mallory");
    assert!(found.is_none());
    assert_eq!(count, 3);
    assert_eq!(calls.get(), 3);
    assert_eq!(*fetched.borrow(), vec![1, 2, 3]);
}

#[test]
fn find_stops_on_failed_fetch() {
    let calls = Cell::new(0);
    let fetch = |page: u32| -> Option<Page<BUser>> {
        calls.set(calls.get() + 1);
        if page == 1 {
            Some(Page { data: vec![user(1, "alice")], total_pages: 5 })
        } else {
            None
        }
    };
    let (found, count) = find_on_pages(&fetch, "zed");
    assert!(found.is_none());
    assert_eq!(count, 2);
    assert_eq!(calls.get(), 2);
}

#[test]
fn find_in_empty_listing_fetches_one_page() {
    let calls = Cell::new(0);
    let fetch = |_page: u32| -> Option<Page<BUser>> {
        calls.set(calls.get() + 1);
        Some(Page { data: vec![], total_pages: 1 })
    };
    let (found, count) = find_on_pages(&fetch, "alice");
    assert!(found.is_none());
    assert_eq!(count, 1);
    assert_eq!(calls.get(), 1);
}

#[test]
fn user_lookup_by_name() {
    let pages = user_pages();
    let calls = Cell::new(0);
    let fetched = std::cell::RefCell::new(vec![]);
    let fetch = serve_users(&pages, &calls, &fetched);
    let found = Backend::get_user_by_name("erin", &fetch).expect("erin exists");
    assert_eq!(found.id, 5);
    assert_eq!(found.username, "erin");
    assert!(Backend::get_user_by_name("nobody", &fetch).is_none());
}

#[test]
fn node_and_server_lookup_by_name() {
    let nodes = |page: u32| -> Option<Page<BNode>> {
        match page {
            1 => Some(Page { data: vec![BNode { id: 7, name: "eu-1".to_string() }], total_pages: 2 }),
            2 => Some(Page { data: vec![BNode { id: 8, name: "us-1".to_string() }], total_pages: 2 }),
            _ => None,
        }
    };
    assert_eq!(Backend::get_node_by_name("us-1", &nodes).map(|n| n.id), Some(8));
    assert!(Backend::get_node_by_name("ap-1", &nodes).is_none());

    let servers = |_page: u32| -> Option<Page<BServer>> {
        Some(Page {
            data: vec![
                BServer { id: 11, name: "lobby".to_string() },
                BServer { id: 12, name: "lobby".to_string() },
            ],
            total_pages: 1,
        })
    };
    assert_eq!(Backend::get_server_by_name("lobby", &servers).map(|s| s.id), Some(11));
}
