use std::cell::Cell;

use provision_core::allocation::{is_used, Address, BAllocation, BCAllocation};
use provision_core::backend::Backend;
use provision_core::pages::Page;

fn entry(id: u32, ip: &str, port: u16, assigned: bool) -> BAllocation {
    BAllocation { id, ip: ip.to_string(), port, assigned }
}

#[test]
fn resolver_skips_assigned_allocation() {
    let calls = Cell::new(0);
    let fetch = |page: u32| -> Option<Page<BAllocation>> {
        calls.set(calls.get() + 1);
        if page != 1 {
            return None;
        }
        Some(Page {
            data: vec![entry(1, "10.0.0.1", 100, false), entry(2, "10.0.0.1", 101, true)],
            total_pages: 1,
        })
    };
    let free = Backend::get_free_allocations(&[], 2, &fetch);
    assert_eq!(free.len(), 1);
    assert_eq!(free[0].id, 1);
    assert_eq!(free[0].ip, "10.0.0.1");
    assert_eq!(free[0].port, 100);
    assert_eq!(calls.get(), 1);
}

fn three_pages(calls: &Cell<u32>) -> impl Fn(u32) -> Option<Page<BAllocation>> + '_ {
    move |page: u32| {
        calls.set(calls.get() + 1);
        let data = match page {
            1 => vec![entry(1, "10.0.0.1", 100, true), entry(2, "10.0.0.1", 101, false)],
            2 => vec![entry(3, "10.0.0.1", 102, false), entry(4, "10.0.0.2", 100, false)],
            3 => vec![entry(5, "10.0.0.2", 101, false)],
            _ => return None,
        };
        Some(Page { data, total_pages: 3 })
    }
}

#[test]
fn resolver_stops_fetching_once_enough_found() {
    let calls = Cell::new(0);
    let fetch = three_pages(&calls);
    let free = Backend::get_free_allocations(&[], 2, &fetch);
    assert_eq!(free.iter().map(|a| a.id).collect::<Vec<_>>(), vec![2, 3]);
    assert_eq!(calls.get(), 2);
}

#[test]
fn resolver_excludes_used_endpoints() {
    let calls = Cell::new(0);
    let fetch = three_pages(&calls);
    let used = vec![entry(90, "10.0.0.1", 102, true), entry(91, "10.0.0.2", 100, true)];
    let free = Backend::get_free_allocations(&used, 5, &fetch);
    assert_eq!(free.iter().map(|a| a.id).collect::<Vec<_>>(), vec![2, 5]);
    for a in &free {
        assert!(!a.assigned);
        assert!(!used.iter().any(|u| u.ip == a.ip && u.port == a.port));
    }
    assert_eq!(calls.get(), 3);
}

#[test]
fn resolver_returns_partial_set_when_pages_run_out() {
    let calls = Cell::new(0);
    let fetch = three_pages(&calls);
    let free = Backend::get_free_allocations(&[], 10, &fetch);
    assert_eq!(free.iter().map(|a| a.id).collect::<Vec<_>>(), vec![2, 3, 4, 5]);
    assert_eq!(calls.get(), 3);
}

#[test]
fn resolver_with_zero_amount_fetches_nothing() {
    let calls = Cell::new(0);
    let fetch = three_pages(&calls);
    let free = Backend::get_free_allocations(&[], 0, &fetch);
    assert!(free.is_empty());
    assert_eq!(calls.get(), 0);
}

#[test]
fn resolver_stops_on_failed_fetch() {
    let fetch = |_page: u32| -> Option<Page<BAllocation>> { None };
    assert!(Backend::get_free_allocations(&[], 3, &fetch).is_empty());
}

#[test]
fn used_matches_on_ip_and_port() {
    let used = vec![entry(1, "10.0.0.1", 100, false)];
    assert!(is_used(&used, &entry(9, "10.0.0.1", 100, false)));
    assert!(!is_used(&used, &entry(9, "10.0.0.1", 101, false)));
    assert!(!is_used(&used, &entry(9, "10.0.0.2", 100, false)));
    assert!(!is_used(&[], &entry(9, "10.0.0.2", 100, false)));
}

#[test]
fn address_keeps_ip_and_port() {
    let raw = BCAllocation { id: 4, ip: "192.168.1.20".to_string(), port: 25565, is_default: true };
    let address = Address::from(raw);
    assert_eq!(address.ip, "192.168.1.20");
    assert_eq!(address.port, 25565);
}

#[test]
fn duplicate_keeps_every_field() {
    let a = entry(3, "10.1.1.1", 7, true);
    let b = a.duplicate();
    assert_eq!((b.id, b.ip.as_str(), b.port, b.assigned), (3, "10.1.1.1", 7, true));
}
