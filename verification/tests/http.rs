//! The clients that the process shares.

use antigravity_upstream::http::{
    client_plan, get_client, get_long_standard_client, get_standard_client,
    invalidate_shared_clients, shared_client_keys, ClientKey, SharedClients,
};
use antigravity_upstream::proxy_url::UpstreamProxyConfig;

fn emulated_15_key() -> ClientKey {
    ClientKey::new(15, true)
}

/// Stands for an HTTP client: the key it was built for, and a serial number.
fn builder(serial: &std::cell::Cell<u32>) -> impl FnOnce(ClientKey) -> (ClientKey, u32) + '_ {
    move |key| {
        serial.set(serial.get() + 1);
        (key, serial.get())
    }
}

#[test]
fn shared_client_is_cached_until_invalidated() {
    let serial = std::cell::Cell::new(0);
    let mut shared: SharedClients<(ClientKey, u32)> = SharedClients::new();
    invalidate_shared_clients(&mut shared);

    let _ = get_client(&mut shared, builder(&serial));
    assert!(shared_client_keys(&shared).contains(&emulated_15_key()));

    // One key has one client, however often it is asked for.
    let _ = get_client(&mut shared, builder(&serial));
    let count = shared_client_keys(&shared)
        .iter()
        .filter(|k| **k == emulated_15_key())
        .count();
    assert_eq!(count, 1);
    assert_eq!(serial.get(), 1);
}

#[test]
fn invalidate_drops_clients_so_they_rebuild_with_current_proxy() {
    let serial = std::cell::Cell::new(0);
    let mut shared: SharedClients<(ClientKey, u32)> = SharedClients::new();

    let _ = get_client(&mut shared, builder(&serial));
    assert!(shared_client_keys(&shared).contains(&emulated_15_key()));

    invalidate_shared_clients(&mut shared);
    assert!(!shared_client_keys(&shared).contains(&emulated_15_key()));

    // Asked for again, it is built again.
    let _ = get_client(&mut shared, builder(&serial));
    assert!(shared_client_keys(&shared).contains(&emulated_15_key()));
    assert_eq!(serial.get(), 2);

    invalidate_shared_clients(&mut shared);
}

#[test]
fn each_kind_has_its_own_client() {
    let serial = std::cell::Cell::new(0);
    let mut shared: SharedClients<(ClientKey, u32)> = SharedClients::new();
    assert_eq!(*get_client(&mut shared, builder(&serial)), (ClientKey::new(15, true), 1));
    assert_eq!(*get_standard_client(&mut shared, builder(&serial)), (ClientKey::new(15, false), 2));
    assert_eq!(
        *get_long_standard_client(&mut shared, builder(&serial)),
        (ClientKey::new(60, false), 3)
    );
    // All three stay as they were built.
    assert_eq!(get_client(&mut shared, builder(&serial)).1, 1);
    assert_eq!(get_standard_client(&mut shared, builder(&serial)).1, 2);
    assert_eq!(get_long_standard_client(&mut shared, builder(&serial)).1, 3);
    assert_eq!(shared_client_keys(&shared).len(), 3);
    assert_eq!(invalidate_shared_clients(&mut shared), 3);
    assert_eq!(invalidate_shared_clients(&mut shared), 0);
    assert!(shared_client_keys(&shared).is_empty());
}

#[test]
fn clients_are_built_by_the_configuration() {
    let on = UpstreamProxyConfig { enabled: true, url: "127.0.0.1:7890".to_string() };
    let off = UpstreamProxyConfig { enabled: false, url: "127.0.0.1:7890".to_string() };
    let empty = UpstreamProxyConfig { enabled: true, url: String::new() };

    let plan = client_plan(ClientKey::new(15, true), Some(&on));
    assert!(plan.emulated);
    assert_eq!(plan.timeout_secs, 15);
    assert_eq!(plan.proxy, Some("127.0.0.1:7890"));
    assert_eq!(plan.label, "HTTP shared client");

    let plan = client_plan(ClientKey::new(60, false), Some(&off));
    assert!(!plan.emulated);
    assert_eq!(plan.timeout_secs, 60);
    assert_eq!(plan.proxy, None);
    assert_eq!(plan.label, "HTTP standard client");

    assert_eq!(client_plan(ClientKey::new(15, true), Some(&empty)).proxy, None);
    assert_eq!(client_plan(ClientKey::new(15, true), None).proxy, None);
}
