//! Tenant namespaces.

use rdmas::control::tenant::TenantNamespace;

#[test]
fn test_different_tenants_produce_different_hashes() {
    let t1 = TenantNamespace::new(1);
    let t2 = TenantNamespace::new(2);
    let key = b"test_key";
    assert_ne!(t1.hash_key(key), t2.hash_key(key));
}

#[test]
fn test_same_tenant_produces_same_hash() {
    let t1 = TenantNamespace::new(42);
    let t2 = TenantNamespace::new(42);
    let key = b"consistent";
    assert_eq!(t1.hash_key(key), t2.hash_key(key));
}

#[test]
fn test_hashed_key_contains_digest() {
    let tenant = TenantNamespace::new(100);
    let hk = tenant.hashed_key(b"hello");
    assert!(hk.hash > 0);
    // Digest should be non-zero
    assert!(hk.digest.iter().any(|&b| b != 0));
}
