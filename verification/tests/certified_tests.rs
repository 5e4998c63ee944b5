use reef_metrics_onchain::cbor::{build_certificate_header, encode_tree_cbor};
use reef_metrics_onchain::certified::{full_asset_tree, sync_certified_data, tree_digest, update_certified_data, witness, HashTree};
use reef_metrics_onchain::state::State;

use sha2::Digest;

#[test]
fn payload_hashes_are_sha256_of_the_bytes() {
    let (hashes, _) = update_certified_data("alpha", "beta", "gamma");
    assert_eq!(hashes.payload_hash, sha2::Sha256::digest(b"alpha").to_vec());
    assert_eq!(hashes.extrinsics_hash, sha2::Sha256::digest(b"beta").to_vec());
    assert_eq!(hashes.inflow_hash, sha2::Sha256::digest(b"gamma").to_vec());
}

#[test]
fn node_digests_match_the_certified_map_crate() {
    let leaf = HashTree::Leaf(b"value".to_vec());
    let ours = tree_digest(&leaf);
    let theirs = ic_certified_map::leaf_hash(b"value");
    assert_eq!(ours, theirs.to_vec());

    let left = HashTree::Leaf(b"l".to_vec());
    let right = HashTree::Leaf(b"r".to_vec());
    let fork = HashTree::Fork(Box::new(left), Box::new(right));
    let ours_fork = tree_digest(&fork);
    let theirs_fork = ic_certified_map::fork_hash(
        &ic_certified_map::leaf_hash(b"l"),
        &ic_certified_map::leaf_hash(b"r"),
    );
    assert_eq!(ours_fork, theirs_fork.to_vec());

    let labeled = HashTree::Labeled(b"tag".to_vec(), Box::new(HashTree::Leaf(b"value".to_vec())));
    let ours_labeled = tree_digest(&labeled);
    let theirs_labeled = ic_certified_map::labeled_hash(b"tag", &ic_certified_map::leaf_hash(b"value"));
    assert_eq!(ours_labeled, theirs_labeled.to_vec());
}

#[test]
fn registered_root_wraps_the_map_under_the_namespace_label() {
    let (hashes, labeled_root) = update_certified_data("a", "b", "c");
    let full = full_asset_tree(&hashes);
    let root = tree_digest(&full);
    let mut root32 = [0u8; 32];
    root32.copy_from_slice(&root);
    let expected = ic_certified_map::labeled_hash(b"http_assets", &root32);
    assert_eq!(labeled_root, expected.to_vec());
}

#[test]
fn witness_recomputes_the_registered_root_for_every_path() {
    let (hashes, _) = update_certified_data("alpha", "beta", "gamma");
    let full = full_asset_tree(&hashes);
    let root = tree_digest(&full);
    for path in ["/", "/active-wallets-daily.json", "/extrinsics-daily.json", "/new-wallets-inflow.json"] {
        let w = witness(&hashes, path).unwrap();
        assert_eq!(tree_digest(&w), root, "witness root mismatch for {path}");
    }
    assert!(witness(&hashes, "/other.json").is_none());
}

#[test]
fn witness_changes_when_a_payload_changes() {
    let (h1, r1) = update_certified_data("alpha", "beta", "gamma");
    let (_, r2) = update_certified_data("alpha2", "beta", "gamma");
    assert_ne!(r1, r2);
    let w = witness(&h1, "/extrinsics-daily.json").unwrap();
    assert_eq!(tree_digest(&w), tree_digest(&full_asset_tree(&h1)));
}

#[test]
fn cbor_encoding_matches_the_reference_serializer() {
    let ours = {
        let t = HashTree::Labeled(
            b"http_assets".to_vec(),
            Box::new(HashTree::Fork(
                Box::new(HashTree::Labeled(b"/x".to_vec(), Box::new(HashTree::Leaf(b"hash-bytes".to_vec())))),
                Box::new(HashTree::Pruned(b"0123456789abcdef0123456789abcdef".to_vec())),
            )),
        );
        encode_tree_cbor(&t)
    };
    let theirs = {
        let mut pruned = [0u8; 32];
        pruned.copy_from_slice(b"0123456789abcdef0123456789abcdef");
        let inner = ic_certified_map::fork(
            ic_certified_map::labeled(b"/x", ic_certified_map::HashTree::Leaf(std::borrow::Cow::Borrowed(b"hash-bytes"))),
            ic_certified_map::HashTree::Pruned(pruned),
        );
        let t = ic_certified_map::labeled(b"http_assets", inner);
        let mut serializer = serde_cbor::ser::Serializer::new(Vec::new());
        serializer.self_describe().unwrap();
        serde::Serialize::serialize(&t, &mut serializer).unwrap();
        serializer.into_inner()
    };
    assert_eq!(ours, theirs);
}

#[test]
fn certificate_header_carries_base64_certificate_and_witness() {
    let (hashes, _) = update_certified_data("alpha", "beta", "gamma");
    let header = build_certificate_header(&b"hello".to_vec(), &hashes, "/").unwrap();
    assert!(header.starts_with("certificate=:aGVsbG8=:, tree=:"));
    assert!(header.ends_with(":"));
    assert!(build_certificate_header(&b"hello".to_vec(), &hashes, "/nope").is_none());
}

#[test]
fn sync_recertifies_the_cached_payloads() {
    let state = State::new(vec![1]);
    let (hashes, labeled_root) = sync_certified_data(&state);
    let (expected_hashes, expected_root) = update_certified_data(
        state.payload.as_str(),
        state.extrinsics_payload.as_str(),
        state.inflow_payload.as_str(),
    );
    assert_eq!(hashes.payload_hash, expected_hashes.payload_hash);
    assert_eq!(labeled_root, expected_root);
}
