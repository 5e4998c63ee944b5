//! The certified-publication pipeline: an authenticated map from asset path
//! to content hash, its root digest, per-path witnesses whose digest
//! recomputes that root, and the certification header served with an asset.
use vstd::prelude::*;

use vstd::string::{StrSliceExecFns, StringExecFns, StringSliceAdditionalSpecFns};

use crate::platform::{sha256, sha256_of};
use crate::state::{bytes_clone, State};

verus! {

/// A hash tree as an independent verifier reads it: labels over leaves,
/// forks joining subtrees, and pruned branches summarized by their digest.
pub enum HashTree {
    /// No children: a proof of absence.
    Empty,
    /// Two child branches.
    Fork(Box<HashTree>, Box<HashTree>),
    /// A labeled child.
    Labeled(Vec<u8>, Box<HashTree>),
    /// A stored value.
    Leaf(Vec<u8>),
    /// A branch removed from this view, summarized by its digest.
    Pruned(Vec<u8>),
}

/// The domain separator of one node kind: length byte, then the name.
pub open spec fn domain_sep(name: &str) -> Seq<u8> {
    seq![name.spec_bytes().len() as u8] + name.spec_bytes()
}

/// The digest of a tree, exactly as a verifier recomputes it.
pub open spec fn digest(t: HashTree) -> Seq<u8>
    decreases t,
{
    match t {
        HashTree::Empty => sha256_of(domain_sep("ic-hashtree-empty")),
        HashTree::Fork(l, r) => sha256_of(domain_sep("ic-hashtree-fork") + digest(*l) + digest(*r)),
        HashTree::Labeled(label, sub) => sha256_of(
            domain_sep("ic-hashtree-labeled") + label@ + digest(*sub),
        ),
        HashTree::Leaf(v) => sha256_of(domain_sep("ic-hashtree-leaf") + v@),
        HashTree::Pruned(h) => h@,
    }
}

/// The digest of a fork of two digests.
pub open spec fn fork_digest(l: Seq<u8>, r: Seq<u8>) -> Seq<u8> {
    sha256_of(domain_sep("ic-hashtree-fork") + l + r)
}

/// The digest of a label over a subtree digest.
pub open spec fn labeled_digest(label: Seq<u8>, sub: Seq<u8>) -> Seq<u8> {
    sha256_of(domain_sep("ic-hashtree-labeled") + label + sub)
}

/// The digest of a labeled leaf holding `h`.
pub open spec fn labeled_leaf_digest(label: Seq<u8>, h: Seq<u8>) -> Seq<u8> {
    labeled_digest(label, sha256_of(domain_sep("ic-hashtree-leaf") + h))
}

/// The value a tree records under a top-level label, if this view shows it.
pub open spec fn tree_lookup(t: HashTree, label: Seq<u8>) -> Option<Seq<u8>>
    decreases t,
{
    match t {
        HashTree::Fork(l, r) => match tree_lookup(*l, label) {
            Some(v) => Some(v),
            None => tree_lookup(*r, label),
        },
        HashTree::Labeled(lab, sub) => if lab@ == label {
            match *sub {
                HashTree::Leaf(v) => Some(v@),
                _ => None,
            }
        } else {
            None
        },
        _ => None,
    }
}

/// The namespace label the root is registered under.
pub open spec fn cert_label_spec() -> Seq<u8> {
    "http_assets".spec_bytes()
}

/// The four asset paths, in tree order.
pub open spec fn root_path() -> Seq<u8> {
    "/".spec_bytes()
}

/// Path of the active-wallets asset.
pub open spec fn active_path() -> Seq<u8> {
    "/active-wallets-daily.json".spec_bytes()
}

/// Path of the extrinsics asset.
pub open spec fn extrinsics_path() -> Seq<u8> {
    "/extrinsics-daily.json".spec_bytes()
}

/// Path of the inflow asset.
pub open spec fn inflow_path() -> Seq<u8> {
    "/new-wallets-inflow.json".spec_bytes()
}

/// The digest of the full asset map: the root path and the active-wallets
/// path carry the active payload's hash, the other two their own.
pub open spec fn asset_root_digest(ph: Seq<u8>, eh: Seq<u8>, ih: Seq<u8>) -> Seq<u8> {
    fork_digest(
        fork_digest(labeled_leaf_digest(root_path(), ph), labeled_leaf_digest(active_path(), ph)),
        fork_digest(
            labeled_leaf_digest(extrinsics_path(), eh),
            labeled_leaf_digest(inflow_path(), ih),
        ),
    )
}

/// The labeled root digest handed to the certification authority.
pub open spec fn certified_root_digest(ph: Seq<u8>, eh: Seq<u8>, ih: Seq<u8>) -> Seq<u8> {
    labeled_digest(cert_label_spec(), asset_root_digest(ph, eh, ih))
}

/// The content hashes of the three payloads.
pub struct AssetHashes {
    /// SHA-256 of the active-wallets payload.
    pub payload_hash: Vec<u8>,
    /// SHA-256 of the extrinsics payload.
    pub extrinsics_hash: Vec<u8>,
    /// SHA-256 of the inflow payload.
    pub inflow_hash: Vec<u8>,
}

impl AssetHashes {
    /// The hashes describe these three payloads.
    pub open spec fn of(self, p: Seq<char>, e: Seq<char>, i: Seq<char>) -> bool {
        &&& self.payload_hash@ == sha256_of(vstd::utf8::encode_utf8(p))
        &&& self.extrinsics_hash@ == sha256_of(vstd::utf8::encode_utf8(e))
        &&& self.inflow_hash@ == sha256_of(vstd::utf8::encode_utf8(i))
    }
}

/// The domain separator bytes of one node kind.
fn domain_buf(name: &str) -> (r: Vec<u8>)
    ensures
        r@ == domain_sep(name),
{
    let b = name.as_bytes();
    let mut out: Vec<u8> = Vec::new();
    out.push(b.len() as u8);
    out.extend_from_slice(b);
    proof {
        assert(out@ =~= domain_sep(name));
    }
    out
}

/// Recomputes the digest of a tree, as an independent verifier would.
pub fn tree_digest(t: &HashTree) -> (r: Vec<u8>)
    ensures
        r@ == digest(*t),
    decreases *t,
{
    match t {
        HashTree::Empty => {
            let buf = domain_buf("ic-hashtree-empty");
            sha256(buf.as_slice())
        },
        HashTree::Fork(l, r) => {
            let mut buf = domain_buf("ic-hashtree-fork");
            let dl = tree_digest(&**l);
            let dr = tree_digest(&**r);
            buf.extend_from_slice(dl.as_slice());
            buf.extend_from_slice(dr.as_slice());
            proof {
                assert(buf@ =~= domain_sep("ic-hashtree-fork") + digest(**l) + digest(**r));
            }
            sha256(buf.as_slice())
        },
        HashTree::Labeled(label, sub) => {
            let mut buf = domain_buf("ic-hashtree-labeled");
            buf.extend_from_slice(label.as_slice());
            let d = tree_digest(&**sub);
            buf.extend_from_slice(d.as_slice());
            proof {
                assert(buf@ =~= domain_sep("ic-hashtree-labeled") + label@ + digest(**sub));
            }
            sha256(buf.as_slice())
        },
        HashTree::Leaf(v) => {
            let mut buf = domain_buf("ic-hashtree-leaf");
            buf.extend_from_slice(v.as_slice());
            proof {
                assert(buf@ =~= domain_sep("ic-hashtree-leaf") + v@);
            }
            sha256(buf.as_slice())
        },
        HashTree::Pruned(h) => bytes_clone(h),
    }
}

/// A labeled leaf for one asset path.
fn labeled_leaf(path: &str, h: &Vec<u8>) -> (r: HashTree)
    ensures
        digest(r) == labeled_leaf_digest(path.spec_bytes(), h@),
        tree_lookup(r, path.spec_bytes()) == Some(h@),
{
    proof {
        reveal_with_fuel(digest, 3);
        reveal_with_fuel(tree_lookup, 3);
    }
    HashTree::Labeled(path.as_bytes_vec(), Box::new(HashTree::Leaf(bytes_clone(h))))
}

/// Hashes the three payloads and computes the labeled root digest that is
/// registered with the certification authority in the same mutation.
pub fn update_certified_data(payload: &str, extrinsics_payload: &str, inflow_payload: &str) -> (r: (
    AssetHashes,
    Vec<u8>,
))
    ensures
        r.0.of(payload@, extrinsics_payload@, inflow_payload@),
        r.1@ == certified_root_digest(
            sha256_of(vstd::utf8::encode_utf8(payload@)),
            sha256_of(vstd::utf8::encode_utf8(extrinsics_payload@)),
            sha256_of(vstd::utf8::encode_utf8(inflow_payload@)),
        ),
{
    let hashes = AssetHashes {
        payload_hash: sha256(payload.as_bytes()),
        extrinsics_hash: sha256(extrinsics_payload.as_bytes()),
        inflow_hash: sha256(inflow_payload.as_bytes()),
    };
    let full = full_asset_tree(&hashes);
    let root = tree_digest(&full);
    let labeled = HashTree::Labeled(cert_label(), Box::new(HashTree::Pruned(root)));
    let labeled_root = tree_digest(&labeled);
    proof {
        reveal_with_fuel(digest, 3);
    }
    (hashes, labeled_root)
}

/// Recertifies the three payloads cached in `state`.
pub fn sync_certified_data(state: &State) -> (r: (AssetHashes, Vec<u8>))
    ensures
        r.0.of(state.payload@, state.extrinsics_payload@, state.inflow_payload@),
        r.1@ == certified_root_digest(
            sha256_of(vstd::utf8::encode_utf8(state.payload@)),
            sha256_of(vstd::utf8::encode_utf8(state.extrinsics_payload@)),
            sha256_of(vstd::utf8::encode_utf8(state.inflow_payload@)),
        ),
{
    update_certified_data(
        state.payload.as_str(),
        state.extrinsics_payload.as_str(),
        state.inflow_payload.as_str(),
    )
}

/// The namespace label as bytes.
pub fn cert_label() -> (r: Vec<u8>)
    ensures
        r@ == cert_label_spec(),
{
    "http_assets".as_bytes_vec()
}

/// The full asset map as a tree.
pub fn full_asset_tree(hashes: &AssetHashes) -> (r: HashTree)
    ensures
        digest(r) == asset_root_digest(hashes.payload_hash@, hashes.extrinsics_hash@, hashes.inflow_hash@),
{
    let left = HashTree::Fork(
        Box::new(labeled_leaf("/", &hashes.payload_hash)),
        Box::new(labeled_leaf("/active-wallets-daily.json", &hashes.payload_hash)),
    );
    let right = HashTree::Fork(
        Box::new(labeled_leaf("/extrinsics-daily.json", &hashes.extrinsics_hash)),
        Box::new(labeled_leaf("/new-wallets-inflow.json", &hashes.inflow_hash)),
    );
    proof {
        reveal_with_fuel(digest, 3);
    }
    HashTree::Fork(Box::new(left), Box::new(right))
}

/// Every witness returned for a published path recomputes, under the
/// namespace label, exactly the labeled root digest that was registered with
/// the certification authority for the same three payloads — what a reader
/// of the served asset checks against the authority's certificate.
pub proof fn lemma_witness_recomputes_registered_root(w: HashTree, hashes: AssetHashes, p: Seq<char>, e: Seq<char>, i: Seq<char>)
    requires
        hashes.of(p, e, i),
        digest(w) == asset_root_digest(hashes.payload_hash@, hashes.extrinsics_hash@, hashes.inflow_hash@),
    ensures
        labeled_digest(cert_label_spec(), digest(w)) == certified_root_digest(
            sha256_of(vstd::utf8::encode_utf8(p)),
            sha256_of(vstd::utf8::encode_utf8(e)),
            sha256_of(vstd::utf8::encode_utf8(i)),
        ),
{
}

/// The hash recorded for a path, if the path is certified.
pub open spec fn path_hash(hashes: AssetHashes, path: Seq<char>) -> Option<Seq<u8>> {
    if path == "/"@ || path == "/active-wallets-daily.json"@ {
        Some(hashes.payload_hash@)
    } else if path == "/extrinsics-daily.json"@ {
        Some(hashes.extrinsics_hash@)
    } else if path == "/new-wallets-inflow.json"@ {
        Some(hashes.inflow_hash@)
    } else {
        None
    }
}

/// The minimal pruned view for one certified path: its digest recomputes the
/// full map's root digest, and it shows exactly the path's recorded hash.
pub fn witness(hashes: &AssetHashes, path: &str) -> (r: Option<HashTree>)
    ensures
        r is Some <==> path_hash(*hashes, path@) is Some,
        r matches Some(t) ==> digest(t) == asset_root_digest(
            hashes.payload_hash@,
            hashes.extrinsics_hash@,
            hashes.inflow_hash@,
        ) && tree_lookup(t, path.spec_bytes()) == path_hash(*hashes, path@),
{
    let l0 = labeled_leaf("/", &hashes.payload_hash);
    let l1 = labeled_leaf("/active-wallets-daily.json", &hashes.payload_hash);
    let l2 = labeled_leaf("/extrinsics-daily.json", &hashes.extrinsics_hash);
    let l3 = labeled_leaf("/new-wallets-inflow.json", &hashes.inflow_hash);
    let is0 = crate::order::str_eq(path, "/");
    let is1 = crate::order::str_eq(path, "/active-wallets-daily.json");
    let is2 = crate::order::str_eq(path, "/extrinsics-daily.json");
    let is3 = crate::order::str_eq(path, "/new-wallets-inflow.json");
    if !(is0 || is1 || is2 || is3) {
        return None;
    }
    let left: HashTree;
    let right: HashTree;
    if is0 || is1 {
        let fl = HashTree::Fork(Box::new(l2), Box::new(l3));
        let dr = tree_digest(&fl);
        right = HashTree::Pruned(dr);
        if is0 {
            let d1 = tree_digest(&l1);
            left = HashTree::Fork(Box::new(l0), Box::new(HashTree::Pruned(d1)));
        } else {
            let d0 = tree_digest(&l0);
            left = HashTree::Fork(Box::new(HashTree::Pruned(d0)), Box::new(l1));
        }
    } else {
        let fl = HashTree::Fork(Box::new(l0), Box::new(l1));
        let dl = tree_digest(&fl);
        left = HashTree::Pruned(dl);
        if is2 {
            let d3 = tree_digest(&l3);
            right = HashTree::Fork(Box::new(l2), Box::new(HashTree::Pruned(d3)));
        } else {
            let d2 = tree_digest(&l2);
            right = HashTree::Fork(Box::new(HashTree::Pruned(d2)), Box::new(l3));
        }
    }
    proof {
        reveal_with_fuel(digest, 3);
        reveal_with_fuel(tree_lookup, 3);
    }
    Some(HashTree::Fork(Box::new(left), Box::new(right)))
}

} // verus!
