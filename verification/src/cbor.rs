//! A byte-exact CBOR rendering of a hash tree, as a verifier's decoder reads
//! it: each node an array tagged by kind, labels and values as byte strings,
//! the whole message under the self-describing tag.
use vstd::prelude::*;

use vstd::string::{StrSliceExecFns, StringExecFns, StringSliceAdditionalSpecFns};

use crate::certified::{asset_root_digest, cert_label, cert_label_spec, digest, path_hash, tree_lookup, witness, AssetHashes, HashTree};
use crate::platform::{base64_encode, base64_of};

verus! {

/// The header introducing a byte string of `n` bytes.
pub open spec fn cbor_bytes_header(n: int) -> Seq<u8> {
    if n < 24 {
        seq![(0x40 + n) as u8]
    } else if n < 256 {
        seq![0x58u8, n as u8]
    } else if n < 65536 {
        seq![0x59u8, (n / 256) as u8, (n % 256) as u8]
    } else if n < 4294967296 {
        seq![
            0x5au8,
            (n / 16777216) as u8,
            ((n / 65536) % 256) as u8,
            ((n / 256) % 256) as u8,
            (n % 256) as u8,
        ]
    } else {
        seq![
            0x5bu8,
            ((n / 0x100000000000000) % 256) as u8,
            ((n / 0x1000000000000) % 256) as u8,
            ((n / 0x10000000000) % 256) as u8,
            ((n / 0x100000000) % 256) as u8,
            ((n / 16777216) % 256) as u8,
            ((n / 65536) % 256) as u8,
            ((n / 256) % 256) as u8,
            (n % 256) as u8,
        ]
    }
}

/// A byte string: its header, then its bytes.
pub open spec fn cbor_bytes(b: Seq<u8>) -> Seq<u8> {
    cbor_bytes_header(b.len() as int) + b
}

/// A tree node: an array of its kind tag and its parts.
pub open spec fn cbor_tree(t: HashTree) -> Seq<u8>
    decreases t,
{
    match t {
        HashTree::Empty => seq![0x81u8, 0x00u8],
        HashTree::Fork(l, r) => seq![0x83u8, 0x01u8] + cbor_tree(*l) + cbor_tree(*r),
        HashTree::Labeled(lab, sub) => seq![0x83u8, 0x02u8] + cbor_bytes(lab@) + cbor_tree(*sub),
        HashTree::Leaf(v) => seq![0x82u8, 0x03u8] + cbor_bytes(v@),
        HashTree::Pruned(h) => seq![0x82u8, 0x04u8] + cbor_bytes(h@),
    }
}

/// A whole message: the self-describing tag, then the tree.
pub open spec fn cbor_message(t: HashTree) -> Seq<u8> {
    seq![0xd9u8, 0xd9u8, 0xf7u8] + cbor_tree(t)
}

/// The message for a tree wrapped under a label.
pub open spec fn labeled_message(label: Seq<u8>, t: HashTree) -> Seq<u8> {
    seq![0xd9u8, 0xd9u8, 0xf7u8] + (seq![0x83u8, 0x02u8] + cbor_bytes(label) + cbor_tree(t))
}

/// Appends one byte string.
fn push_cbor_bytes(out: &mut Vec<u8>, b: &Vec<u8>)
    ensures
        final(out)@ == old(out)@ + cbor_bytes(b@),
{
    let n = b.len();
    if n < 24 {
        out.push(0x40 + n as u8);
    } else if n < 256 {
        out.push(0x58);
        out.push(n as u8);
    } else if n < 65536 {
        out.push(0x59);
        out.push((n / 256) as u8);
        out.push((n % 256) as u8);
    } else if (n as u64) < 4294967296 {
        out.push(0x5a);
        out.push(((n as u64) / 16777216) as u8);
        out.push((((n as u64) / 65536) % 256) as u8);
        out.push((((n as u64) / 256) % 256) as u8);
        out.push(((n as u64) % 256) as u8);
    } else {
        out.push(0x5b);
        out.push((((n as u64) / 0x100000000000000) % 256) as u8);
        out.push((((n as u64) / 0x1000000000000) % 256) as u8);
        out.push((((n as u64) / 0x10000000000) % 256) as u8);
        out.push((((n as u64) / 0x100000000) % 256) as u8);
        out.push((((n as u64) / 16777216) % 256) as u8);
        out.push((((n as u64) / 65536) % 256) as u8);
        out.push((((n as u64) / 256) % 256) as u8);
        out.push(((n as u64) % 256) as u8);
    }
    out.extend_from_slice(b.as_slice());
    proof {
        assert(out@ =~= old(out)@ + cbor_bytes(b@));
    }
}

/// Appends one tree node and its children.
fn push_cbor_tree(out: &mut Vec<u8>, t: &HashTree)
    ensures
        final(out)@ == old(out)@ + cbor_tree(*t),
    decreases *t,
{
    match t {
        HashTree::Empty => {
            out.push(0x81);
            out.push(0x00);
            proof {
                assert(out@ =~= old(out)@ + cbor_tree(*t));
            }
        },
        HashTree::Fork(l, r) => {
            out.push(0x83);
            out.push(0x01);
            push_cbor_tree(out, &**l);
            push_cbor_tree(out, &**r);
            proof {
                assert(out@ =~= old(out)@ + cbor_tree(*t));
            }
        },
        HashTree::Labeled(lab, sub) => {
            out.push(0x83);
            out.push(0x02);
            push_cbor_bytes(out, lab);
            push_cbor_tree(out, &**sub);
            proof {
                assert(out@ =~= old(out)@ + cbor_tree(*t));
            }
        },
        HashTree::Leaf(v) => {
            out.push(0x82);
            out.push(0x03);
            push_cbor_bytes(out, v);
            proof {
                assert(out@ =~= old(out)@ + cbor_tree(*t));
            }
        },
        HashTree::Pruned(h) => {
            out.push(0x82);
            out.push(0x04);
            push_cbor_bytes(out, h);
            proof {
                assert(out@ =~= old(out)@ + cbor_tree(*t));
            }
        },
    }
}

/// Serializes one tree as a self-describing message.
pub fn encode_tree_cbor(t: &HashTree) -> (r: Vec<u8>)
    ensures
        r@ == cbor_message(*t),
{
    let mut out: Vec<u8> = Vec::new();
    out.push(0xd9);
    out.push(0xd9);
    out.push(0xf7);
    push_cbor_tree(&mut out, t);
    proof {
        assert(out@ =~= cbor_message(*t));
    }
    out
}

/// The certification header value: the authority's certificate and the
/// labeled witness, each base64-encoded.
pub open spec fn certificate_header_spec(cert: Seq<u8>, tree_bytes: Seq<u8>) -> Seq<char> {
    "certificate=:"@ + base64_of(cert) + ":, tree=:"@ + base64_of(tree_bytes) + ":"@
}

/// Builds the certification header for one certified path: the witness it
/// carries recomputes the registered root digest and shows exactly the
/// path's recorded content hash.
pub fn build_certificate_header(certificate: &Vec<u8>, hashes: &AssetHashes, path: &str) -> (r: Option<String>)
    ensures
        r is Some <==> path_hash(*hashes, path@) is Some,
        r matches Some(s) ==> exists|w: HashTree|
            s@ == certificate_header_spec(certificate@, labeled_message(cert_label_spec(), w))
                && #[trigger] digest(w) == asset_root_digest(
                hashes.payload_hash@,
                hashes.extrinsics_hash@,
                hashes.inflow_hash@,
            ) && tree_lookup(w, path.spec_bytes()) == path_hash(*hashes, path@),
{
    let w = match witness(hashes, path) {
        Some(w) => w,
        None => return None,
    };
    let ghost gw = w;
    let labeled = HashTree::Labeled(cert_label(), Box::new(w));
    let tree_bytes = encode_tree_cbor(&labeled);
    proof {
        assert(tree_bytes@ =~= labeled_message(cert_label_spec(), gw));
    }
    let cert_b64 = base64_encode(certificate.as_slice());
    let tree_b64 = base64_encode(tree_bytes.as_slice());
    let mut s = String::from_str("certificate=:");
    s.append(cert_b64.as_str());
    s.append(":, tree=:");
    s.append(tree_b64.as_str());
    s.append(":");
    proof {
        assert(s@ =~= certificate_header_spec(certificate@, labeled_message(cert_label_spec(), gw)));
    }
    Some(s)
}

} // verus!
