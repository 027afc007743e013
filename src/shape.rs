use vstd::prelude::*;
use crate::error::WalletError;

verus! {

/// Kind of an output descriptor, as told by its leading tag.
#[derive(Clone, Copy, Debug, PartialEq, Eq, Structural)]
pub enum DescriptorKind {
    /// A taproot single-key descriptor, `tr(...)`.
    Taproot,
    /// A raw taproot descriptor, `rawtr(...)`, which the node adds itself.
    RawTaproot,
    Other,
}

pub open spec fn taproot_tag() -> Seq<char> {
    seq!['t', 'r', '(']
}

pub open spec fn raw_taproot_tag() -> Seq<char> {
    seq!['r', 'a', 'w', 't', 'r', '(']
}

pub open spec fn has_prefix(s: Seq<char>, p: Seq<char>) -> bool {
    p.len() <= s.len() && s.subrange(0, p.len() as int) == p
}

pub open spec fn kind_of(s: Seq<char>) -> DescriptorKind {
    if has_prefix(s, taproot_tag()) {
        DescriptorKind::Taproot
    } else if has_prefix(s, raw_taproot_tag()) {
        DescriptorKind::RawTaproot
    } else {
        DescriptorKind::Other
    }
}

/// Number of descriptors of kind `k` among the first `n`.
pub open spec fn count_kind(ds: Seq<String>, k: DescriptorKind, n: int) -> int
    decreases n,
{
    if n <= 0 {
        0
    } else {
        count_kind(ds, k, n - 1) + if kind_of(ds[n - 1]@) == k {
            1int
        } else {
            0
        }
    }
}

/// Exactly two taproot descriptors, and nothing else but raw taproot ones.
pub open spec fn shape_ok(ds: Seq<String>) -> bool {
    count_kind(ds, DescriptorKind::Taproot, ds.len() as int) == 2 && ds.len() == 2 + count_kind(
        ds,
        DescriptorKind::RawTaproot,
        ds.len() as int,
    )
}

fn starts_with(s: &str, p: &str) -> (r: bool)
    ensures
        r == has_prefix(s@, p@),
{
    let n = s.unicode_len();
    let m = p.unicode_len();
    if m > n {
        return false;
    }
    let mut i: usize = 0;
    while i < m
        invariant
            i <= m <= n,
            n == s@.len(),
            m == p@.len(),
            s@.subrange(0, i as int) == p@.subrange(0, i as int),
        decreases m - i,
    {
        if s.get_char(i) != p.get_char(i) {
            assert(s@.subrange(0, m as int)[i as int] != p@[i as int]);
            return false;
        }
        assert(s@.subrange(0, i + 1) =~= s@.subrange(0, i as int).push(s@[i as int]));
        assert(p@.subrange(0, i + 1) =~= p@.subrange(0, i as int).push(p@[i as int]));
        i = i + 1;
    }
    assert(p@ =~= p@.subrange(0, m as int));
    true
}

/// Classifies a descriptor by its leading tag.
pub fn classify_descriptor(desc: &str) -> (r: DescriptorKind)
    ensures
        r == kind_of(desc@),
{
    proof {
        reveal_strlit("tr(");
        reveal_strlit("rawtr(");
        assert("tr("@ =~= taproot_tag());
        assert("rawtr("@ =~= raw_taproot_tag());
    }
    if starts_with(desc, "tr(") {
        DescriptorKind::Taproot
    } else if starts_with(desc, "rawtr(") {
        DescriptorKind::RawTaproot
    } else {
        DescriptorKind::Other
    }
}

/// Accepts the descriptors of wallet `wallet` only when they are the two
/// taproot descriptors this library creates, besides any raw taproot ones.
pub fn check_wallet_shape(wallet: &str, descriptors: &Vec<String>) -> (r: Result<(), WalletError>)
    ensures
        r is Ok <==> shape_ok(descriptors@),
        r matches Err(e) ==> (e matches WalletError::WalletShape { wallet: w } && w@ == wallet@),
{
    let mut tr: usize = 0;
    let mut rawtr: usize = 0;
    let mut i: usize = 0;
    while i < descriptors.len()
        invariant
            i <= descriptors@.len(),
            tr == count_kind(descriptors@, DescriptorKind::Taproot, i as int),
            rawtr == count_kind(descriptors@, DescriptorKind::RawTaproot, i as int),
            tr + rawtr <= i,
        decreases descriptors@.len() - i,
    {
        let kind = classify_descriptor(descriptors[i].as_str());
        match kind {
            DescriptorKind::Taproot => {
                tr = tr + 1;
            },
            DescriptorKind::RawTaproot => {
                rawtr = rawtr + 1;
            },
            DescriptorKind::Other => {},
        }
        i = i + 1;
    }
    if tr != 2 || descriptors.len() != 2 + rawtr {
        Err(WalletError::WalletShape { wallet: String::from_str(wallet) })
    } else {
        Ok(())
    }
}

} // verus!
