use vstd::prelude::*;
use crate::version::{decimal, push_decimal};

verus! {

/// A transaction output: the transaction id, in internal byte order, and the
/// index of the output within the transaction.
#[derive(Clone, Copy, Debug, PartialEq, Eq, Hash)]
pub struct OutPoint {
    pub txid: [u8; 32],
    pub vout: u32,
}

/// Lexicographic order on byte strings of equal length.
pub open spec fn bytes_lt(a: Seq<u8>, b: Seq<u8>) -> bool
    decreases a.len(),
{
    if a.len() == 0 || b.len() == 0 {
        false
    } else if a[0] != b[0] {
        a[0] < b[0]
    } else {
        bytes_lt(a.drop_first(), b.drop_first())
    }
}

/// Outpoints are ordered by transaction id, then by output index.
pub open spec fn outpoint_lt(a: OutPoint, b: OutPoint) -> bool {
    bytes_lt(a.txid@, b.txid@) || (a.txid@ == b.txid@ && a.vout < b.vout)
}

pub proof fn lemma_bytes_lt_irreflexive(a: Seq<u8>)
    ensures
        !bytes_lt(a, a),
    decreases a.len(),
{
    if a.len() > 0 {
        lemma_bytes_lt_irreflexive(a.drop_first());
    }
}

pub proof fn lemma_bytes_lt_transitive(a: Seq<u8>, b: Seq<u8>, c: Seq<u8>)
    requires
        bytes_lt(a, b),
        bytes_lt(b, c),
    ensures
        bytes_lt(a, c),
    decreases a.len(),
{
    if a[0] == b[0] && b[0] == c[0] {
        lemma_bytes_lt_transitive(a.drop_first(), b.drop_first(), c.drop_first());
    }
}

pub proof fn lemma_bytes_lt_total(a: Seq<u8>, b: Seq<u8>)
    requires
        a.len() == b.len(),
    ensures
        bytes_lt(a, b) || bytes_lt(b, a) || a == b,
    decreases a.len(),
{
    if a.len() == 0 {
        assert(a =~= b);
    } else if a[0] == b[0] {
        lemma_bytes_lt_total(a.drop_first(), b.drop_first());
        if a.drop_first() == b.drop_first() {
            assert(a =~= seq![a[0]] + a.drop_first());
            assert(b =~= seq![b[0]] + b.drop_first());
        }
    }
}

pub proof fn lemma_outpoint_lt_irreflexive(a: OutPoint)
    ensures
        !outpoint_lt(a, a),
{
    lemma_bytes_lt_irreflexive(a.txid@);
}

pub proof fn lemma_outpoint_lt_transitive(a: OutPoint, b: OutPoint, c: OutPoint)
    requires
        outpoint_lt(a, b),
        outpoint_lt(b, c),
    ensures
        outpoint_lt(a, c),
{
    if bytes_lt(a.txid@, b.txid@) && bytes_lt(b.txid@, c.txid@) {
        lemma_bytes_lt_transitive(a.txid@, b.txid@, c.txid@);
    }
}

pub proof fn lemma_outpoint_lt_total(a: OutPoint, b: OutPoint)
    ensures
        outpoint_lt(a, b) || outpoint_lt(b, a) || a == b,
{
    lemma_bytes_lt_total(a.txid@, b.txid@);
    if a.txid@ == b.txid@ && a.vout == b.vout {
        assert(a.txid =~= b.txid);
    }
}

/// Compares two outpoints: negative, zero or positive as `a` is below,
/// equal to or above `b`.
pub fn compare_outpoints(a: &OutPoint, b: &OutPoint) -> (r: i8)
    ensures
        r < 0 <==> outpoint_lt(*a, *b),
        r == 0 <==> *a == *b,
        r > 0 <==> outpoint_lt(*b, *a),
{
    proof {
        lemma_outpoint_lt_irreflexive(*a);
        lemma_outpoint_lt_total(*a, *b);
    }
    assert(a.txid@.skip(0) =~= a.txid@);
    assert(b.txid@.skip(0) =~= b.txid@);
    let mut i: usize = 0;
    while i < 32
        invariant
            i <= 32,
            a.txid@.subrange(0, i as int) == b.txid@.subrange(0, i as int),
            bytes_lt(a.txid@, b.txid@) == bytes_lt(a.txid@.skip(i as int), b.txid@.skip(i as int)),
            bytes_lt(b.txid@, a.txid@) == bytes_lt(b.txid@.skip(i as int), a.txid@.skip(i as int)),
        decreases 32 - i,
    {
        let x = a.txid[i];
        let y = b.txid[i];
        assert(a.txid@.skip(i as int).drop_first() =~= a.txid@.skip(i + 1));
        assert(b.txid@.skip(i as int).drop_first() =~= b.txid@.skip(i + 1));
        if x < y {
            proof {
                lemma_bytes_lt_total(a.txid@, b.txid@);
            }
            return -1;
        } else if x > y {
            return 1;
        }
        assert(a.txid@.subrange(0, i + 1) =~= a.txid@.subrange(0, i as int).push(x));
        assert(b.txid@.subrange(0, i + 1) =~= b.txid@.subrange(0, i as int).push(y));
        i = i + 1;
    }
    assert(a.txid@ =~= a.txid@.subrange(0, 32));
    assert(b.txid@ =~= b.txid@.subrange(0, 32));
    assert(a.txid =~= b.txid);
    if a.vout < b.vout {
        -1
    } else if a.vout > b.vout {
        1
    } else {
        0
    }
}

pub open spec fn hex_chars() -> Seq<char> {
    seq!['0', '1', '2', '3', '4', '5', '6', '7', '8', '9', 'a', 'b', 'c', 'd', 'e', 'f']
}

/// Two lower-case hex digits of a byte.
pub open spec fn hex_byte(b: u8) -> Seq<char> {
    seq![hex_chars()[(b / 16) as int], hex_chars()[(b % 16) as int]]
}

/// Hex of the bytes in reverse order, as transaction ids are displayed.
pub open spec fn reversed_hex(b: Seq<u8>) -> Seq<char>
    decreases b.len(),
{
    if b.len() == 0 {
        Seq::empty()
    } else {
        hex_byte(b.last()) + reversed_hex(b.drop_last())
    }
}

proof fn lemma_reversed_hex_prepend(x: u8, s: Seq<u8>)
    ensures
        reversed_hex(seq![x] + s) == reversed_hex(s) + hex_byte(x),
    decreases s.len(),
{
    if s.len() == 0 {
        assert(seq![x] + s =~= seq![x]);
        assert(seq![x].drop_last() =~= Seq::<u8>::empty());
        assert(reversed_hex(seq![x]) =~= hex_byte(x) + reversed_hex(Seq::<u8>::empty()));
        assert(reversed_hex(s) + hex_byte(x) =~= hex_byte(x));
    } else {
        lemma_reversed_hex_prepend(x, s.drop_last());
        assert((seq![x] + s).drop_last() =~= seq![x] + s.drop_last());
        assert((seq![x] + s).last() == s.last());
        assert(reversed_hex(seq![x] + s) =~= hex_byte(s.last()) + (reversed_hex(s.drop_last())
            + hex_byte(x)));
    }
}

/// `txid:vout`, the transaction id in display order.
pub open spec fn outpoint_text(o: OutPoint) -> Seq<char> {
    reversed_hex(o.txid@) + seq![':'] + decimal(o.vout as nat)
}

fn hex_str(d: u8) -> (r: &'static str)
    requires
        d < 16,
    ensures
        r@ == seq![hex_chars()[d as int]],
{
    proof {
        reveal_strlit("0");
        reveal_strlit("1");
        reveal_strlit("2");
        reveal_strlit("3");
        reveal_strlit("4");
        reveal_strlit("5");
        reveal_strlit("6");
        reveal_strlit("7");
        reveal_strlit("8");
        reveal_strlit("9");
        reveal_strlit("a");
        reveal_strlit("b");
        reveal_strlit("c");
        reveal_strlit("d");
        reveal_strlit("e");
        reveal_strlit("f");
    }
    match d {
        0 => "0",
        1 => "1",
        2 => "2",
        3 => "3",
        4 => "4",
        5 => "5",
        6 => "6",
        7 => "7",
        8 => "8",
        9 => "9",
        10 => "a",
        11 => "b",
        12 => "c",
        13 => "d",
        14 => "e",
        _ => "f",
    }
}

impl OutPoint {
    /// The outpoint as `txid:vout`.
    pub fn to_text(&self) -> (r: String)
        ensures
            r@ == outpoint_text(*self),
    {
        let mut out = String::new();
        let mut i: usize = 32;
        while i > 0
            invariant
                i <= 32,
                out@ == reversed_hex(self.txid@.subrange(i as int, 32)),
            decreases i,
        {
            let b = self.txid[i - 1];
            out.append(hex_str(b / 16));
            out.append(hex_str(b % 16));
            proof {
                let t = self.txid@.subrange(i as int, 32);
                lemma_reversed_hex_prepend(b, t);
                assert(seq![b] + t =~= self.txid@.subrange(i - 1, 32));
                assert(out@ =~= reversed_hex(t) + hex_byte(b));
            }
            i = i - 1;
        }
        proof {
            assert(self.txid@.subrange(0, 32) =~= self.txid@);
            reveal_strlit(":");
        }
        out.append(":");
        push_decimal(&mut out, self.vout as u64);
        out
    }
}

} // verus!
