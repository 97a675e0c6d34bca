//! Wire format: control bytes, data framing and the 8-byte count reply.
use vstd::arithmetic::div_mod::{lemma_fundamental_div_mod_converse_div, lemma_fundamental_div_mod_converse_mod, lemma_mod_breakdown};
use vstd::prelude::*;

verus! {

/// First byte of the control datagram that asks the receiver to zero its
/// counter and report it.
pub const RESET_REQUEST: u8 = 2;

/// First byte of the control datagram that asks the receiver to report its
/// counter without resetting it.
pub const FINISH_REQUEST: u8 = 1;

/// Length of a count reply.
pub const COUNT_REPLY_LEN: usize = 8;

/// What a datagram means to the receiver, decided by its first byte.
#[derive(Clone, Copy, Debug, PartialEq, Eq, Structural)]
pub enum Message {
    ResetRequest,
    FinishRequest,
    Data,
}

pub open spec fn message_kind(d: Seq<u8>) -> Message {
    if d.len() > 0 && d[0] == RESET_REQUEST {
        Message::ResetRequest
    } else if d.len() > 0 && d[0] == FINISH_REQUEST {
        Message::FinishRequest
    } else {
        Message::Data
    }
}

/// 256 to the power `n`.
pub open spec fn pow256(n: nat) -> nat
    decreases n,
{
    if n == 0 {
        1
    } else {
        256 * pow256((n - 1) as nat)
    }
}

/// The number that bytes stand for, least significant byte first.
pub open spec fn le_value(b: Seq<u8>) -> nat
    decreases b.len(),
{
    if b.len() == 0 {
        0
    } else {
        b[0] as nat + 256 * le_value(b.drop_first())
    }
}

/// The `n` low bytes of `v`, least significant first.
pub open spec fn le_bytes(v: nat, n: nat) -> Seq<u8>
    decreases n,
{
    if n == 0 {
        Seq::empty()
    } else {
        seq![(v % 256) as u8] + le_bytes(v / 256, (n - 1) as nat)
    }
}

/// The count reply that carries `v`.
pub open spec fn count_bytes(v: u64) -> Seq<u8> {
    le_bytes(v as nat, 8)
}

pub proof fn lemma_pow256_8()
    ensures
        pow256(8) == 0x1_0000_0000_0000_0000nat,
{
    reveal_with_fuel(pow256, 9);
}

pub proof fn lemma_pow256_monotone(m: nat, n: nat)
    requires
        m <= n,
    ensures
        0 < pow256(m) <= pow256(n),
    decreases n,
{
    if n > m {
        lemma_pow256_monotone(m, (n - 1) as nat);
    } else if n > 0 {
        lemma_pow256_monotone(0, (n - 1) as nat);
    }
}

pub proof fn lemma_le_value_bound(b: Seq<u8>)
    ensures
        le_value(b) < pow256(b.len()),
    decreases b.len(),
{
    if b.len() > 0 {
        lemma_le_value_bound(b.drop_first());
        let r = le_value(b.drop_first());
        let p = pow256((b.len() - 1) as nat);
        assert(b[0] as nat + 256 * r < 256 * p) by (nonlinear_arith)
            requires
                r < p,
                b[0] < 256,
        ;
    }
}

/// Reading back the `n` low bytes of `v` gives `v` modulo `256^n`.
pub proof fn lemma_le_value_of_bytes(v: nat, n: nat)
    ensures
        le_bytes(v, n).len() == n,
        le_value(le_bytes(v, n)) == v % pow256(n),
    decreases n,
{
    if n > 0 {
        let b = le_bytes(v, n);
        lemma_le_value_of_bytes(v / 256, (n - 1) as nat);
        assert(b.drop_first() =~= le_bytes(v / 256, (n - 1) as nat));
        lemma_pow256_monotone(0, (n - 1) as nat);
        lemma_mod_breakdown(v as int, 256, pow256((n - 1) as nat) as int);
    }
}

/// Writing out the value of `n` bytes gives the same bytes back.
pub proof fn lemma_le_bytes_of_value(b: Seq<u8>)
    ensures
        le_bytes(le_value(b), b.len()) == b,
    decreases b.len(),
{
    if b.len() > 0 {
        let r = le_value(b.drop_first());
        let v = le_value(b);
        lemma_le_bytes_of_value(b.drop_first());
        lemma_fundamental_div_mod_converse_mod(v as int, 256, r as int, b[0] as int);
        lemma_fundamental_div_mod_converse_div(v as int, 256, r as int, b[0] as int);
        assert(le_bytes(v, b.len()) =~= b);
    }
}

/// Decoding the count reply of `v` gives `v` back, for every `u64`.
pub proof fn lemma_count_round_trip(v: u64)
    ensures
        count_bytes(v).len() == COUNT_REPLY_LEN,
        le_value(count_bytes(v)) == v as nat,
{
    lemma_le_value_of_bytes(v as nat, 8);
    lemma_pow256_8();
}

/// Every 8-byte reply is the count reply of the value it decodes to.
pub proof fn lemma_count_bytes_unique(b: Seq<u8>)
    requires
        b.len() == COUNT_REPLY_LEN,
    ensures
        le_value(b) < 0x1_0000_0000_0000_0000nat,
        count_bytes(le_value(b) as u64) == b,
{
    lemma_le_value_bound(b);
    lemma_pow256_8();
    lemma_le_bytes_of_value(b);
}

/// Tells a control datagram from a data datagram by its first byte.
pub fn classify(d: &[u8]) -> (r: Message)
    ensures
        r == message_kind(d@),
{
    if d.len() > 0 && d[0] == RESET_REQUEST {
        Message::ResetRequest
    } else if d.len() > 0 && d[0] == FINISH_REQUEST {
        Message::FinishRequest
    } else {
        Message::Data
    }
}

/// The one-byte control datagram that carries `request`.
pub fn control_datagram(request: u8) -> (r: Vec<u8>)
    ensures
        r@ == seq![request],
{
    let mut r: Vec<u8> = Vec::new();
    r.push(request);
    r
}

/// Whether a send call that reports `sent` bytes transmitted a whole control
/// datagram; if not, the caller sends it again.
pub fn control_fully_sent(sent: usize) -> (r: bool)
    ensures
        r == (sent == 1),
{
    sent == 1
}

/// The 8 little-endian bytes of a count reply.
pub fn encode_count(v: u64) -> (r: Vec<u8>)
    ensures
        r@ == count_bytes(v),
        r@.len() == COUNT_REPLY_LEN,
{
    let mut r: Vec<u8> = Vec::new();
    let mut x: u64 = v;
    let mut i: usize = 0;
    while i < 8
        invariant
            i <= 8,
            r@ + le_bytes(x as nat, (8 - i) as nat) == count_bytes(v),
        decreases 8 - i,
    {
        let ghost before = r@;
        let ghost rest = le_bytes((x / 256) as nat, (8 - i - 1) as nat);
        assert(le_bytes(x as nat, (8 - i) as nat) == seq![(x % 256) as u8] + rest);
        r.push((x % 256) as u8);
        x = x / 256;
        i = i + 1;
        assert(before + (seq![r@.last()] + rest) =~= r@ + rest);
    }
    assert(r@ + le_bytes(x as nat, 0) =~= r@);
    proof {
        lemma_count_round_trip(v);
    }
    r
}

/// Reads a count reply; `None` when it is not exactly 8 bytes long.
pub fn decode_count(b: &[u8]) -> (r: Option<u64>)
    ensures
        r == (if b@.len() == COUNT_REPLY_LEN {
            Some(le_value(b@) as u64)
        } else {
            None
        }),
        r matches Some(v) ==> v as nat == le_value(b@) && count_bytes(v) == b@,
{
    if b.len() != COUNT_REPLY_LEN {
        return None;
    }
    let mut acc: u64 = 0;
    let mut i: usize = 8;
    while i > 0
        invariant
            b@.len() == 8,
            i <= 8,
            acc as nat == le_value(b@.subrange(i as int, 8)),
        decreases i,
    {
        let ghost tail = b@.subrange(i as int, 8);
        let ghost longer = b@.subrange(i - 1, 8);
        assert(longer.drop_first() =~= tail);
        proof {
            lemma_le_value_bound(longer);
            lemma_pow256_8();
            lemma_pow256_monotone(longer.len(), 8);
        }
        acc = acc * 256 + b[i - 1] as u64;
        i = i - 1;
    }
    assert(b@.subrange(0, 8) =~= b@);
    proof {
        lemma_count_bytes_unique(b@);
    }
    Some(acc)
}

} // verus!
