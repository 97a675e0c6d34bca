//! Accounting at the end of a session: loss and throughput.
use vstd::prelude::*;

verus! {

/// The figures a session ends with.
#[derive(Clone, Copy, Debug, PartialEq, Eq, Structural)]
pub struct Report {
    pub bytes_transmitted: u64,
    pub bytes_received: u64,
    /// From the first send of the measurement to the last, in nanoseconds.
    pub elapsed_nanos: u64,
}

/// Bytes lost on the way, or, where more arrived than was sent, the surplus.
#[derive(Clone, Copy, Debug, PartialEq, Eq, Structural)]
pub enum ByteLoss {
    Lost(u64),
    Surplus(u64),
}

pub const PARTS_PER_MILLION: u64 = 1_000_000;

pub const BITS_PER_BYTE: u64 = 8;

/// Loss as a fraction of what was sent, in millionths, rounded toward zero:
/// `1 - received / transmitted`, negative where more arrived than was sent.
pub open spec fn loss_ppm(transmitted: u64, received: u64) -> int
    recommends
        transmitted > 0,
{
    if received <= transmitted {
        (transmitted - received) * PARTS_PER_MILLION / (transmitted as int)
    } else {
        -((received - transmitted) * PARTS_PER_MILLION / (transmitted as int))
    }
}

/// Bits per second for `bytes` in `elapsed_nanos`, rounded down and capped at
/// the largest `u64`. In no time, nothing is zero and anything else is the cap.
pub open spec fn bits_per_second(bytes: u64, elapsed_nanos: u64) -> u64 {
    if elapsed_nanos == 0 {
        if bytes == 0 {
            0
        } else {
            u64::MAX
        }
    } else {
        let r = bytes * BITS_PER_BYTE * 1_000_000_000 / (elapsed_nanos as int);
        if r > u64::MAX {
            u64::MAX
        } else {
            r as u64
        }
    }
}

/// More bytes in the same time never give a lower bit rate.
pub proof fn lemma_bits_per_second_monotone(a: u64, b: u64, elapsed_nanos: u64)
    requires
        a <= b,
    ensures
        bits_per_second(a, elapsed_nanos) <= bits_per_second(b, elapsed_nanos),
{
    if elapsed_nanos > 0 {
        let e = elapsed_nanos as int;
        assert(a * BITS_PER_BYTE * 1_000_000_000 <= b * BITS_PER_BYTE * 1_000_000_000) by (nonlinear_arith)
            requires a <= b;
        vstd::arithmetic::div_mod::lemma_div_is_ordered(
            a * BITS_PER_BYTE * 1_000_000_000,
            b * BITS_PER_BYTE * 1_000_000_000,
            e,
        );
    }
}

/// Bytes sent in a time of at most eight seconds per byte give a bit rate
/// above zero.
pub proof fn lemma_bits_per_second_positive(bytes: u64, elapsed_nanos: u64)
    requires
        bytes > 0,
        elapsed_nanos <= bytes * BITS_PER_BYTE * 1_000_000_000,
    ensures
        bits_per_second(bytes, elapsed_nanos) > 0,
{
    if elapsed_nanos > 0 {
        let n = bytes * BITS_PER_BYTE * 1_000_000_000;
        vstd::arithmetic::div_mod::lemma_div_is_ordered(elapsed_nanos as int, n, elapsed_nanos as int);
        vstd::arithmetic::div_mod::lemma_div_by_self(elapsed_nanos as int);
    }
}

pub fn byte_loss(transmitted: u64, received: u64) -> (r: ByteLoss)
    ensures
        received <= transmitted ==> r == ByteLoss::Lost((transmitted - received) as u64),
        received > transmitted ==> r == ByteLoss::Surplus((received - transmitted) as u64),
{
    if transmitted >= received {
        ByteLoss::Lost(transmitted - received)
    } else {
        ByteLoss::Surplus(received - transmitted)
    }
}

/// The loss fraction in millionths; `None` where nothing was sent, for then
/// the fraction has no value.
pub fn loss_parts_per_million(transmitted: u64, received: u64) -> (r: Option<i128>)
    ensures
        transmitted == 0 <==> r is None,
        r matches Some(v) ==> v == loss_ppm(transmitted, received),
{
    if transmitted == 0 {
        return None;
    }
    let t = transmitted as u128;
    if received <= transmitted {
        let d = (transmitted - received) as u128;
        proof {
            assert(d * 1_000_000 <= u64::MAX * 1_000_000) by (nonlinear_arith)
                requires d <= u64::MAX;
            assert((d * 1_000_000) as int / (t as int) <= d * 1_000_000) by (nonlinear_arith)
                requires t >= 1, d * 1_000_000 >= 0;
        }
        Some((d * 1_000_000 / t) as i128)
    } else {
        let d = (received - transmitted) as u128;
        proof {
            assert(d * 1_000_000 <= u64::MAX * 1_000_000) by (nonlinear_arith)
                requires d <= u64::MAX;
            assert((d * 1_000_000) as int / (t as int) <= d * 1_000_000) by (nonlinear_arith)
                requires t >= 1, d * 1_000_000 >= 0;
        }
        Some(-((d * 1_000_000 / t) as i128))
    }
}

pub fn throughput_bits_per_second(bytes: u64, elapsed_nanos: u64) -> (r: u64)
    ensures
        r == bits_per_second(bytes, elapsed_nanos),
{
    if elapsed_nanos == 0 {
        if bytes == 0 {
            0
        } else {
            u64::MAX
        }
    } else {
        let b = bytes as u128;
        proof {
            assert(b * 8 * 1_000_000_000 <= u64::MAX * 8 * 1_000_000_000) by (nonlinear_arith)
                requires b <= u64::MAX;
        }
        let r = b * 8 * 1_000_000_000 / (elapsed_nanos as u128);
        if r > u64::MAX as u128 {
            u64::MAX
        } else {
            r as u64
        }
    }
}

impl Report {
    pub fn loss(&self) -> (r: ByteLoss)
        ensures
            r == byte_loss_spec(self.bytes_transmitted, self.bytes_received),
    {
        byte_loss(self.bytes_transmitted, self.bytes_received)
    }

    pub fn loss_parts_per_million(&self) -> (r: Option<i128>)
        ensures
            self.bytes_transmitted == 0 <==> r is None,
            r matches Some(v) ==> v == loss_ppm(self.bytes_transmitted, self.bytes_received),
    {
        loss_parts_per_million(self.bytes_transmitted, self.bytes_received)
    }

    /// Send-side throughput in bits per second.
    pub fn sending_bits_per_second(&self) -> (r: u64)
        ensures
            r == bits_per_second(self.bytes_transmitted, self.elapsed_nanos),
    {
        throughput_bits_per_second(self.bytes_transmitted, self.elapsed_nanos)
    }

    /// Receive-side throughput in bits per second.
    pub fn receiving_bits_per_second(&self) -> (r: u64)
        ensures
            r == bits_per_second(self.bytes_received, self.elapsed_nanos),
    {
        throughput_bits_per_second(self.bytes_received, self.elapsed_nanos)
    }
}

pub open spec fn byte_loss_spec(transmitted: u64, received: u64) -> ByteLoss {
    if received <= transmitted {
        ByteLoss::Lost((transmitted - received) as u64)
    } else {
        ByteLoss::Surplus((received - transmitted) as u64)
    }
}

/// The text that `bytesize::to_string` gives for a size.
pub uninterp spec fn byte_size_text(bytes: u64, si_prefix: bool) -> Seq<char>;

/// Relies on `bytesize::to_string`: the size as text, which always ends with
/// the unit's `B` ("B", "kB", "KiB", ...).
#[verifier::external_body]
fn size_text(bytes: u64, si_prefix: bool) -> (r: String)
    ensures
        r@ == byte_size_text(bytes, si_prefix),
        r@.len() > 0,
        r@.last() == 'B',
{
    bytesize::to_string(bytes, si_prefix)
}

/// Relies on `String::pop`: removes the last character of a non-empty string.
#[verifier::external_body]
fn pop_char(s: &mut String)
    requires
        old(s)@.len() > 0,
    ensures
        final(s)@ == old(s)@.drop_last(),
{
    s.pop();
}

/// Relies on `String::push_str`: appends `t` to `s`.
#[verifier::external_body]
fn push_text(s: &mut String, t: &str)
    ensures
        final(s)@ == old(s)@ + t@,
{
    s.push_str(t)
}

/// Turns a size text such as "8.0 MB" into a bit rate text such as
/// "8.0 Mbit/s": the trailing `B` gives way to `bit/s`.
pub fn bit_rate_text(size_text: String) -> (r: String)
    requires
        size_text@.len() > 0,
    ensures
        r@ == size_text@.drop_last() + "bit/s"@,
{
    let mut s = size_text;
    pop_char(&mut s);
    push_text(&mut s, "bit/s");
    s
}

/// A size text, with a leading minus sign where it stands for a surplus.
pub fn signed_size_text(size_text: String, surplus: bool) -> (r: String)
    ensures
        r@ == (if surplus {
            "-"@ + size_text@
        } else {
            size_text@
        }),
{
    if surplus {
        let mut s = String::new();
        push_text(&mut s, "-");
        push_text(&mut s, size_text.as_str());
        proof {
            assert(Seq::<char>::empty() + "-"@ =~= "-"@);
        }
        s
    } else {
        size_text
    }
}

/// Throughput of `bytes` in `elapsed_nanos` as text in bits per second, with
/// decimal prefixes ("1.2 Mbit/s").
pub fn format_throughput(elapsed_nanos: u64, bytes: u64) -> (r: String)
    ensures
        r@ == byte_size_text(bits_per_second(bytes, elapsed_nanos), false).drop_last() + "bit/s"@,
{
    let bps = throughput_bits_per_second(bytes, elapsed_nanos);
    bit_rate_text(size_text(bps, false))
}

/// The bytes lost as text with binary prefixes; a surplus is shown with a
/// leading minus sign.
pub fn format_loss(transmitted: u64, received: u64) -> (r: String)
    ensures
        received <= transmitted ==> r@ == byte_size_text((transmitted - received) as u64, true),
        received > transmitted ==> r@ == "-"@ + byte_size_text((received - transmitted) as u64, true),
{
    match byte_loss(transmitted, received) {
        ByteLoss::Lost(n) => signed_size_text(size_text(n, true), false),
        ByteLoss::Surplus(n) => signed_size_text(size_text(n, true), true),
    }
}

} // verus!
