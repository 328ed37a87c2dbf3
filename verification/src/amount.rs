use crate::hexcodec::ascii_to_string;
use vstd::prelude::*;

verus! {

/// ASCII decimal digits of `n`, most significant first, no leading zeros
/// (a single `'0'` for zero).
pub open spec fn dec_ascii(n: nat) -> Seq<u8>
    decreases n,
{
    if n < 10 {
        seq![(n + 48) as u8]
    } else {
        dec_ascii(n / 10) + seq![(n % 10 + 48) as u8]
    }
}

/// Exactly `width` ASCII decimal digits of `n`, zero-padded at the front.
pub open spec fn dec_ascii_padded(n: nat, width: nat) -> Seq<u8>
    decreases width,
{
    if width == 0 {
        Seq::empty()
    } else {
        dec_ascii_padded(n / 10, (width - 1) as nat) + seq![(n % 10 + 48) as u8]
    }
}

/// `s` with its trailing `'0'` bytes removed.
pub open spec fn trim_trailing_zeros(s: Seq<u8>) -> Seq<u8>
    decreases s.len(),
{
    if s.len() > 0 && s.last() == 48u8 {
        trim_trailing_zeros(s.drop_last())
    } else {
        s
    }
}

/// Ten to the `n`.
pub open spec fn pow10(n: nat) -> nat
    decreases n,
{
    if n == 0 {
        1
    } else {
        10 * pow10((n - 1) as nat)
    }
}

/// The display rendering of `sats` smallest units as ASCII text: the whole
/// units, a decimal point, then the fractional digits with trailing zeros
/// trimmed (a single `'0'` when the fraction is zero). The rendered value
/// equals `sats` divided by [`UNITS_PER_COIN`], at full precision.
pub open spec fn amount_ascii(sats: u64) -> Seq<u8> {
    let whole = sats as nat / (UNITS_PER_COIN as nat);
    let frac = sats as nat % (UNITS_PER_COIN as nat);
    if frac == 0 {
        dec_ascii(whole) + seq![46u8, 48u8]
    } else {
        dec_ascii(whole) + seq![46u8] + trim_trailing_zeros(dec_ascii_padded(frac, 8))
    }
}

/// The display rendering of `sats` as characters.
pub open spec fn amount_display(sats: u64) -> Seq<char> {
    amount_ascii(sats).map_values(|b: u8| b as char)
}

/// Appends the decimal digits of `n` to `out`, most significant first.
fn push_dec_ascii(n: u64, out: &mut Vec<u8>)
    ensures
        final(out)@ == old(out)@ + dec_ascii(n as nat),
        forall|i: int| old(out)@.len() <= i < final(out)@.len() ==> 48 <= #[trigger] final(out)@[i] <= 57,
    decreases n,
{
    if n < 10 {
        out.push((n as u8) + 48);
    } else {
        push_dec_ascii(n / 10, out);
        out.push(((n % 10) as u8) + 48);
        proof {
            assert(out@ =~= old(out)@ + dec_ascii(n as nat));
        }
    }
}

/// Appends exactly `width` decimal digits of `n` to `out`, zero-padded at the
/// front.
fn push_dec_ascii_padded(n: u64, width: u64, out: &mut Vec<u8>)
    ensures
        final(out)@ == old(out)@ + dec_ascii_padded(n as nat, width as nat),
        forall|i: int| old(out)@.len() <= i < final(out)@.len() ==> 48 <= #[trigger] final(out)@[i] <= 57,
    decreases width,
{
    if width == 0 {
        proof {
            assert(out@ =~= old(out)@ + dec_ascii_padded(n as nat, 0));
        }
    } else {
        push_dec_ascii_padded(n / 10, width - 1, out);
        out.push(((n % 10) as u8) + 48);
        proof {
            assert(out@ =~= old(out)@ + dec_ascii_padded(n as nat, width as nat));
        }
    }
}

/// How many of the smallest currency units make one whole display unit.
pub const UNITS_PER_COIN: u64 = 100_000_000;

/// An amount of currency, held as an unsigned 64-bit count of the smallest
/// currency unit. Amounts are never represented fractionally inside the
/// library; only the display rendering divides by [`UNITS_PER_COIN`].
#[derive(Clone, Copy, Debug, PartialEq, Eq, Structural)]
pub struct Amount {
    pub sats: u64,
}

impl Amount {
    /// The amount of `sats` smallest currency units.
    pub fn from_sat(sats: u64) -> (r: Amount)
        ensures
            r.sats == sats,
    {
        Amount { sats }
    }

    /// The count of smallest currency units this amount holds.
    pub fn to_sat(&self) -> (r: u64)
        ensures
            r == self.sats,
    {
        self.sats
    }

    /// Renders the amount in whole display units as exact decimal text:
    /// `100000000` smallest units render as `1.0`, zero as `0.0`. The display
    /// conversion is the only place the library divides by
    /// [`UNITS_PER_COIN`]; amounts themselves stay integral.
    pub fn display_value(&self) -> (r: String)
        ensures
            r@ == amount_display(self.sats),
    {
        let whole = self.sats / UNITS_PER_COIN;
        let frac = self.sats % UNITS_PER_COIN;
        let mut out: Vec<u8> = Vec::new();
        push_dec_ascii(whole, &mut out);
        out.push(46);
        if frac == 0 {
            out.push(48);
            proof {
                assert(out@ =~= amount_ascii(self.sats));
            }
        } else {
            let mut f = frac;
            let mut w: u64 = 8;
            proof {
                lemma_pow10_eight();
            }
            while f % 10 == 0
                invariant
                    1 <= w <= 8,
                    0 < f,
                    f < pow10(w as nat),
                    trim_trailing_zeros(dec_ascii_padded(f as nat, w as nat))
                        == trim_trailing_zeros(dec_ascii_padded(frac as nat, 8)),
                decreases w,
            {
                proof {
                    assert(f >= 10);
                    if w == 1 {
                        assert(pow10(1) == 10 * pow10(0));
                        assert(pow10(0) == 1);
                        assert(false);
                    }
                    assert(pow10(w as nat) == 10 * pow10((w - 1) as nat));
                    assert(f / 10 < pow10((w - 1) as nat));
                    let padded = dec_ascii_padded(f as nat, w as nat);
                    let shorter = dec_ascii_padded((f / 10) as nat, (w - 1) as nat);
                    assert(padded == shorter + seq![48u8]);
                    assert(padded.last() == 48u8);
                    assert(padded.drop_last() =~= shorter);
                    assert(trim_trailing_zeros(padded) == trim_trailing_zeros(shorter));
                }
                f = f / 10;
                w = w - 1;
            }
            proof {
                let padded = dec_ascii_padded(f as nat, w as nat);
                let shorter = dec_ascii_padded((f / 10) as nat, (w - 1) as nat);
                assert(padded == shorter + seq![(f % 10 + 48) as u8]);
                assert(padded.last() != 48u8);
                assert(trim_trailing_zeros(padded) == padded);
            }
            push_dec_ascii_padded(f, w, &mut out);
            proof {
                assert(out@ =~= amount_ascii(self.sats));
            }
        }
        proof {
            assert forall|i: int| 0 <= i < out@.len() implies out@[i] < 128 by {
                assert(out@[i] == amount_ascii(self.sats)[i]);
                lemma_amount_ascii_bounds(self.sats);
            }
        }
        let s = ascii_to_string(&out);
        proof {
            assert(s@ =~= amount_display(self.sats));
        }
        s
    }
}

/// Ten to the eighth is the unit scale.
proof fn lemma_pow10_eight()
    ensures
        pow10(8) == 100_000_000,
{
    assert(pow10(0) == 1);
    assert(pow10(1) == 10);
    assert(pow10(2) == 100);
    assert(pow10(3) == 1000);
    assert(pow10(4) == 10000);
    assert(pow10(5) == 100000);
    assert(pow10(6) == 1000000);
    assert(pow10(7) == 10000000);
    assert(pow10(8) == 100000000);
}

/// Every byte of a decimal rendering is an ASCII digit.
proof fn lemma_dec_ascii_bounds(n: nat)
    ensures
        forall|i: int| 0 <= i < dec_ascii(n).len() ==> 48 <= #[trigger] dec_ascii(n)[i] <= 57,
    decreases n,
{
    if n >= 10 {
        lemma_dec_ascii_bounds(n / 10);
        let a = dec_ascii(n / 10);
        assert(dec_ascii(n) == a + seq![(n % 10 + 48) as u8]);
        assert forall|i: int| 0 <= i < dec_ascii(n).len() implies 48 <= #[trigger] dec_ascii(
            n,
        )[i] <= 57 by {
            if i < a.len() {
                assert(dec_ascii(n)[i] == a[i]);
            } else {
                assert(dec_ascii(n)[i] == (n % 10 + 48) as u8);
            }
        }
    }
}

/// Every byte of a padded decimal rendering is an ASCII digit.
proof fn lemma_dec_ascii_padded_bounds(n: nat, width: nat)
    ensures
        forall|i: int|
            0 <= i < dec_ascii_padded(n, width).len() ==> 48 <= #[trigger] dec_ascii_padded(
                n,
                width,
            )[i] <= 57,
    decreases width,
{
    if width > 0 {
        lemma_dec_ascii_padded_bounds(n / 10, (width - 1) as nat);
        let a = dec_ascii_padded(n / 10, (width - 1) as nat);
        assert(dec_ascii_padded(n, width) == a + seq![(n % 10 + 48) as u8]);
        assert forall|i: int|
            0 <= i < dec_ascii_padded(n, width).len() implies 48 <= #[trigger] dec_ascii_padded(
            n,
            width,
        )[i] <= 57 by {
            if i < a.len() {
                assert(dec_ascii_padded(n, width)[i] == a[i]);
            } else {
                assert(dec_ascii_padded(n, width)[i] == (n % 10 + 48) as u8);
            }
        }
    }
}

/// Trimming keeps a prefix: every byte of the result is a byte of `s`.
proof fn lemma_trim_bounds(s: Seq<u8>)
    ensures
        trim_trailing_zeros(s).len() <= s.len(),
        forall|i: int|
            0 <= i < trim_trailing_zeros(s).len() ==> #[trigger] trim_trailing_zeros(s)[i] == s[i],
    decreases s.len(),
{
    if s.len() > 0 && s.last() == 48u8 {
        lemma_trim_bounds(s.drop_last());
    }
}

/// Every byte of an amount rendering is an ASCII digit or the decimal point.
proof fn lemma_amount_ascii_bounds(sats: u64)
    ensures
        forall|i: int|
            0 <= i < amount_ascii(sats).len() ==> 46 <= #[trigger] amount_ascii(sats)[i] <= 57,
{
    let whole = sats as nat / (UNITS_PER_COIN as nat);
    let frac = sats as nat % (UNITS_PER_COIN as nat);
    lemma_dec_ascii_bounds(whole);
    lemma_dec_ascii_padded_bounds(frac, 8);
    lemma_trim_bounds(dec_ascii_padded(frac, 8));
}

} // verus!
