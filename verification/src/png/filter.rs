//! Reversal of the per-scanline prediction filters.

use vstd::prelude::*;

verus! {

/// The prediction filter applied to one scanline.
#[derive(Debug, Clone, Copy, PartialEq, Eq, Structural)]
pub enum Filter {
    NoFilter,
    Sub,
    Up,
    Average,
    Paeth,
}

/// Addition of two bytes modulo 256.
pub open spec fn wrapping_sum(x: u8, y: u8) -> u8 {
    ((x as int + y as int) % 256) as u8
}

/// Adds two bytes modulo 256.
pub fn wrapping_add(x: u8, y: u8) -> (r: u8)
    ensures
        r == wrapping_sum(x, y),
{
    x.wrapping_add(y)
}

/// The Average predictor: the floor of the mean of the byte to the left and
/// the byte above.
pub open spec fn average_predictor(a: u8, b: u8) -> u8 {
    ((a as int + b as int) / 2) as u8
}

/// Absolute value of an integer.
pub open spec fn distance(x: int) -> int {
    if x < 0 {
        -x
    } else {
        x
    }
}

/// The Paeth predictor: whichever of left (`a`), above (`b`) and upper left
/// (`c`) is closest to `a + b - c`, preferring `a`, then `b`, then `c`.
pub open spec fn paeth_predictor(a: u8, b: u8, c: u8) -> u8 {
    let p = a as int + b as int - c as int;
    let pa = distance(p - a as int);
    let pb = distance(p - b as int);
    let pc = distance(p - c as int);
    if pa <= pb && pa <= pc {
        a
    } else if pb <= pc {
        b
    } else {
        c
    }
}

/// Computes the Paeth predictor.
pub fn paeth_predict(a: u8, b: u8, c: u8) -> (r: u8)
    ensures
        r == paeth_predictor(a, b, c),
{
    let p: i16 = a as i16 + b as i16 - c as i16;
    let da: i16 = p - a as i16;
    let db: i16 = p - b as i16;
    let dc: i16 = p - c as i16;
    let pa: i16 = if da < 0 { -da } else { da };
    let pb: i16 = if db < 0 { -db } else { db };
    let pc: i16 = if dc < 0 { -dc } else { dc };
    if pa <= pb && pa <= pc {
        a
    } else if pb <= pc {
        b
    } else {
        c
    }
}

/// What the filter adds to a raw byte, given the reconstructed byte to the
/// left (`a`), the one above (`b`) and the one to the upper left (`c`).
pub open spec fn predictor(filter: Filter, a: u8, b: u8, c: u8) -> u8 {
    match filter {
        Filter::NoFilter => 0u8,
        Filter::Sub => a,
        Filter::Up => b,
        Filter::Average => average_predictor(a, b),
        Filter::Paeth => paeth_predictor(a, b, c),
    }
}

/// The length of the whole groups of `bpp` bytes within `len` bytes.
#[verifier::opaque]
pub open spec fn whole_groups(len: nat, bpp: nat) -> nat {
    (len - len % bpp) as nat
}

/// The number of leading bytes of the current row that a filter rewrites.
///
/// Sub rewrites the whole pixel groups of the row. Up rewrites the bytes
/// that have a byte above them. Average and Paeth rewrite the whole pixel
/// groups that have a whole group above them. Later bytes stay as they are.
pub open spec fn filtered_len(filter: Filter, previous_len: nat, current_len: nat, bpp: nat) -> nat {
    match filter {
        Filter::NoFilter => 0,
        Filter::Sub => whole_groups(current_len, bpp),
        Filter::Up => if previous_len <= current_len {
            previous_len
        } else {
            current_len
        },
        Filter::Average | Filter::Paeth => if whole_groups(previous_len, bpp) <= whole_groups(
            current_len,
            bpp,
        ) {
            whole_groups(previous_len, bpp)
        } else {
            whole_groups(current_len, bpp)
        },
    }
}

/// The reconstructed byte at position `i` of a filtered row `current` that
/// lies below the reconstructed row `previous`.
pub open spec fn reconstructed(
    filter: Filter,
    previous: Seq<u8>,
    current: Seq<u8>,
    bpp: nat,
    i: int,
) -> u8
    decreases i,
{
    if i < 0 || i >= filtered_len(filter, previous.len(), current.len(), bpp) {
        current[i]
    } else {
        let a = if bpp > 0 && i >= bpp {
            reconstructed(filter, previous, current, bpp, i - bpp)
        } else {
            0u8
        };
        let b = if i < previous.len() {
            previous[i]
        } else {
            0u8
        };
        let c = if bpp > 0 && i >= bpp && i - bpp < previous.len() {
            previous[i - bpp]
        } else {
            0u8
        };
        wrapping_sum(current[i], predictor(filter, a, b, c))
    }
}

/// The row that reversing `filter` makes of the filtered row `current`.
pub open spec fn defiltered(filter: Filter, previous: Seq<u8>, current: Seq<u8>, bpp: nat) -> Seq<
    u8,
> {
    Seq::new(current.len(), |i: int| reconstructed(filter, previous, current, bpp, i))
}

/// Subtraction of two bytes modulo 256.
pub open spec fn wrapping_difference(x: u8, y: u8) -> u8 {
    ((x as int - y as int) % 256) as u8
}

/// The filtered form of the reconstructed row `row` that lies below the
/// reconstructed row `previous`: what an encoder stores for it. Each byte
/// that the filter covers loses what the filter predicts for it from the
/// reconstructed bytes around it.
pub open spec fn filtered(filter: Filter, previous: Seq<u8>, row: Seq<u8>, bpp: nat) -> Seq<u8> {
    Seq::new(
        row.len(),
        |i: int|
            if i >= filtered_len(filter, previous.len(), row.len(), bpp) {
                row[i]
            } else {
                wrapping_difference(
                    row[i],
                    predictor(
                        filter,
                        if bpp > 0 && i >= bpp {
                            row[i - bpp]
                        } else {
                            0u8
                        },
                        if i < previous.len() {
                            previous[i]
                        } else {
                            0u8
                        },
                        if bpp > 0 && i >= bpp && i - bpp < previous.len() {
                            previous[i - bpp]
                        } else {
                            0u8
                        },
                    ),
                )
            },
    )
}

/// Subtracting a byte undoes adding it, and adding it undoes subtracting it.
pub proof fn lemma_wrapping_sum_difference(x: u8, p: u8)
    ensures
        wrapping_difference(wrapping_sum(x, p), p) == x,
        wrapping_sum(wrapping_difference(x, p), p) == x,
{
}

/// Filtering a defiltered row gives back the filtered row it came from.
pub proof fn lemma_filter_after_defilter(
    filter: Filter,
    previous: Seq<u8>,
    current: Seq<u8>,
    bpp: nat,
)
    ensures
        filtered(filter, previous, defiltered(filter, previous, current, bpp), bpp) == current,
{
    let row = defiltered(filter, previous, current, bpp);
    assert forall|i: int| 0 <= i < current.len() implies filtered(filter, previous, row, bpp)[i]
        == current[i] by {
        if i < filtered_len(filter, previous.len(), current.len(), bpp) {
            let p = predictor(
                filter,
                if bpp > 0 && i >= bpp {
                    row[i - bpp]
                } else {
                    0u8
                },
                if i < previous.len() {
                    previous[i]
                } else {
                    0u8
                },
                if bpp > 0 && i >= bpp && i - bpp < previous.len() {
                    previous[i - bpp]
                } else {
                    0u8
                },
            );
            assert(row[i] == wrapping_sum(current[i], p));
            lemma_wrapping_sum_difference(current[i], p);
        }
    }
    assert(filtered(filter, previous, row, bpp) =~= current);
}

/// Defiltering the filtered form of a row reconstructs its byte at `i`.
pub proof fn lemma_reconstructed_of_filtered(
    filter: Filter,
    previous: Seq<u8>,
    row: Seq<u8>,
    bpp: nat,
    i: int,
)
    requires
        0 <= i < row.len(),
    ensures
        reconstructed(filter, previous, filtered(filter, previous, row, bpp), bpp, i) == row[i],
    decreases i,
{
    let stored = filtered(filter, previous, row, bpp);
    if i < filtered_len(filter, previous.len(), row.len(), bpp) {
        if bpp > 0 && i >= bpp {
            lemma_reconstructed_of_filtered(filter, previous, row, bpp, i - bpp);
        }
        let p = predictor(
            filter,
            if bpp > 0 && i >= bpp {
                row[i - bpp]
            } else {
                0u8
            },
            if i < previous.len() {
                previous[i]
            } else {
                0u8
            },
            if bpp > 0 && i >= bpp && i - bpp < previous.len() {
                previous[i - bpp]
            } else {
                0u8
            },
        );
        assert(stored[i] == wrapping_difference(row[i], p));
        lemma_wrapping_sum_difference(row[i], p);
    }
}

/// Defiltering the filtered form of a row gives back the row.
pub proof fn lemma_defilter_after_filter(filter: Filter, previous: Seq<u8>, row: Seq<u8>, bpp: nat)
    ensures
        defiltered(filter, previous, filtered(filter, previous, row, bpp), bpp) == row,
{
    let stored = filtered(filter, previous, row, bpp);
    assert forall|i: int| 0 <= i < row.len() implies reconstructed(
        filter,
        previous,
        stored,
        bpp,
        i,
    ) == row[i] by {
        lemma_reconstructed_of_filtered(filter, previous, row, bpp, i);
    }
    assert(defiltered(filter, previous, stored, bpp) =~= row);
}

/// A row of `len` zero bytes: what stands above the first row of an image.
pub open spec fn zero_row(len: nat) -> Seq<u8> {
    Seq::new(len, |i: int| 0u8)
}

/// More bytes hold at least as many whole groups.
pub proof fn lemma_whole_groups_monotonic(shorter: nat, longer: nat, bpp: nat)
    requires
        shorter <= longer,
        bpp > 0,
    ensures
        whole_groups(shorter, bpp) <= whole_groups(longer, bpp),
{
    reveal(whole_groups);
    vstd::arithmetic::div_mod::lemma_fundamental_div_mod(shorter as int, bpp as int);
    vstd::arithmetic::div_mod::lemma_fundamental_div_mod(longer as int, bpp as int);
    vstd::arithmetic::div_mod::lemma_div_is_ordered(shorter as int, longer as int, bpp as int);
    vstd::arithmetic::mul::lemma_mul_inequality(
        shorter as int / bpp as int,
        longer as int / bpp as int,
        bpp as int,
    );
    vstd::arithmetic::mul::lemma_mul_is_commutative(shorter as int / bpp as int, bpp as int);
    vstd::arithmetic::mul::lemma_mul_is_commutative(longer as int / bpp as int, bpp as int);
}

/// In a row of whole pixels that lies below a row at least as long, every
/// byte is the raw byte plus what the filter predicts from the
/// reconstructed bytes to its left, above it and to its upper left, each
/// taken as zero where the row or the image starts.
pub proof fn lemma_reconstructed_in_whole_row(
    filter: Filter,
    previous: Seq<u8>,
    current: Seq<u8>,
    bpp: nat,
    i: int,
)
    requires
        bpp > 0,
        current.len() % bpp == 0,
        current.len() <= previous.len(),
        0 <= i < current.len(),
    ensures
        reconstructed(filter, previous, current, bpp, i) == wrapping_sum(
            current[i],
            predictor(
                filter,
                if i >= bpp {
                    reconstructed(filter, previous, current, bpp, i - bpp)
                } else {
                    0u8
                },
                previous[i],
                if i >= bpp {
                    previous[i - bpp]
                } else {
                    0u8
                },
            ),
        ),
{
    reveal(whole_groups);
    lemma_whole_groups_monotonic(current.len(), previous.len(), bpp);
}

/// Below a row of zeros that is at least as long as the current row, the
/// reconstruction does not depend on how long the row of zeros is.
pub proof fn lemma_reconstructed_below_zeros(
    filter: Filter,
    m: nat,
    n: nat,
    current: Seq<u8>,
    bpp: nat,
    i: int,
)
    requires
        current.len() <= m,
        current.len() <= n,
        bpp > 0,
    ensures
        reconstructed(filter, zero_row(m), current, bpp, i) == reconstructed(
            filter,
            zero_row(n),
            current,
            bpp,
            i,
        ),
    decreases i,
{
    lemma_whole_groups_monotonic(current.len(), m, bpp);
    lemma_whole_groups_monotonic(current.len(), n, bpp);
    if 0 <= i < filtered_len(filter, m, current.len(), bpp) && i >= bpp {
        lemma_reconstructed_below_zeros(filter, m, n, current, bpp, i - bpp);
    }
}

/// Below a row of zeros that is at least as long as the current row, the
/// defiltered row does not depend on how long the row of zeros is.
pub proof fn lemma_defiltered_below_zeros(filter: Filter, m: nat, n: nat, current: Seq<u8>, bpp: nat)
    requires
        current.len() <= m,
        current.len() <= n,
        bpp > 0,
    ensures
        defiltered(filter, zero_row(m), current, bpp) == defiltered(
            filter,
            zero_row(n),
            current,
            bpp,
        ),
{
    assert forall|i: int| 0 <= i < current.len() implies reconstructed(
        filter,
        zero_row(m),
        current,
        bpp,
        i,
    ) == reconstructed(filter, zero_row(n), current, bpp, i) by {
        lemma_reconstructed_below_zeros(filter, m, n, current, bpp, i);
    }
    assert(defiltered(filter, zero_row(m), current, bpp) =~= defiltered(
        filter,
        zero_row(n),
        current,
        bpp,
    ));
}

/// Computes the length of the whole groups of `bpp` bytes within `len` bytes.
fn whole_groups_len(len: usize, bpp: usize) -> (r: usize)
    requires
        bpp > 0,
    ensures
        r == whole_groups(len as nat, bpp as nat),
        r <= len,
{
    proof {
        reveal(whole_groups);
        vstd::arithmetic::div_mod::lemma_mod_decreases(len as nat, bpp as nat);
    }
    len - len % bpp
}

/// Computes the number of leading bytes that `filter` rewrites.
fn rewritten_len(filter: Filter, previous_len: usize, current_len: usize, bpp: usize) -> (r: usize)
    requires
        (filter is Sub || filter is Average || filter is Paeth) ==> bpp > 0,
    ensures
        r == filtered_len(filter, previous_len as nat, current_len as nat, bpp as nat),
        r <= current_len,
{
    match filter {
        Filter::NoFilter => 0,
        Filter::Sub => whole_groups_len(current_len, bpp),
        Filter::Up => if previous_len <= current_len {
            previous_len
        } else {
            current_len
        },
        Filter::Average | Filter::Paeth => {
            let above: usize = whole_groups_len(previous_len, bpp);
            let below: usize = whole_groups_len(current_len, bpp);
            if above <= below {
                above
            } else {
                below
            }
        },
    }
}

/// Computes what `filter` adds to a raw byte.
fn predict(filter: Filter, a: u8, b: u8, c: u8) -> (r: u8)
    ensures
        r == predictor(filter, a, b, c),
{
    match filter {
        Filter::NoFilter => 0,
        Filter::Sub => a,
        Filter::Up => b,
        Filter::Average => ((a as u16 + b as u16) / 2) as u8,
        Filter::Paeth => paeth_predict(a, b, c),
    }
}

/// Reverses `filter` on the row `current` in place, in one pass from left
/// to right. `previous` is the reconstructed row above.
pub fn filter_scanline(
    filter: Filter,
    previous: &[u8],
    current: &mut Vec<u8>,
    bytes_per_pixel: usize,
)
    requires
        (filter is Sub || filter is Average || filter is Paeth) ==> bytes_per_pixel > 0,
    ensures
        final(current)@ == defiltered(filter, previous@, old(current)@, bytes_per_pixel as nat),
{
    let ghost raw = current@;
    let bpp = bytes_per_pixel;
    let end: usize = rewritten_len(filter, previous.len(), current.len(), bpp);
    let mut i: usize = 0;
    while i < end
        invariant
            i <= end <= raw.len(),
            end == filtered_len(filter, previous@.len(), raw.len(), bpp as nat),
            current@.len() == raw.len(),
            forall|j: int|
                0 <= j < i ==> current@[j] == #[trigger] reconstructed(
                    filter,
                    previous@,
                    raw,
                    bpp as nat,
                    j,
                ),
            forall|j: int| i <= j < raw.len() ==> current@[j] == #[trigger] raw[j],
        decreases end - i,
    {
        let a: u8 = if bpp > 0 && i >= bpp {
            current[i - bpp]
        } else {
            0
        };
        let b: u8 = if i < previous.len() {
            previous[i]
        } else {
            0
        };
        let c: u8 = if bpp > 0 && i >= bpp && i - bpp < previous.len() {
            previous[i - bpp]
        } else {
            0
        };
        let x: u8 = current[i];
        let y: u8 = wrapping_add(x, predict(filter, a, b, c));
        assert(bpp > 0 && i >= bpp ==> a == reconstructed(
            filter,
            previous@,
            raw,
            bpp as nat,
            i - bpp,
        ));
        assert(y == reconstructed(filter, previous@, raw, bpp as nat, i as int));
        current.set(i, y);
        i += 1;
    }
    assert(current@ =~= defiltered(filter, previous@, raw, bpp as nat));
}

/// Reverses the Sub filter in place: each byte of a whole pixel group gains
/// the reconstructed byte one pixel to its left.
pub fn sub_filter(current: &mut Vec<u8>, bytes_per_pixel: usize)
    requires
        bytes_per_pixel > 0,
    ensures
        final(current)@ == defiltered(
            Filter::Sub,
            Seq::<u8>::empty(),
            old(current)@,
            bytes_per_pixel as nat,
        ),
{
    let above: Vec<u8> = Vec::new();
    filter_scanline(Filter::Sub, above.as_slice(), current, bytes_per_pixel);
}

/// Reverses the Up filter in place: each byte gains the byte above it.
pub fn up_filter(previous: &[u8], current: &mut Vec<u8>)
    ensures
        final(current)@ == defiltered(Filter::Up, previous@, old(current)@, 1),
{
    filter_scanline(Filter::Up, previous, current, 1);
}

/// Reverses the Average filter in place: each byte gains the floor of the
/// mean of the reconstructed byte to its left and the byte above it.
pub fn average_filter(previous: &[u8], current: &mut Vec<u8>, bytes_per_pixel: usize)
    requires
        bytes_per_pixel > 0,
    ensures
        final(current)@ == defiltered(
            Filter::Average,
            previous@,
            old(current)@,
            bytes_per_pixel as nat,
        ),
{
    filter_scanline(Filter::Average, previous, current, bytes_per_pixel);
}

/// Reverses the Paeth filter in place: each byte gains the Paeth predictor
/// of the bytes to its left, above it and to its upper left.
pub fn paeth_filter(previous: &[u8], current: &mut Vec<u8>, bytes_per_pixel: usize)
    requires
        bytes_per_pixel > 0,
    ensures
        final(current)@ == defiltered(
            Filter::Paeth,
            previous@,
            old(current)@,
            bytes_per_pixel as nat,
        ),
{
    filter_scanline(Filter::Paeth, previous, current, bytes_per_pixel);
}

} // verus!
