use vstd::prelude::*;

verus! {

/// The transform that a row went through before compression.
#[derive(Clone, Copy, Debug, PartialEq, Eq, Structural)]
pub enum FilterType {
    NoFilter,
    Sub,
    Up,
    Average,
    Paeth,
}

impl FilterType {
    /// The filter that the byte at the head of a row stands for.
    pub open spec fn spec_from_byte(b: u8) -> Option<FilterType> {
        if b == 0 {
            Some(FilterType::NoFilter)
        } else if b == 1 {
            Some(FilterType::Sub)
        } else if b == 2 {
            Some(FilterType::Up)
        } else if b == 3 {
            Some(FilterType::Average)
        } else if b == 4 {
            Some(FilterType::Paeth)
        } else {
            None
        }
    }

    /// Decodes the byte at the head of a row.
    pub fn from_byte(b: u8) -> (r: Option<FilterType>)
        ensures
            r == Self::spec_from_byte(b),
    {
        if b == 0 {
            Some(FilterType::NoFilter)
        } else if b == 1 {
            Some(FilterType::Sub)
        } else if b == 2 {
            Some(FilterType::Up)
        } else if b == 3 {
            Some(FilterType::Average)
        } else if b == 4 {
            Some(FilterType::Paeth)
        } else {
            None
        }
    }
}

/// The distance between two integers.
pub open spec fn distance(x: int, y: int) -> int {
    if x >= y {
        x - y
    } else {
        y - x
    }
}

/// The Paeth predictor: of left, up and upper-left the one nearest to
/// `left + up - up_left`; on a tie left wins over up, and up over upper-left.
pub open spec fn spec_paeth(left: u8, up: u8, up_left: u8) -> u8 {
    let estimate = left as int + up as int - up_left as int;
    let by_left = distance(estimate, left as int);
    let by_up = distance(estimate, up as int);
    let by_up_left = distance(estimate, up_left as int);
    if by_left <= by_up && by_left <= by_up_left {
        left
    } else if by_up <= by_up_left {
        up
    } else {
        up_left
    }
}

/// What a filter predicts for a byte from its three neighbours.
pub open spec fn spec_predict(filter: FilterType, left: u8, up: u8, up_left: u8) -> u8 {
    match filter {
        FilterType::NoFilter => 0,
        FilterType::Sub => left,
        FilterType::Up => up,
        FilterType::Average => ((left as int + up as int) / 2) as u8,
        FilterType::Paeth => spec_paeth(left, up, up_left),
    }
}

/// Addition of bytes that wraps round at 256.
pub open spec fn spec_wrapping_sum(x: u8, y: u8) -> u8 {
    ((x as int + y as int) % 256) as u8
}

/// The byte of `row` at `i`, or zero where the row has no such byte.
pub open spec fn neighbour(row: Seq<u8>, i: int) -> u8 {
    if 0 <= i < row.len() {
        row[i]
    } else {
        0
    }
}

/// The raw bytes of a filtered row.
///
/// Byte `i` is the filtered byte plus the prediction from its neighbours: the
/// raw byte `bpp` places to the left in this row, the byte above it in `prev`,
/// the raw row before this one, and the byte `bpp` places to the left of that.
/// A neighbour that does not exist counts as zero, so a first row takes an
/// empty `prev`.
pub open spec fn spec_unfilter_row(
    filter: FilterType,
    row: Seq<u8>,
    prev: Seq<u8>,
    bpp: nat,
) -> Seq<u8>
    decreases row.len(),
{
    if row.len() == 0 {
        Seq::empty()
    } else {
        let done = spec_unfilter_row(filter, row.drop_last(), prev, bpp);
        let i = row.len() - 1;
        let left = if bpp == 0 {
            0
        } else {
            neighbour(done, i - bpp)
        };
        let up_left = if bpp == 0 {
            0
        } else {
            neighbour(prev, i - bpp)
        };
        let up = neighbour(prev, i);
        done.push(spec_wrapping_sum(row[i], spec_predict(filter, left, up, up_left)))
    }
}

/// Unfiltering keeps the length of the row.
pub proof fn lemma_unfilter_row_len(filter: FilterType, row: Seq<u8>, prev: Seq<u8>, bpp: nat)
    ensures
        spec_unfilter_row(filter, row, prev, bpp).len() == row.len(),
    decreases row.len(),
{
    if row.len() > 0 {
        lemma_unfilter_row_len(filter, row.drop_last(), prev, bpp);
    }
}

/// A row of filter type `NoFilter` is its own raw form, whatever stands above it.
pub proof fn lemma_unfilter_no_filter_is_identity(row: Seq<u8>, prev: Seq<u8>, bpp: nat)
    ensures
        spec_unfilter_row(FilterType::NoFilter, row, prev, bpp) == row,
    decreases row.len(),
{
    if row.len() > 0 {
        lemma_unfilter_no_filter_is_identity(row.drop_last(), prev, bpp);
        assert(row.drop_last().push(row.last()) =~= row);
    }
}

/// Unfiltering a raw row once more as a row of filter type `NoFilter` changes
/// nothing.
pub proof fn lemma_unfilter_again_is_identity(
    filter: FilterType,
    row: Seq<u8>,
    prev: Seq<u8>,
    bpp: nat,
)
    ensures
        ({
            let raw = spec_unfilter_row(filter, row, prev, bpp);
            spec_unfilter_row(FilterType::NoFilter, raw, prev, bpp) == raw
        }),
{
    lemma_unfilter_no_filter_is_identity(spec_unfilter_row(filter, row, prev, bpp), prev, bpp);
}

/// The Paeth predictor.
pub fn paeth(left: u8, up: u8, up_left: u8) -> (r: u8)
    ensures
        r == spec_paeth(left, up, up_left),
{
    let estimate: i16 = left as i16 + up as i16 - up_left as i16;
    let by_left: i16 = if estimate >= left as i16 {
        estimate - left as i16
    } else {
        left as i16 - estimate
    };
    let by_up: i16 = if estimate >= up as i16 {
        estimate - up as i16
    } else {
        up as i16 - estimate
    };
    let by_up_left: i16 = if estimate >= up_left as i16 {
        estimate - up_left as i16
    } else {
        up_left as i16 - estimate
    };
    if by_left <= by_up && by_left <= by_up_left {
        left
    } else if by_up <= by_up_left {
        up
    } else {
        up_left
    }
}

/// What a filter predicts for a byte from its three neighbours.
pub fn predict(filter: FilterType, left: u8, up: u8, up_left: u8) -> (r: u8)
    ensures
        r == spec_predict(filter, left, up, up_left),
{
    match filter {
        FilterType::NoFilter => 0,
        FilterType::Sub => left,
        FilterType::Up => up,
        FilterType::Average => ((left as u16 + up as u16) / 2) as u8,
        FilterType::Paeth => paeth(left, up, up_left),
    }
}

/// Reverses the filter of one row, given the raw row before it (empty for a
/// first row) and the number of bytes per pixel.
pub fn unfilter_row(filter: FilterType, row: &[u8], prev: &[u8], bpp: usize) -> (r: Vec<u8>)
    ensures
        r@ == spec_unfilter_row(filter, row@, prev@, bpp as nat),
        r@.len() == row@.len(),
{
    let mut out: Vec<u8> = Vec::new();
    let mut i: usize = 0;
    while i < row.len()
        invariant
            i <= row@.len(),
            out@.len() == i,
            out@ == spec_unfilter_row(filter, row@.take(i as int), prev@, bpp as nat),
        decreases row.len() - i,
    {
        let left = if bpp > 0 && i >= bpp {
            out[i - bpp]
        } else {
            0
        };
        let up = if i < prev.len() {
            prev[i]
        } else {
            0
        };
        let up_left = if bpp > 0 && i >= bpp && i - bpp < prev.len() {
            prev[i - bpp]
        } else {
            0
        };
        let sum = (row[i] as u16 + predict(filter, left, up, up_left) as u16) % 256;
        proof {
            assert(row@.take(i + 1).drop_last() =~= row@.take(i as int));
        }
        out.push(sum as u8);
        i += 1;
    }
    assert(row@.take(i as int) =~= row@);
    out
}

} // verus!
