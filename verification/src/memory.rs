//! Memory samples: reading one from the operating system's accounting of
//! the process, and keeping the peak of a series of them.

use vstd::prelude::*;

verus! {

/// The larger of two measurements, where a missing one counts for nothing.
pub open spec fn larger(a: Option<usize>, b: Option<usize>) -> Option<usize> {
    match (a, b) {
        (Some(x), Some(y)) => if x >= y {
            Some(x)
        } else {
            Some(y)
        },
        (Some(_), None) => a,
        (None, _) => b,
    }
}

/// The largest measurement among `samples`; `None` where none of them is
/// a measurement.
pub open spec fn peak_of(samples: Seq<Option<usize>>) -> Option<usize>
    decreases samples.len(),
{
    if samples.len() == 0 {
        None
    } else {
        larger(peak_of(samples.drop_last()), samples.last())
    }
}

/// The peak is one of the samples and no sample is above it; it is missing
/// exactly when every sample is.
pub proof fn lemma_peak_is_maximum(samples: Seq<Option<usize>>)
    ensures
        match peak_of(samples) {
            Some(peak) => samples.contains(Some(peak)) && forall|i: int|
                0 <= i < samples.len() && samples[i] is Some ==> (#[trigger] samples[i])->0 <= peak,
            None => forall|i: int| 0 <= i < samples.len() ==> #[trigger] samples[i] is None,
        },
    decreases samples.len(),
{
    if samples.len() > 0 {
        let front = samples.drop_last();
        lemma_peak_is_maximum(front);
        match peak_of(samples) {
            Some(peak) => {
                if samples.last() == Some(peak) {
                    assert(samples[samples.len() - 1] == Some(peak));
                } else {
                    let at = choose|i: int| 0 <= i < front.len() && front[i] == Some(peak);
                    assert(samples[at] == Some(peak));
                }
                assert forall|i: int| 0 <= i < samples.len() && samples[i] is Some implies (
                #[trigger] samples[i])->0 <= peak by {
                    if i < front.len() {
                        assert(front[i] == samples[i]);
                    }
                }
            },
            None => {
                assert forall|i: int| 0 <= i < samples.len() implies #[trigger] samples[i] is None by {
                    if i < front.len() {
                        assert(front[i] == samples[i]);
                    }
                }
            },
        }
    }
}

/// The state of a memory sampler between its start and its stop: it is
/// shown one sample after another and keeps their peak. A sample is the
/// footprint in bytes, or `None` where the platform gave no reading.
///
/// Its view is the samples shown so far, in order.
pub struct PeakMemory {
    peak: Option<usize>,
    samples: Ghost<Seq<Option<usize>>>,
}

impl View for PeakMemory {
    type V = Seq<Option<usize>>;

    closed spec fn view(&self) -> Seq<Option<usize>> {
        self.samples@
    }
}

impl PeakMemory {
    #[verifier::type_invariant]
    spec fn well_formed(self) -> bool {
        self.peak == peak_of(self.samples@)
    }

    /// A sampler that has seen no sample yet.
    pub fn new() -> (sampler: PeakMemory)
        ensures
            sampler@ == Seq::<Option<usize>>::empty(),
    {
        PeakMemory { peak: None, samples: Ghost(Seq::empty()) }
    }

    /// Takes note of one more sample.
    pub fn observe(&mut self, sample: Option<usize>)
        ensures
            final(self)@ == old(self)@.push(sample),
    {
        proof {
            use_type_invariant(&*self);
            assert(self.samples@.push(sample).drop_last() =~= self.samples@);
        }
        let peak = match (self.peak, sample) {
            (Some(x), Some(y)) => if x >= y {
                Some(x)
            } else {
                Some(y)
            },
            (Some(x), None) => Some(x),
            (None, s) => s,
        };
        let ghost samples = self.samples@.push(sample);
        *self = PeakMemory { peak, samples: Ghost(samples) };
    }

    /// The largest measurement among the samples seen, or `None` where no
    /// sample was a measurement.
    pub fn peak(&self) -> (peak: Option<usize>)
        ensures
            peak == peak_of(self@),
    {
        proof {
            use_type_invariant(self);
        }
        self.peak
    }
}

/// Whether `byte` ends a field of an accounting line: it is a space or a
/// line feed.
pub open spec fn ends_field(byte: u8) -> bool {
    byte == 0x20 || byte == 0x0a
}

/// Where the field that begins at `from` ends: the place of the first byte
/// at or behind `from` that ends a field, or the end of the line.
pub open spec fn field_end(line: Seq<u8>, from: int) -> int
    decreases line.len() - from,
{
    if from < 0 || from >= line.len() || ends_field(line[from]) {
        from
    } else {
        field_end(line, from + 1)
    }
}

/// The second field of a line whose fields are parted by single spaces,
/// if the line has one.
pub open spec fn second_field(line: Seq<u8>) -> Option<Seq<u8>> {
    let first_end = field_end(line, 0);
    if first_end < line.len() && line[first_end] == 0x20 {
        Some(line.subrange(first_end + 1, field_end(line, first_end + 1)))
    } else {
        None
    }
}

/// Whether `digits` are decimal digits, at least one.
pub open spec fn is_decimal(digits: Seq<u8>) -> bool {
    digits.len() > 0 && forall|i: int| 0 <= i < digits.len() ==> 0x30 <= #[trigger] digits[i] <= 0x39
}

/// The number that decimal digits spell.
pub open spec fn decimal(digits: Seq<u8>) -> nat
    decreases digits.len(),
{
    if digits.len() == 0 {
        0
    } else {
        decimal(digits.drop_last()) * 10 + (digits.last() - 0x30) as nat
    }
}

/// The resident memory in bytes that a line of the process's memory
/// accounting reports, for pages of `page_size` bytes: the second field of
/// the line is the number of resident pages in decimal digits. `None`
/// where the line has no such field, where there is no page size, or
/// where the number of bytes is more than a byte count can hold.
pub open spec fn resident_bytes(line: Seq<u8>, page_size: usize) -> Option<usize> {
    match second_field(line) {
        Some(field) => if page_size > 0 && is_decimal(field) && decimal(field) * page_size <= usize::MAX {
            Some((decimal(field) * page_size) as usize)
        } else {
            None
        },
        None => None,
    }
}

/// A field ends at or behind its beginning, within the line, and no byte
/// before its end ends a field.
proof fn lemma_field_end(line: Seq<u8>, from: int)
    requires
        0 <= from <= line.len(),
    ensures
        from <= field_end(line, from) <= line.len(),
        forall|i: int| from <= i < field_end(line, from) ==> !ends_field(#[trigger] line[i]),
        field_end(line, from) < line.len() ==> ends_field(line[field_end(line, from)]),
    decreases line.len() - from,
{
    if from < line.len() && !ends_field(line[from]) {
        lemma_field_end(line, from + 1);
    }
}

/// The digits at the front of decimal digits spell no larger a number.
proof fn lemma_decimal_front(digits: Seq<u8>, len: int)
    requires
        forall|i: int| 0 <= i < digits.len() ==> 0x30 <= #[trigger] digits[i] <= 0x39,
        0 <= len <= digits.len(),
    ensures
        decimal(digits.take(len)) <= decimal(digits),
    decreases digits.len(),
{
    if len < digits.len() {
        let front = digits.drop_last();
        lemma_decimal_front(front, len);
        assert(front.take(len) =~= digits.take(len));
    } else {
        assert(digits.take(len) =~= digits);
    }
}

/// Reads the resident memory in bytes from a line of the process's memory
/// accounting, for pages of `page_size` bytes.
pub fn read_resident_bytes(line: &[u8], page_size: usize) -> (bytes: Option<usize>)
    ensures
        bytes == resident_bytes(line@, page_size),
{
    let n = line.len();
    let mut first_end: usize = 0;
    while first_end < n && line[first_end] != 0x20 && line[first_end] != 0x0a
        invariant
            first_end <= n,
            n == line@.len(),
            field_end(line@, 0) == field_end(line@, first_end as int),
        decreases n - first_end,
    {
        first_end += 1;
    }
    if first_end >= n || line[first_end] != 0x20 || page_size == 0 {
        return None;
    }
    let start = first_end + 1;
    let ghost field = line@.subrange(start as int, field_end(line@, start as int));
    proof {
        lemma_field_end(line@, start as int);
    }
    let mut end = start;
    let mut pages: usize = 0;
    while end < n && line[end] != 0x20 && line[end] != 0x0a
        invariant
            start <= end <= n,
            n == line@.len(),
            page_size > 0,
            second_field(line@) == Some(field),
            field == line@.subrange(start as int, field_end(line@, start as int)),
            end <= field_end(line@, start as int) <= n,
            field_end(line@, start as int) == field_end(line@, end as int),
            forall|i: int| 0 <= i < end - start ==> 0x30 <= #[trigger] field[i] <= 0x39,
            pages == decimal(field.take(end - start)),
        decreases n - end,
    {
        let byte = line[end];
        proof {
            lemma_field_end(line@, end + 1);
            assert(field[end - start] == byte);
        }
        if byte < 0x30 || byte > 0x39 {
            return None;
        }
        proof {
            let front = field.take(end - start + 1);
            assert(front.drop_last() =~= field.take(end - start));
            assert(front.last() == byte);
            if is_decimal(field) {
                lemma_decimal_front(field, end - start + 1);
                assert(decimal(field) * page_size >= decimal(front)) by (nonlinear_arith)
                    requires
                        decimal(field) >= decimal(front),
                        page_size >= 1,
                ;
            }
        }
            let tens = pages.checked_mul(10)?;
        pages = tens.checked_add((byte - 0x30) as usize)?;
        end += 1;
    }
    proof {
        assert(field.take(end - start) =~= field);
    }
    if end == start {
        return None;
    }
    pages.checked_mul(page_size)
}

} // verus!
