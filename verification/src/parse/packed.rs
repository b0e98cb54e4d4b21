//! The two packed encodings of the `gvar` table: lists of point numbers and
//! lists of deltas, both stored as runs.

use crate::error::{ImtError, ImtErrorSource};
use crate::parse::{
    be_i16, be_i8, be_u16, fits, in_bounds, malformed, malformed_in, read_i16, read_i8, read_u16,
    truncated, truncated_in,
};
use vstd::prelude::*;

verus! {

/// The number of entries of a run of point numbers with the control byte
/// `control`, from 1 to 128.
pub open spec fn point_run_len(control: u8) -> int {
    ((control & 0x7F) + 1) as int
}

/// Whether the entries of a run of point numbers are 16 bits wide rather
/// than 8.
pub open spec fn point_run_words(control: u8) -> bool {
    control & 0x80 != 0
}

/// The number of bytes that the entries of a run of point numbers take.
pub open spec fn point_run_size(control: u8) -> int {
    if point_run_words(control) {
        2 * point_run_len(control)
    } else {
        point_run_len(control)
    }
}

/// Entry `k` of a run of point numbers whose entries start at `at`: the
/// difference between a point number and the one before it.
pub open spec fn point_step(b: Seq<u8>, at: int, words: bool, k: int) -> int {
    if words {
        be_u16(b, at + 2 * k) as int
    } else {
        b[at + k] as int
    }
}

/// The sum of the first `k` entries of a run of point numbers.
pub open spec fn point_steps_sum(b: Seq<u8>, at: int, words: bool, k: int) -> int
    decreases k,
{
    if k <= 0 {
        0
    } else {
        point_steps_sum(b, at, words, k - 1) + point_step(b, at, words, k - 1)
    }
}

/// The last point number of a list, or zero for an empty list.
pub open spec fn last_point(have: Seq<int>) -> int {
    if have.len() == 0 {
        0
    } else {
        have[have.len() - 1]
    }
}

/// The point numbers of one run whose control byte is at `off`, after the
/// point numbers `have`: each is the one before it plus an entry of the run.
pub open spec fn point_run(b: Seq<u8>, off: int, have: Seq<int>) -> Seq<int> {
    Seq::new(
        point_run_len(b[off]) as nat,
        |k: int|
            last_point(have) + point_steps_sum(b, off + 1, point_run_words(b[off]), k + 1),
    )
}

/// The `total` point numbers that the runs from `off` on spell, after the
/// point numbers `have`, and the offset after the last run. It is an error
/// when the data ends before a control byte or inside a run, and when a run
/// has more entries than are still missing.
pub open spec fn points_from(b: Seq<u8>, off: int, have: Seq<int>, total: int) -> Result<
    (Seq<int>, int),
    ImtError,
>
    decreases b.len() - off,
{
    if have.len() >= total {
        Ok((have, off))
    } else if !fits(b, off, 1) {
        Err(truncated(ImtErrorSource::GvarTable))
    } else if have.len() + point_run_len(b[off]) > total {
        Err(malformed(ImtErrorSource::GvarTable))
    } else if !fits(b, off + 1, point_run_size(b[off])) {
        Err(truncated(ImtErrorSource::GvarTable))
    } else {
        points_from(b, off + 1 + point_run_size(b[off]), have + point_run(b, off, have), total)
    }
}

/// The number of point numbers that the head of a packed list announces:
/// the first byte, or the low 15 bits of the first two bytes when the top
/// bit of the first is set.
pub open spec fn packed_point_count(b: Seq<u8>) -> int {
    if b[0] & 0x80 != 0 {
        (b[0] & 0x7F) as int * 0x100 + b[1] as int
    } else {
        b[0] as int
    }
}

/// The number of bytes of the head of a packed list of point numbers.
pub open spec fn packed_point_head(b: Seq<u8>) -> int {
    if b[0] & 0x80 != 0 {
        2
    } else {
        1
    }
}

/// The point numbers that a packed list spells and the number of bytes it
/// takes. It is an error when the head is cut short, when the runs fail, and
/// when a point number does not fit 16 bits. A list of no point numbers
/// stands for all points.
pub open spec fn packed_points(b: Seq<u8>) -> Result<(Seq<int>, int), ImtError> {
    if !fits(b, 0, 1) {
        Err(truncated(ImtErrorSource::GvarTable))
    } else if !fits(b, 0, packed_point_head(b)) {
        Err(truncated(ImtErrorSource::GvarTable))
    } else {
        match points_from(b, packed_point_head(b), Seq::empty(), packed_point_count(b)) {
            Err(e) => Err(e),
            Ok(read) => if last_point(read.0) > 0xFFFF {
                Err(malformed(ImtErrorSource::GvarTable))
            } else {
                Ok(read)
            },
        }
    }
}

/// Whether no number of a list is less than the one before it.
pub open spec fn non_decreasing(s: Seq<int>) -> bool {
    forall|i: int, j: int| 0 <= i <= j < s.len() ==> s[i] <= s[j]
}

/// Whether each number of a list is greater than the one before it.
pub open spec fn strictly_increasing(s: Seq<int>) -> bool {
    forall|i: int, j: int| 0 <= i < j < s.len() ==> s[i] < s[j]
}

/// The numbers of a list of 32-bit numbers, as integers.
pub open spec fn wide_as_ints(s: Seq<u32>) -> Seq<int> {
    Seq::new(s.len(), |i: int| s[i] as int)
}

/// The sum of the entries of a run is never negative and grows with each
/// entry by at most 0xFFFF.
proof fn lemma_point_steps_sum(b: Seq<u8>, at: int, words: bool, k: int)
    requires
        0 <= k,
    ensures
        0 <= point_steps_sum(b, at, words, k) <= 0xFFFF * k,
        k > 0 ==> point_steps_sum(b, at, words, k) == point_steps_sum(b, at, words, k - 1)
            + point_step(b, at, words, k - 1),
    decreases k,
{
    if k > 0 {
        lemma_point_steps_sum(b, at, words, k - 1);
    }
}

/// Reads the point numbers that the runs from `offset` on spell, until
/// there are `total`.
fn read_point_runs(bytes: &[u8], offset: usize, total: usize) -> (r: Result<
    (Vec<u32>, usize),
    ImtError,
>)
    requires
        total <= 0x7FFF,
        offset <= bytes@.len(),
    ensures
        match r {
            Ok(read) => {
                &&& points_from(bytes@, offset as int, Seq::empty(), total as int) == Ok::<
                    (Seq<int>, int),
                    ImtError,
                >((wide_as_ints(read.0@), read.1 as int))
                &&& read.0@.len() == total
                &&& offset <= read.1 <= bytes@.len()
                &&& non_decreasing(wide_as_ints(read.0@))
            },
            Err(e) => points_from(bytes@, offset as int, Seq::empty(), total as int) == Err::<
                (Seq<int>, int),
                ImtError,
            >(e),
        },
{
    let len: usize = bytes.len();
    let mut points: Vec<u32> = Vec::new();
    let mut at: usize = offset;
    let mut last: u32 = 0;
    assert(wide_as_ints(points@) =~= Seq::<int>::empty());
    while points.len() < total
        invariant
            len == bytes@.len(),
            offset <= at <= len,
            total <= 0x7FFF,
            points@.len() <= total,
            last == last_point(wide_as_ints(points@)),
            last <= 0xFFFF * points@.len(),
            non_decreasing(wide_as_ints(points@)),
            points_from(bytes@, offset as int, Seq::empty(), total as int) == points_from(
                bytes@,
                at as int,
                wide_as_ints(points@),
                total as int,
            ),
        decreases total - points@.len(),
    {
        let ghost have = wide_as_ints(points@);
        let ghost start = at as int;
        if !in_bounds(len, at, 1) {
            return Err(truncated_in(ImtErrorSource::GvarTable));
        }
        let control: u8 = bytes[at];
        assert((control & 0x7F) <= 0x7F) by (bit_vector);
        let run: usize = ((control & 0x7F) + 1) as usize;
        let words: bool = control & 0x80 != 0;
        if points.len() + run > total {
            return Err(malformed_in(ImtErrorSource::GvarTable));
        }
        let size: usize = if words {
            2 * run
        } else {
            run
        };
        if !in_bounds(len, at + 1, size) {
            return Err(truncated_in(ImtErrorSource::GvarTable));
        }
        let entries_at: usize = at + 1;
        let ghost base = last as int;
        let mut k: usize = 0;
        while k < run
            invariant
                k <= run == point_run_len(control),
                control == bytes@[start],
                words == point_run_words(control),
                entries_at == start + 1,
                entries_at + point_run_size(control) <= bytes@.len() <= usize::MAX,
                have.len() + run <= total <= 0x7FFF,
                base == last_point(have),
                base <= 0xFFFF * have.len(),
                non_decreasing(have),
                points@.len() == have.len() + k,
                last == base + point_steps_sum(bytes@, entries_at as int, words, k as int),
                last <= 0xFFFF * points@.len(),
                start < bytes@.len(),
                wide_as_ints(points@) == have + Seq::new(
                    k as nat,
                    |j: int| base + point_steps_sum(bytes@, entries_at as int, words, j + 1),
                ),
                non_decreasing(wide_as_ints(points@)),
                last == last_point(wide_as_ints(points@)),
            decreases run - k,
        {
            let step: u32 = if words {
                read_u16(bytes, entries_at + 2 * k, ImtErrorSource::GvarTable)? as u32
            } else {
                bytes[entries_at + k] as u32
            };
            proof {
                lemma_point_steps_sum(bytes@, entries_at as int, words, k + 1);
                lemma_point_steps_sum(bytes@, entries_at as int, words, k as int);
            }
            let ghost before = wide_as_ints(points@);
            last = last + step;
            points.push(last);
            k += 1;
            assert(wide_as_ints(points@) =~= before.push(last as int));
        }
        at = entries_at + size;
    }
    Ok((points, at))
}

/// Reads a packed list of point numbers from the start of `bytes` and
/// appends them to `points`. Gives the number of bytes that the list takes.
/// A list of no point numbers stands for all points.
pub fn parse_packed_points(bytes: &[u8], points: &mut Vec<u16>) -> (r: Result<usize, ImtError>)
    ensures
        match r {
            Ok(taken) => {
                &&& packed_points(bytes@) matches Ok(read) && read.1 == taken && final(points)@
                    == old(points)@ + Seq::new(read.0.len(), |i: int| read.0[i] as u16)
                &&& taken <= bytes@.len()
                &&& non_decreasing(packed_points(bytes@).unwrap().0)
                &&& forall|i: int|
                    0 <= i < packed_points(bytes@).unwrap().0.len() ==> 0 <= (
                    #[trigger] packed_points(bytes@).unwrap().0[i]) <= 0xFFFF
            },
            Err(e) => {
                &&& packed_points(bytes@) == Err::<(Seq<int>, int), ImtError>(e)
                &&& final(points)@ == old(points)@
            },
        },
{
    let len: usize = bytes.len();
    if !in_bounds(len, 0, 1) {
        return Err(truncated_in(ImtErrorSource::GvarTable));
    }
    let first: u8 = bytes[0];
    assert((first & 0x7F) <= 0x7F) by (bit_vector);
    let (total, head): (usize, usize) = if first & 0x80 != 0 {
        if !in_bounds(len, 0, 2) {
            return Err(truncated_in(ImtErrorSource::GvarTable));
        }
        ((first & 0x7F) as usize * 0x100 + bytes[1] as usize, 2)
    } else {
        (first as usize, 1)
    };
    let (wide, taken) = read_point_runs(bytes, head, total)?;
    let count: usize = wide.len();
    if count > 0 && wide[count - 1] > 0xFFFF {
        return Err(malformed_in(ImtErrorSource::GvarTable));
    }
    let ghost read = wide_as_ints(wide@);
    let ghost before = points@;
    let mut i: usize = 0;
    while i < count
        invariant
            i <= count == wide@.len(),
            read == wide_as_ints(wide@),
            non_decreasing(read),
            last_point(read) <= 0xFFFF,
            points@ == before + Seq::new(i as nat, |j: int| read[j] as u16),
        decreases count - i,
    {
        let wide_point: u32 = wide[i];
        points.push(wide_point as u16);
        i += 1;
    }
    Ok(taken)
}

/// A list of point numbers that never falls, and in which no number stands
/// twice, rises strictly. A packed list repeats a number exactly where a
/// run holds a difference of zero.
pub proof fn lemma_points_rise(points: Seq<int>)
    requires
        non_decreasing(points),
        forall|i: int| 0 < i < points.len() ==> points[i - 1] != #[trigger] points[i],
    ensures
        strictly_increasing(points),
{
}

/// The number of deltas of a run with the control byte `control`, from 1 to
/// 64.
pub open spec fn delta_run_len(control: u8) -> int {
    ((control & 0x3F) + 1) as int
}

/// Whether every delta of a run is zero, so that the run holds no bytes.
pub open spec fn delta_run_zero(control: u8) -> bool {
    control & 0x80 != 0
}

/// Whether the deltas of a run are 16 bits wide rather than 8.
pub open spec fn delta_run_words(control: u8) -> bool {
    control & 0x40 != 0
}

/// The number of bytes that the deltas of a run take.
pub open spec fn delta_run_size(control: u8) -> int {
    if delta_run_zero(control) {
        0
    } else if delta_run_words(control) {
        2 * delta_run_len(control)
    } else {
        delta_run_len(control)
    }
}

/// Delta `k` of the run whose control byte is at `off`.
pub open spec fn delta_run_value(b: Seq<u8>, off: int, k: int) -> i16 {
    if delta_run_zero(b[off]) {
        0
    } else if delta_run_words(b[off]) {
        be_i16(b, off + 1 + 2 * k)
    } else {
        be_i8(b, off + 1 + k) as i16
    }
}

/// The deltas of the run whose control byte is at `off`.
pub open spec fn delta_run(b: Seq<u8>, off: int) -> Seq<i16> {
    Seq::new(delta_run_len(b[off]) as nat, |k: int| delta_run_value(b, off, k))
}

/// The `need` deltas that the runs from `off` on spell, after the deltas
/// `have`. Runs are read whole. It is an error when the data ends before a
/// control byte or inside a run, and when the last run gives more deltas
/// than are needed.
pub open spec fn deltas_from(b: Seq<u8>, off: int, have: Seq<i16>, need: int) -> Result<
    Seq<i16>,
    ImtError,
>
    decreases b.len() - off,
{
    if have.len() > need {
        Err(malformed(ImtErrorSource::GvarTable))
    } else if have.len() == need {
        Ok(have)
    } else if !fits(b, off, 1) {
        Err(truncated(ImtErrorSource::GvarTable))
    } else if !fits(b, off + 1, delta_run_size(b[off])) {
        Err(truncated(ImtErrorSource::GvarTable))
    } else {
        deltas_from(b, off + 1 + delta_run_size(b[off]), have + delta_run(b, off), need)
    }
}

/// The numbers that a packed list of `count` deltas spells: `count` x
/// deltas, then `count` y deltas.
pub open spec fn packed_deltas(b: Seq<u8>, count: int) -> Result<Seq<i16>, ImtError> {
    deltas_from(b, 0, Seq::empty(), 2 * count)
}

/// Reads a packed list of `count` deltas from the start of `bytes`: for
/// each of `count` points its x delta and its y delta.
pub fn parse_packed_deltas(bytes: &[u8], count: usize) -> (r: Result<Vec<[i16; 2]>, ImtError>)
    ensures
        match r {
            Ok(deltas) => {
                &&& packed_deltas(bytes@, count as int) matches Ok(values) && deltas@.len()
                    == count && forall|k: int|
                    0 <= k < count ==> (#[trigger] deltas@[k])@[0] == values[k] && deltas@[k]@[1]
                        == values[count + k]
            },
            Err(e) => packed_deltas(bytes@, count as int) == Err::<Seq<i16>, ImtError>(e),
        },
{
    let len: usize = bytes.len();
    let need: u128 = count as u128 * 2;
    let mut values: Vec<i16> = Vec::new();
    let mut at: usize = 0;
    loop
        invariant
            len == bytes@.len(),
            need == 2 * count,
            at <= len,
            packed_deltas(bytes@, count as int) == deltas_from(
                bytes@,
                at as int,
                values@,
                need as int,
            ),
        ensures
            values@.len() == 2 * count,
            packed_deltas(bytes@, count as int) == Ok::<Seq<i16>, ImtError>(values@),
        decreases len - at,
    {
        let have: u128 = values.len() as u128;
        if have > need {
            return Err(malformed_in(ImtErrorSource::GvarTable));
        }
        if have == need {
            break ;
        }
        if !in_bounds(len, at, 1) {
            return Err(truncated_in(ImtErrorSource::GvarTable));
        }
        let control: u8 = bytes[at];
        assert((control & 0x3F) <= 0x3F) by (bit_vector);
        let run: usize = ((control & 0x3F) + 1) as usize;
        let zero: bool = control & 0x80 != 0;
        let words: bool = control & 0x40 != 0;
        let size: usize = if zero {
            0
        } else if words {
            2 * run
        } else {
            run
        };
        if !in_bounds(len, at + 1, size) {
            return Err(truncated_in(ImtErrorSource::GvarTable));
        }
        let ghost before = values@;
        let ghost start = at as int;
        let mut k: usize = 0;
        while k < run
            invariant
                k <= run == delta_run_len(control),
                start == at,
                start < bytes@.len(),
                control == bytes@[start],
                zero == delta_run_zero(control),
                words == delta_run_words(control),
                at + 1 + delta_run_size(control) <= bytes@.len() <= usize::MAX,
                values@ == before + Seq::new(k as nat, |j: int| delta_run_value(bytes@, start, j)),
            decreases run - k,
        {
            let value: i16 = if zero {
                0
            } else if words {
                read_i16(bytes, at + 1 + 2 * k, ImtErrorSource::GvarTable)?
            } else {
                read_i8(bytes, at + 1 + k, ImtErrorSource::GvarTable)? as i16
            };
            values.push(value);
            k += 1;
        }
        at = at + 1 + size;
    }
    let ghost all = values@;
    assert(values.len() == 2 * count);
    let mut deltas: Vec<[i16; 2]> = Vec::with_capacity(count);
    let mut k: usize = 0;
    while k < count
        invariant
            k <= count,
            2 * count <= usize::MAX,
            values@ == all,
            all.len() == 2 * count,
            deltas@.len() == k,
            forall|j: int|
                0 <= j < k ==> (#[trigger] deltas@[j])@[0] == all[j] && deltas@[j]@[1] == all[count
                    + j],
        decreases count - k,
    {
        deltas.push([values[k], values[count + k]]);
        k += 1;
    }
    Ok(deltas)
}

} // verus!
