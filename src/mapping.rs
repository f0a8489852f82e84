//! Sort keys of the mapping listing: `<aggregation key>:<bucket duration>`,
//! where the aggregation key is one or more characters other than a line
//! break and the bucket duration is one or more ASCII digits.

use vstd::prelude::*;

verus! {

/// One of the bytes `0` to `9`.
pub open spec fn is_ascii_digit(b: u8) -> bool {
    0x30 <= b <= 0x39
}

/// The byte at `c` is the colon that splits `b` into a non-empty aggregation
/// key without line breaks and a non-empty run of digits that ends `b`.
pub open spec fn splits_at(b: Seq<u8>, c: int) -> bool {
    &&& 1 <= c
    &&& c + 1 < b.len()
    &&& b[c] == 0x3a
    &&& forall|i: int| 0 <= i < c ==> b[i] != 0x0a
    &&& forall|i: int| c < i < b.len() ==> is_ascii_digit(#[trigger] b[i])
}

/// Where the colon stands in the UTF-8 bytes `key` of a well-formed sort
/// key; `None` when the key is not of that form.
pub fn bucket_key_split(key: &[u8]) -> (r: Option<usize>)
    ensures
        r matches Some(c) ==> splits_at(key@, c as int),
        r is None ==> forall|c: int| !splits_at(key@, c),
{
    let n = key.len();
    let mut j: usize = n;
    while j > 0 && is_digit_byte(key[j - 1])
        invariant
            j <= n == key@.len(),
            forall|i: int| j <= i < n ==> is_ascii_digit(#[trigger] key@[i]),
        decreases j,
    {
        j = j - 1;
    }
    if j == n || j < 2 || key[j - 1] != 0x3a {
        proof {
            assert forall|c: int| !splits_at(key@, c) by {
                if splits_at(key@, c) {
                    if c + 1 < j {
                        assert(!is_ascii_digit(key@[j - 1]));
                    } else if c + 1 > j {
                        assert(is_ascii_digit(key@[c]));
                    }
                }
            }
        }
        return None;
    }
    let c = j - 1;
    let mut i: usize = 0;
    while i < c
        invariant
            c < n == key@.len(),
            i <= c,
            forall|t: int| 0 <= t < i ==> key@[t] != 0x0a,
        decreases c - i,
    {
        if key[i] == 0x0a {
            proof {
                assert forall|c2: int| !splits_at(key@, c2) by {
                    if splits_at(key@, c2) && c2 != c {
                        if c2 < c {
                            assert(is_ascii_digit(key@[c as int]));
                        } else {
                            assert(is_ascii_digit(key@[c2]) || c2 + 1 > j);
                        }
                    }
                }
            }
            return None;
        }
        i = i + 1;
    }
    Some(c)
}

fn is_digit_byte(b: u8) -> (r: bool)
    ensures
        r == is_ascii_digit(b),
{
    0x30 <= b && b <= 0x39
}

/// The printed width of a column: its longest cell plus four.
pub open spec fn column_width_of(lens: Seq<usize>) -> nat
    decreases lens.len(),
{
    if lens.len() == 0 {
        4
    } else {
        let w = column_width_of(lens.drop_last());
        if lens.last() + 4 > w {
            (lens.last() + 4) as nat
        } else {
            w
        }
    }
}

/// The width of a column whose cells have lengths `lens`: the longest plus
/// four, and four for no cells.
pub fn column_width(lens: &Vec<usize>) -> (r: usize)
    requires
        forall|i: int| 0 <= i < lens@.len() ==> lens@[i] <= usize::MAX - 4,
    ensures
        r as nat == column_width_of(lens@),
        forall|i: int| 0 <= i < lens@.len() ==> lens@[i] + 4 <= r,
{
    let mut w: usize = 4;
    let mut i: usize = 0;
    while i < lens.len()
        invariant
            i <= lens@.len(),
            forall|t: int| 0 <= t < lens@.len() ==> lens@[t] <= usize::MAX - 4,
            w as nat == column_width_of(lens@.take(i as int)),
            forall|t: int| 0 <= t < i ==> lens@[t] + 4 <= w,
        decreases lens@.len() - i,
    {
        assert(lens@.take(i as int + 1).drop_last() =~= lens@.take(i as int));
        if lens[i] + 4 > w {
            w = lens[i] + 4;
        }
        i = i + 1;
    }
    assert(lens@.take(lens@.len() as int) =~= lens@);
    w
}

} // verus!
