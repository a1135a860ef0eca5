//! Fixed-size arrays: filling them, and writing runs of values into them.

use vstd::prelude::*;

verus! {

/// `base` with the values of `src` written over its cells `at`, `at + 1`, ...
pub open spec fn overwrite<T>(base: Seq<T>, at: int, src: Seq<T>) -> Seq<T> {
    Seq::new(
        base.len(),
        |i: int|
            if at <= i < at + src.len() {
                src[i - at]
            } else {
                base[i]
            },
    )
}

/// An array of `len` cells that all hold `value`.
pub open spec fn filled<T>(len: nat, value: T) -> Seq<T> {
    Seq::new(len, |i: int| value)
}

/// The array with `value` in cell `i`. An absent array stays absent.
pub open spec fn store<T>(array: Option<Seq<T>>, i: int, value: T) -> Option<Seq<T>> {
    match array {
        Some(a) => Some(a.update(i, value)),
        None => None,
    }
}

/// The array with `src` written from cell `at` on. An absent array stays absent.
pub open spec fn store_run<T>(array: Option<Seq<T>>, at: int, src: Seq<T>) -> Option<Seq<T>> {
    match array {
        Some(a) => Some(overwrite(a, at, src)),
        None => None,
    }
}

/// The contents of an array that may be absent.
pub open spec fn contents<T>(array: Option<Vec<T>>) -> Option<Seq<T>> {
    match array {
        Some(a) => Some(a@),
        None => None,
    }
}

/// The contents of an array of arrays that may be absent.
pub open spec fn row_contents<T>(array: Option<Vec<Vec<T>>>) -> Option<Seq<Seq<T>>> {
    match array {
        Some(a) => Some(Seq::new(a@.len(), |i: int| a@[i]@)),
        None => None,
    }
}

/// Copies `src` over the cells of `dst` from `at` on.
pub(crate) fn copy_into<T: Copy>(dst: &mut Vec<T>, at: usize, src: &[T])
    requires
        at + src@.len() <= old(dst)@.len(),
    ensures
        final(dst)@ == overwrite(old(dst)@, at as int, src@),
{
    let ghost before = dst@;
    let mut i: usize = 0;
    while i < src.len()
        invariant
            i <= src@.len(),
            at + src@.len() <= before.len(),
            dst.len() == before.len(),
            dst@ == overwrite(before, at as int, src@.take(i as int)),
        decreases src@.len() - i,
    {
        dst[at + i] = src[i];
        i += 1;
    }
}

/// Allocates `rows` arrays of `len` cells that all hold `value`.
pub(crate) fn filled_rows<T: Copy>(rows: usize, len: usize, value: T) -> (v: Vec<Vec<T>>)
    ensures
        row_contents(Some(v)) == Some(filled(rows as nat, filled(len as nat, value))),
{
    let mut v: Vec<Vec<T>> = Vec::new();
    let mut i: usize = 0;
    while i < rows
        invariant
            i <= rows,
            v@.len() == i,
            forall|j: int| 0 <= j < i ==> (#[trigger] v@[j])@ == filled(len as nat, value),
        decreases rows - i,
    {
        v.push(filled_array(len, value));
        i += 1;
    }
    v
}

/// Allocates an array of `len` cells that all hold `value`.
pub(crate) fn filled_array<T: Copy>(len: usize, value: T) -> (v: Vec<T>)
    ensures
        v@ == filled(len as nat, value),
{
    let mut v: Vec<T> = Vec::new();
    let mut i: usize = 0;
    while i < len
        invariant
            i <= len,
            v@ == filled(i as nat, value),
        decreases len - i,
    {
        v.push(value);
        i += 1;
    }
    v
}

} // verus!
