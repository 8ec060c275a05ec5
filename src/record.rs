//! Fixed-size records laid out back to back in the buffer.
use crate::bytes::lemma_len_fits;
use crate::error::ElfError;
use vstd::prelude::*;

verus! {

/// A fixed-size on-disk record that can be decoded at any byte offset.
pub trait ElfRecord: Sized {
    /// The record's size in bytes.
    spec fn spec_size() -> nat;

    /// The record stored at `off` in `b`.
    spec fn spec_decode(b: Seq<u8>, off: int) -> Self;

    fn size() -> (r: usize)
        ensures
            r as nat == Self::spec_size(),
            r > 0,
    ;

    fn decode(buf: &[u8], off: usize) -> (r: Self)
        requires
            off + Self::spec_size() <= buf@.len(),
        ensures
            r == Self::spec_decode(buf@, off as int),
    ;
}

/// A single byte, so that a section can be read as its raw bytes.
impl ElfRecord for u8 {
    open spec fn spec_size() -> nat {
        1
    }

    open spec fn spec_decode(b: Seq<u8>, off: int) -> Self {
        b[off]
    }

    fn size() -> (r: usize) {
        1
    }

    fn decode(buf: &[u8], off: usize) -> (r: Self) {
        buf[off]
    }
}

/// The `count` records of type `T` stored one after another from `off`.
pub open spec fn decode_table<T: ElfRecord>(b: Seq<u8>, off: int, count: nat) -> Seq<T> {
    Seq::new(count, |i: int| T::spec_decode(b, off + i * T::spec_size()))
}

/// Whether `count` records of type `T` from `off` lie inside `b`.
pub open spec fn table_fits<T: ElfRecord>(b: Seq<u8>, off: int, count: nat) -> bool {
    off + count * T::spec_size() <= b.len()
}

/// The table of `count` records at `off`, or `OutOfBounds` where it does not fit.
pub open spec fn spec_read_table<T: ElfRecord>(b: Seq<u8>, off: int, count: nat) -> Result<
    Seq<T>,
    ElfError,
> {
    if table_fits::<T>(b, off, count) {
        Ok(decode_table::<T>(b, off, count))
    } else {
        Err(ElfError::OutOfBounds)
    }
}

proof fn lemma_entry_inside(off: int, i: int, count: int, size: int)
    requires
        0 <= i < count,
        0 < size,
    ensures
        off + i * size + size <= off + count * size,
{
    assert(i * size + size <= count * size) by (nonlinear_arith)
        requires
            0 <= i < count,
            0 < size,
    ;
}

/// Decodes the `count` records of type `T` stored from `off`, refusing a table
/// that reaches past the end of `buf`.
pub fn read_table<T: ElfRecord>(buf: &[u8], off: u64, count: u64) -> (r: Result<Vec<T>, ElfError>)
    ensures
        match r {
            Ok(v) => spec_read_table::<T>(buf@, off as int, count as nat) == Ok::<
                Seq<T>,
                ElfError,
            >(v@),
            Err(e) => spec_read_table::<T>(buf@, off as int, count as nat) == Err::<
                Seq<T>,
                ElfError,
            >(e),
        },
{
    proof {
        lemma_len_fits(buf);
    }
    let size = T::size();
    let bytes = match count.checked_mul(size as u64) {
        Some(n) => n,
        None => {
            assert(count * T::spec_size() >= count * 1) by (nonlinear_arith)
                requires
                    T::spec_size() >= 1,
            ;
            return Err(ElfError::OutOfBounds);
        },
    };
    let end = match off.checked_add(bytes) {
        Some(n) => n,
        None => return Err(ElfError::OutOfBounds),
    };
    if end > buf.len() as u64 {
        return Err(ElfError::OutOfBounds);
    }
    let mut v: Vec<T> = Vec::new();
    let mut i: u64 = 0;
    while i < count
        invariant
            i <= count,
            size as nat == T::spec_size(),
            size > 0,
            off + count * size <= buf@.len(),
            buf@.len() <= usize::MAX,
            v@.len() == i,
            forall|k: int| 0 <= k < i ==> #[trigger] v@[k] == T::spec_decode(buf@, off + k * size),
        decreases count - i,
    {
        proof {
            lemma_entry_inside(off as int, i as int, count as int, size as int);
            assert(i * size <= i * size + size);
        }
        let at = (off + i * (size as u64)) as usize;
        let item = T::decode(buf, at);
        v.push(item);
        i = i + 1;
    }
    assert(v@ =~= decode_table::<T>(buf@, off as int, count as nat));
    Ok(v)
}

} // verus!
