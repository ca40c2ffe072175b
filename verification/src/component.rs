//! Values that a batch can store: each type names itself and knows its
//! erased, byte-wise form.

use vstd::prelude::*;
use vstd::bytes::{
    lemma_auto_spec_u32_to_from_le_bytes, lemma_auto_spec_u64_to_from_le_bytes,
    spec_u32_from_le_bytes, spec_u32_to_le_bytes, spec_u64_from_le_bytes, spec_u64_to_le_bytes,
    u32_from_le_bytes, u32_to_le_bytes, u64_from_le_bytes, u64_to_le_bytes,
};
use vstd::slice::slice_subrange;
use crate::row_ids::InstanceKey;

verus! {

/// A type of value that can be stored in a batch and read back from it.
///
/// A batch keeps values as bytes, next to the name of their type. Reading
/// restores a value from its bytes; what `erase` wrote, `restore` gives back.
pub trait Component: Sized {
    /// The name that tags every batch of this type.
    spec fn spec_name() -> Seq<char>;

    /// The name that tags every batch of this type.
    fn name() -> (n: String)
        ensures
            n@ == Self::spec_name(),
    ;

    /// The bytes that stand for this value.
    spec fn spec_erase(self) -> Seq<u8>;

    /// The value that the bytes stand for, if they stand for one.
    spec fn spec_restore(bytes: Seq<u8>) -> Option<Self>;

    /// Writes the value out as bytes.
    fn erase(&self) -> (bytes: Vec<u8>)
        ensures
            bytes@ == self.spec_erase(),
    ;

    /// Reads a value back from bytes; `None` where they are not the bytes of one.
    fn restore(bytes: &[u8]) -> (r: Option<Self>)
        ensures
            r == Self::spec_restore(bytes@),
    ;

    /// Restoring the bytes of a value gives the value.
    proof fn lemma_restore_erased(self)
        ensures
            Self::spec_restore(self.spec_erase()) == Some(self),
    ;
}

/// The erased form of each value, in order.
pub open spec fn erased<T: Component>(values: Seq<T>) -> Seq<Seq<u8>> {
    Seq::new(values.len(), |i: int| values[i].spec_erase())
}

/// What each cell restores to when read as a `T`.
pub open spec fn restored<T: Component>(cells: Seq<Seq<u8>>) -> Seq<Option<T>> {
    Seq::new(cells.len(), |i: int| T::spec_restore(cells[i]))
}

/// Every value, present.
pub open spec fn all_present<T>(values: Seq<T>) -> Seq<Option<T>> {
    Seq::new(values.len(), |i: int| Some(values[i]))
}

/// Reading back what was erased yields every value, in order.
pub proof fn lemma_restored_erased<T: Component>(values: Seq<T>)
    ensures
        restored::<T>(erased(values)) == all_present(values),
{
    assert forall|i: int| 0 <= i < values.len() implies T::spec_restore(
        #[trigger] values[i].spec_erase(),
    ) == Some(values[i]) by {
        values[i].lemma_restore_erased();
    }
}

impl Component for InstanceKey {
    open spec fn spec_name() -> Seq<char> {
        "rerun.instance_key"@
    }

    fn name() -> (n: String) {
        "rerun.instance_key".to_owned()
    }

    open spec fn spec_erase(self) -> Seq<u8> {
        spec_u64_to_le_bytes(self.0)
    }

    open spec fn spec_restore(bytes: Seq<u8>) -> Option<Self> {
        if bytes.len() == 8 {
            Some(InstanceKey(spec_u64_from_le_bytes(bytes)))
        } else {
            None
        }
    }

    fn erase(&self) -> (bytes: Vec<u8>) {
        u64_to_le_bytes(self.0)
    }

    fn restore(bytes: &[u8]) -> (r: Option<Self>) {
        if bytes.len() == 8 {
            Some(InstanceKey(u64_from_le_bytes(bytes)))
        } else {
            None
        }
    }

    proof fn lemma_restore_erased(self) {
        lemma_auto_spec_u64_to_from_le_bytes();
    }
}

/// A colour, packed as `0xRRGGBBAA`.
#[derive(Clone, Copy, PartialEq, Eq, Structural, Hash, Debug)]
pub struct ColorRGBA(pub u32);

impl Component for ColorRGBA {
    open spec fn spec_name() -> Seq<char> {
        "rerun.colorrgba"@
    }

    fn name() -> (n: String) {
        "rerun.colorrgba".to_owned()
    }

    open spec fn spec_erase(self) -> Seq<u8> {
        spec_u32_to_le_bytes(self.0)
    }

    open spec fn spec_restore(bytes: Seq<u8>) -> Option<Self> {
        if bytes.len() == 4 {
            Some(ColorRGBA(spec_u32_from_le_bytes(bytes)))
        } else {
            None
        }
    }

    fn erase(&self) -> (bytes: Vec<u8>) {
        u32_to_le_bytes(self.0)
    }

    fn restore(bytes: &[u8]) -> (r: Option<Self>) {
        if bytes.len() == 4 {
            Some(ColorRGBA(u32_from_le_bytes(bytes)))
        } else {
            None
        }
    }

    proof fn lemma_restore_erased(self) {
        lemma_auto_spec_u32_to_from_le_bytes();
    }
}

/// A point in the plane. Each coordinate is held as the bit pattern of a
/// 32-bit IEEE 754 number, so that points compare bit for bit.
#[derive(Clone, Copy, PartialEq, Eq, Structural, Hash, Debug)]
pub struct Point2D {
    /// The bits of the horizontal coordinate.
    pub x: u32,
    /// The bits of the vertical coordinate.
    pub y: u32,
}

impl Component for Point2D {
    open spec fn spec_name() -> Seq<char> {
        "rerun.point2d"@
    }

    fn name() -> (n: String) {
        "rerun.point2d".to_owned()
    }

    open spec fn spec_erase(self) -> Seq<u8> {
        spec_u32_to_le_bytes(self.x) + spec_u32_to_le_bytes(self.y)
    }

    open spec fn spec_restore(bytes: Seq<u8>) -> Option<Self> {
        if bytes.len() == 8 {
            Some(
                Point2D {
                    x: spec_u32_from_le_bytes(bytes.subrange(0, 4)),
                    y: spec_u32_from_le_bytes(bytes.subrange(4, 8)),
                },
            )
        } else {
            None
        }
    }

    fn erase(&self) -> (bytes: Vec<u8>) {
        let mut bytes: Vec<u8> = u32_to_le_bytes(self.x);
        let mut rest: Vec<u8> = u32_to_le_bytes(self.y);
        bytes.append(&mut rest);
        bytes
    }

    fn restore(bytes: &[u8]) -> (r: Option<Self>) {
        if bytes.len() == 8 {
            let x: u32 = u32_from_le_bytes(slice_subrange(bytes, 0, 4));
            let y: u32 = u32_from_le_bytes(slice_subrange(bytes, 4, 8));
            Some(Point2D { x, y })
        } else {
            None
        }
    }

    proof fn lemma_restore_erased(self) {
        lemma_auto_spec_u32_to_from_le_bytes();
        let a = spec_u32_to_le_bytes(self.x);
        let b = spec_u32_to_le_bytes(self.y);
        assert((a + b).subrange(0, 4) =~= a);
        assert((a + b).subrange(4, 8) =~= b);
    }
}

} // verus!
