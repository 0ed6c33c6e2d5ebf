//! Arrays of values of any type: the values, with a validity bit for each position.
use vstd::prelude::*;

use crate::bits::{bits, lemma_ones_len, ones, Bits, MAX_BITS};
use crate::data_type::LogicalType;
use crate::scalar::{ScalarModel, ScalarValue};

verus! {

/// An immutable array of values of any logical type. A position whose validity bit is clear holds
/// `NULL`.
pub struct VariantArray {
    data: Vec<ScalarValue>,
    valid: Bits,
    logical_type: LogicalType,
}

/// The value at one position of an array: `None` for `NULL`.
pub open spec fn cell(data: Seq<ScalarValue>, valid: Seq<bool>, i: int) -> Option<ScalarModel> {
    if valid[i] {
        Some(data[i]@)
    } else {
        None
    }
}

impl VariantArray {
    /// One value per validity bit.
    pub closed spec fn wf(&self) -> bool {
        self.data@.len() == bits(self.valid).len()
    }

    /// The values of the array, `None` for `NULL`.
    pub closed spec fn view_cells(&self) -> Seq<Option<ScalarModel>> {
        Seq::new(bits(self.valid).len(), |i: int| cell(self.data@, bits(self.valid), i))
    }

    pub closed spec fn spec_logical_type(&self) -> LogicalType {
        self.logical_type
    }

    /// The stored values, including those at positions that hold `NULL`.
    pub closed spec fn values(&self) -> Seq<ScalarValue> {
        self.data@
    }

    /// The value at `idx`, `None` for `NULL` or past the end.
    pub fn get(&self, idx: usize) -> (r: Option<&ScalarValue>)
        requires
            self.wf(),
        ensures
            match r {
                Some(v) => idx < self.view_cells().len() && self.view_cells()[idx as int] == Some(v@),
                None => idx >= self.view_cells().len() || self.view_cells()[idx as int] is None,
            },
    {
        match self.valid.get(idx) {
            Some(true) => Some(&self.data[idx]),
            _ => None,
        }
    }

    pub fn len(&self) -> (r: usize)
        ensures
            r == self.view_cells().len(),
    {
        self.valid.len()
    }

    pub fn logical_type(&self) -> (r: &LogicalType)
        ensures
            *r == self.spec_logical_type(),
    {
        &self.logical_type
    }

    /// The values at the set positions of `visibility`, in order, as a new array of the same type.
    pub fn compact(&self, visibility: &Bits, new_len: usize) -> (r: VariantArray)
        requires
            self.wf(),
        ensures
            r.wf(),
            r.spec_logical_type()@ == self.spec_logical_type()@,
            r.view_cells() == ones(bits(*visibility)).map_values(
                |p: int|
                    if p < self.view_cells().len() {
                        self.view_cells()[p]
                    } else {
                        None
                    },
            ),
    {
        let mut builder = VariantArrayBuilder::with_capacity(new_len, self.logical_type.duplicate());
        let positions = visibility.iter_ones();
        let n = visibility.len();
        proof {
            lemma_ones_len(bits(*visibility));
        }
        let ghost want = ones(bits(*visibility)).map_values(
            |p: int|
                if p < self.view_cells().len() {
                    self.view_cells()[p]
                } else {
                    None
                },
        );
        let mut k: usize = 0;
        while k < positions.len()
            invariant
                self.wf(),
                k <= positions@.len(),
                builder.wf(),
                positions@.map_values(|p: usize| p as int) == ones(bits(*visibility)),
                want == ones(bits(*visibility)).map_values(
                    |p: int|
                        if p < self.view_cells().len() {
                            self.view_cells()[p]
                        } else {
                            None
                        },
                ),
                builder.view_cells() == want.take(k as int),
                builder.spec_logical_type()@ == self.spec_logical_type()@,
                ones(bits(*visibility)).len() <= n,
                n <= MAX_BITS,
            decreases positions@.len() - k,
        {
            let idx = positions[k];
            let item = self.get(idx);
            proof {
                assert(positions@.map_values(|p: usize| p as int)[k as int] == idx as int);
                assert(want[k as int] == match item {
                    Some(v) => Some(v@),
                    None => None::<ScalarModel>,
                });
                assert(want.take(k + 1) =~= want.take(k as int).push(want[k as int]));
            }
            builder.push(item);
            k = k + 1;
        }
        proof {
            assert(want.take(positions@.len() as int) =~= want);
        }
        builder.finish()
    }

    /// The validity bits.
    pub fn valid_map(&self) -> (r: &Bits)
        ensures
            bits(*r) == Seq::new(self.view_cells().len(), |i: int| self.view_cells()[i] is Some),
    {
        proof {
            assert(bits(self.valid) =~= Seq::new(self.view_cells().len(), |i: int| self.view_cells()[i] is Some));
        }
        &self.valid
    }

    /// Replaces the validity bits by bits of the same length: the positions whose bit is now clear
    /// hold `NULL`, the others their value.
    pub fn set_valid_map(&mut self, valid: Bits)
        requires
            old(self).wf(),
            bits(valid).len() == old(self).view_cells().len(),
        ensures
            final(self).wf(),
            final(self).spec_logical_type() == old(self).spec_logical_type(),
            final(self).view_cells().len() == old(self).view_cells().len(),
            forall|i: int|
                0 <= i < bits(valid).len() ==> #[trigger] final(self).view_cells()[i] == if bits(valid)[i] {
                    Some(old(self).values()[i]@)
                } else {
                    None
                },
    {
        self.valid = valid;
    }
}

/// Builds a `VariantArray` value by value.
pub struct VariantArrayBuilder {
    data: Vec<ScalarValue>,
    valid: Bits,
    logical_type: LogicalType,
}

impl VariantArrayBuilder {
    pub closed spec fn wf(&self) -> bool {
        self.data@.len() == bits(self.valid).len()
    }

    /// The values pushed so far, `None` for `NULL`.
    pub closed spec fn view_cells(&self) -> Seq<Option<ScalarModel>> {
        Seq::new(bits(self.valid).len(), |i: int| cell(self.data@, bits(self.valid), i))
    }

    pub closed spec fn spec_logical_type(&self) -> LogicalType {
        self.logical_type
    }

    /// An empty builder; `capacity` is a hint.
    pub fn with_capacity(capacity: usize, logical_type: LogicalType) -> (r: VariantArrayBuilder)
        ensures
            r.wf(),
            r.view_cells().len() == 0,
            r.spec_logical_type() == logical_type,
    {
        let _ = capacity;
        VariantArrayBuilder { data: Vec::new(), valid: Bits::new(), logical_type }
    }

    /// Appends `repeat` copies of `item`: of its value, or of `NULL`.
    pub fn push_n(&mut self, item: Option<&ScalarValue>, repeat: usize)
        requires
            old(self).wf(),
            old(self).view_cells().len() + repeat <= MAX_BITS,
        ensures
            final(self).wf(),
            final(self).spec_logical_type() == old(self).spec_logical_type(),
            final(self).view_cells() == old(self).view_cells() + Seq::new(
                repeat as nat,
                |_i: int|
                    match item {
                        Some(v) => Some(v@),
                        None => None,
                    },
            ),
    {
        let ghost before = self.view_cells();
        let ghost x = match item {
            Some(v) => Some(v@),
            None => None::<ScalarModel>,
        };
        let mut n: usize = 0;
        while n < repeat
            invariant
                self.wf(),
                n <= repeat,
                self.spec_logical_type() == old(self).spec_logical_type(),
                before == old(self).view_cells(),
                x == match item {
                    Some(v) => Some(v@),
                    None => None::<ScalarModel>,
                },
                self.view_cells() == before + Seq::new(n as nat, |_i: int| x),
                before.len() + repeat <= MAX_BITS,
            decreases repeat - n,
        {
            let ghost cells = self.view_cells();
            assert(bits(self.valid).len() == cells.len());
            match item {
                Some(v) => {
                    self.data.push(v.duplicate());
                    self.valid.push(true);
                },
                None => {
                    self.data.push(ScalarValue::Unknown);
                    self.valid.push(false);
                },
            }
            proof {
                assert(self.view_cells() =~= cells.push(x));
                assert(before + Seq::new((n + 1) as nat, |_i: int| x) =~= (before + Seq::new(
                    n as nat,
                    |_i: int| x,
                )).push(x));
            }
            n = n + 1;
        }
    }

    /// Appends `item`.
    pub fn push(&mut self, item: Option<&ScalarValue>)
        requires
            old(self).wf(),
            old(self).view_cells().len() < MAX_BITS,
        ensures
            final(self).wf(),
            final(self).spec_logical_type() == old(self).spec_logical_type(),
            final(self).view_cells() == old(self).view_cells().push(
                match item {
                    Some(v) => Some(v@),
                    None => None,
                },
            ),
    {
        self.push_n(item, 1);
        proof {
            let x = match item {
                Some(v) => Some(v@),
                None => None::<ScalarModel>,
            };
            assert(old(self).view_cells() + Seq::new(1nat, |_i: int| x) =~= old(self).view_cells().push(x));
        }
    }

    pub fn len(&self) -> (r: usize)
        ensures
            r == self.view_cells().len(),
    {
        self.valid.len()
    }

    /// The array of the values pushed.
    pub fn finish(self) -> (r: VariantArray)
        requires
            self.wf(),
        ensures
            r.wf(),
            r.view_cells() == self.view_cells(),
            r.spec_logical_type() == self.spec_logical_type(),
    {
        VariantArray { data: self.data, valid: self.valid, logical_type: self.logical_type }
    }

    pub fn logical_type(&self) -> (r: &LogicalType)
        ensures
            *r == self.spec_logical_type(),
    {
        &self.logical_type
    }
}

/// The set positions of a vector of set bits are all its positions, in order.
pub proof fn lemma_ones_all(n: nat)
    ensures
        ones(Seq::new(n, |_i: int| true)) == Seq::new(n, |i: int| i),
    decreases n,
{
    if n > 0 {
        let s = Seq::new(n, |_i: int| true);
        assert(s.drop_last() =~= Seq::new((n - 1) as nat, |_i: int| true));
        lemma_ones_all((n - 1) as nat);
        assert(Seq::new((n - 1) as nat, |i: int| i).push(n - 1) =~= Seq::new(n, |i: int| i));
    } else {
        assert(ones(Seq::<bool>::empty()) =~= Seq::new(0, |i: int| i));
    }
}

/// Compacting an array with every row visible keeps it as it is.
pub proof fn law_compact_all_visible(cells: Seq<Option<ScalarModel>>, visibility: Seq<bool>)
    requires
        visibility == Seq::new(cells.len(), |_i: int| true),
    ensures
        ones(visibility).map_values(|p: int| if p < cells.len() { cells[p] } else { None }) == cells,
{
    lemma_ones_all(cells.len());
    assert(ones(visibility).map_values(|p: int| if p < cells.len() { cells[p] } else { None }) =~= cells);
}

} // verus!
