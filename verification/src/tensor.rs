//! The engine's view of a tensor: datatype, shape and raw bytes. The
//! numeric layer math is an external collaborator; the engine only moves
//! tensors between shards, so shape and datatype metadata plus the raw
//! element bytes are everything it has to preserve.
use vstd::prelude::*;

verus! {

/// The element datatype of a tensor payload.
#[derive(Debug, Clone, Copy, PartialEq, Eq, Structural)]
pub enum Dtype {
    U8,
    I64,
    F16,
    F32,
}

impl Dtype {
    /// How many bytes one element of this datatype occupies.
    pub open spec fn size_spec(self) -> nat {
        match self {
            Dtype::U8 => 1,
            Dtype::I64 => 8,
            Dtype::F16 => 2,
            Dtype::F32 => 4,
        }
    }

    pub fn size(&self) -> (n: u64)
        ensures
            n == self.size_spec(),
            1 <= n <= 8,
    {
        match self {
            Dtype::U8 => 1,
            Dtype::I64 => 8,
            Dtype::F16 => 2,
            Dtype::F32 => 4,
        }
    }
}

/// How many elements a shape describes: the product of its dimensions
/// (one, for the empty shape of a scalar).
pub open spec fn elem_count(shape: Seq<u64>) -> nat
    decreases shape.len(),
{
    if shape.len() == 0 {
        1
    } else {
        elem_count(shape.drop_last()) * (shape.last() as nat)
    }
}

/// A tensor as the engine carries it: raw element bytes plus the shape
/// and datatype metadata needed to rebuild it on the receiving node.
#[derive(Debug, Clone, PartialEq, Eq)]
pub struct TensorData {
    pub dtype: Dtype,
    pub shape: Vec<u64>,
    pub data: Vec<u8>,
}

impl TensorData {
    /// The bytes are exactly one element's worth per described element.
    pub open spec fn wf(self) -> bool {
        self.data@.len() == self.dtype.size_spec() * elem_count(self.shape@)
    }

    /// Builds a tensor after checking that the data length matches the
    /// shape and datatype; `None` exactly when they disagree or the byte
    /// count overflows this machine's arithmetic.
    pub fn new(dtype: Dtype, shape: Vec<u64>, data: Vec<u8>) -> (r: Option<TensorData>)
        ensures
            match r {
                Some(t) => {
                    &&& t.dtype == dtype
                    &&& t.shape@ == shape@
                    &&& t.data@ == data@
                    &&& t.wf()
                },
                None => dtype.size_spec() * elem_count(shape@) != data@.len()
                    || dtype.size_spec() * elem_count(shape@) > u64::MAX,
            },
    {
        let mut j: usize = 0;
        while j < shape.len()
            invariant
                j <= shape@.len(),
                forall|k: int| 0 <= k < j ==> shape@[k] >= 1,
            decreases shape@.len() - j,
        {
            if shape[j] == 0 {
                proof {
                    lemma_elem_count_zero_elem(shape@, j as int);
                }
                if data.len() == 0 {
                    return Some(TensorData { dtype, shape, data });
                } else {
                    return None;
                }
            }
            j += 1;
        }
        let mut count: u64 = 1;
        let mut i: usize = 0;
        while i < shape.len()
            invariant
                i <= shape@.len(),
                count == elem_count(shape@.take(i as int)),
                forall|k: int| 0 <= k < shape@.len() ==> shape@[k] >= 1,
            decreases shape@.len() - i,
        {
            proof {
                assert(shape@.take(i + 1).drop_last() =~= shape@.take(i as int));
                assert(shape@.take(i + 1).last() == shape@[i as int]);
            }
            count = match count.checked_mul(shape[i]) {
                Some(c) => c,
                None => {
                    proof {
                        lemma_elem_count_grows(shape@, i + 1);
                        assert(dtype.size_spec() * elem_count(shape@) >= 1 * elem_count(shape@))
                            by (nonlinear_arith)
                            requires
                                dtype.size_spec() >= 1,
                        ;
                    }
                    return None;
                },
            };
            i += 1;
        }
        proof {
            assert(shape@.take(shape@.len() as int) =~= shape@);
        }
        let size = dtype.size();
        let total = match size.checked_mul(count) {
            Some(t) => t,
            None => {
                return None;
            },
        };
        if data.len() as u64 == total {
            Some(TensorData { dtype, shape, data })
        } else {
            None
        }
    }
}

/// A shape with a zero dimension describes no elements at all.
proof fn lemma_elem_count_zero_elem(shape: Seq<u64>, j: int)
    requires
        0 <= j < shape.len(),
        shape[j] == 0,
    ensures
        elem_count(shape) == 0,
    decreases shape.len(),
{
    if j == shape.len() - 1 {
        assert(elem_count(shape.drop_last()) * 0 == 0) by (nonlinear_arith);
    } else {
        lemma_elem_count_zero_elem(shape.drop_last(), j);
        assert(0 * (shape.last() as nat) == 0) by (nonlinear_arith);
    }
}

/// With every remaining dimension at least one, appending dimensions
/// never shrinks the element count; so once a prefix overflows, the
/// whole shape's count overflows too.
proof fn lemma_elem_count_grows(shape: Seq<u64>, i: int)
    requires
        0 <= i <= shape.len(),
        forall|k: int| 0 <= k < shape.len() ==> shape[k] >= 1,
        elem_count(shape.take(i)) > u64::MAX,
    ensures
        elem_count(shape) > u64::MAX,
    decreases shape.len() - i,
{
    if i == shape.len() {
        assert(shape.take(i) =~= shape);
    } else {
        assert(shape.take(i + 1).drop_last() =~= shape.take(i));
        assert(shape.take(i + 1).last() == shape[i]);
        assert(elem_count(shape.take(i)) * (shape[i] as nat) >= elem_count(shape.take(i)) * 1)
            by (nonlinear_arith)
            requires
                shape[i] as nat >= 1,
        ;
        lemma_elem_count_grows(shape, i + 1);
    }
}

} // verus!
