//! The tensor record: the canonical serialized form of a tensor, and the
//! byte-length invariant that decoding enforces.

use crate::device::DeviceTag;
use crate::error::CodecError;
use crate::kind::{element_size, kind_width, ElementKind};
use vstd::arithmetic::mul::lemma_mul_is_associative;
use vstd::prelude::*;

verus! {

/// The element count of a shape: the product of all its dimension sizes,
/// with the empty shape denoting a scalar of one element.
pub open spec fn numel(shape: Seq<i64>) -> int
    decreases shape.len(),
{
    if shape.len() == 0 {
        1
    } else {
        shape[0] * numel(shape.drop_first())
    }
}

/// `v` saturated into the `u64` range.
pub open spec fn clamp_u64(v: int) -> int {
    if v < 0 {
        0
    } else if v > u64::MAX as int {
        u64::MAX as int
    } else {
        v
    }
}

/// Appending a dimension multiplies the element count by it.
pub proof fn lemma_numel_push(s: Seq<i64>, x: i64)
    ensures
        numel(s.push(x)) == numel(s) * x,
    decreases s.len(),
{
    if s.len() == 0 {
        assert(s.push(x).drop_first() =~= Seq::<i64>::empty());
        assert(s.push(x)[0] == x);
        assert(s.push(x).len() == 1);
        assert(numel(s.push(x).drop_first()) == 1);
        assert(numel(s.push(x)) == x as int * 1);
        assert(numel(s) * x == 1 * x);
    } else {
        assert(s.push(x).drop_first() =~= s.drop_first().push(x));
        assert(s.push(x)[0] == s[0]);
        assert(numel(s.push(x)) == s[0] as int * numel(s.drop_first().push(x)));
        lemma_numel_push(s.drop_first(), x);
        assert(s[0] as int * (numel(s.drop_first()) * x) == (s[0] as int * numel(s.drop_first()))
            * x) by {
            lemma_mul_is_associative(s[0] as int, numel(s.drop_first()), x as int);
        };
    }
}

/// The element count splits across any cut of the shape.
pub proof fn lemma_numel_split(s: Seq<i64>, j: int)
    requires
        0 <= j <= s.len(),
    ensures
        numel(s) == numel(s.take(j)) * numel(s.skip(j)),
    decreases s.len() - j,
{
    if j == s.len() {
        assert(s.take(j) =~= s);
        assert(s.skip(j) =~= Seq::<i64>::empty());
    } else {
        lemma_numel_split(s, j + 1);
        assert(s.take(j + 1) =~= s.take(j).push(s[j]));
        lemma_numel_push(s.take(j), s[j]);
        assert(s.skip(j).drop_first() =~= s.skip(j + 1));
        assert(s.skip(j)[0] == s[j]);
        assert((numel(s.take(j)) * s[j]) * numel(s.skip(j + 1)) == numel(s.take(j)) * (s[j] as int
            * numel(s.skip(j + 1)))) by {
            lemma_mul_is_associative(numel(s.take(j)), s[j] as int, numel(s.skip(j + 1)));
        };
    }
}

/// A shape with no zero dimension has a nonzero element count.
pub proof fn lemma_numel_nonzero(s: Seq<i64>)
    requires
        forall|i: int| 0 <= i < s.len() ==> s[i] != 0,
    ensures
        numel(s) != 0,
    decreases s.len(),
{
    if s.len() > 0 {
        assert forall|i: int| 0 <= i < s.drop_first().len() implies s.drop_first()[i] != 0 by {
            assert(s.drop_first()[i] == s[i + 1]);
        };
        lemma_numel_nonzero(s.drop_first());
        assert(s[0] as int * numel(s.drop_first()) != 0) by (nonlinear_arith)
            requires
                s[0] != 0,
                numel(s.drop_first()) != 0,
        ;
    }
}

/// The canonical serialized form of a tensor: its gradient-tracking flag,
/// placement, shape, element kind, and a row-major byte snapshot of its
/// elements in the machine's native layout.
#[derive(Debug, Clone, PartialEq, Eq)]
pub struct TensorRepr {
    pub requires_grad: bool,
    pub device: DeviceTag,
    pub shape: Vec<i64>,
    pub kind: ElementKind,
    pub data: Vec<u8>,
}

impl TensorRepr {
    /// The record's invariant: its kind has a byte width, and the payload
    /// holds exactly one element's bytes for each of `numel(shape)` elements.
    pub open spec fn wf(&self) -> bool {
        &&& kind_width(self.kind) is Some
        &&& self.data@.len() == numel(self.shape@) * kind_width(self.kind).unwrap()
    }

    /// Checks the record's invariant: the kind must have a byte width, and
    /// the payload's length must equal the element count times that width —
    /// one byte short or long is rejected, never truncated or padded.
    pub fn validate(&self) -> (r: Result<(), CodecError>)
        ensures
            r is Ok <==> self.wf(),
            match r {
                Ok(()) => self.wf(),
                Err(CodecError::UnsupportedKind(k)) => kind_width(self.kind) is None && k
                    == self.kind,
                Err(CodecError::MalformedTensorRecord { expected, actual }) => {
                    &&& kind_width(self.kind) is Some
                    &&& self.data@.len() != numel(self.shape@) * kind_width(self.kind).unwrap()
                    &&& expected as int == clamp_u64(
                        numel(self.shape@) * kind_width(self.kind).unwrap(),
                    )
                    &&& actual as int == self.data@.len()
                },
                Err(_) => false,
            },
    {
        let w: usize = match element_size(&self.kind) {
            Some(w) => w,
            None => {
                return Err(CodecError::UnsupportedKind(self.kind));
            },
        };
        proof {
            assert(1 <= w <= 8);
        }
        let ghost sh = self.shape@;
        let m = self.shape.len();
        let len = self.data.len();
        let mut i: usize = 0;
        while i < m
            invariant
                i <= m,
                m == sh.len(),
                sh == self.shape@,
                1 <= w <= 8,
                len == self.data@.len(),
                kind_width(self.kind) == Some(w as int),
                forall|k: int| 0 <= k < i ==> sh[k] != 0,
            decreases m - i,
        {
            if self.shape[i] == 0 {
                proof {
                    lemma_numel_split(sh, i as int);
                    assert(sh.skip(i as int).len() > 0);
                    assert(sh.skip(i as int)[0] == sh[i as int]);
                    assert(numel(sh.skip(i as int)) == sh[i as int] * numel(
                        sh.skip(i as int).drop_first(),
                    ));
                    assert(numel(sh.skip(i as int)) == 0);
                    assert(numel(sh) == numel(sh.take(i as int)) * 0);
                    assert(numel(sh) == 0);
                }
                if len == 0 {
                    return Ok(());
                } else {
                    return Err(
                        CodecError::MalformedTensorRecord { expected: 0, actual: len as u64 },
                    );
                }
            }
            i += 1;
        }
        let mut acc: u64 = 1;
        let mut neg = false;
        let mut j: usize = 0;
        while j < m
            invariant
                j <= m,
                m == sh.len(),
                sh == self.shape@,
                1 <= w <= 8,
                len == self.data@.len(),
                forall|k: int| 0 <= k < m ==> sh[k] != 0,
                1 <= acc,
                numel(sh.take(j as int)) == if neg {
                    -(acc as int)
                } else {
                    acc as int
                },
                kind_width(self.kind) == Some(w as int),
            decreases m - j,
        {
            let d = self.shape[j];
            let mag: u64 = if d >= 0 {
                d as u64
            } else {
                ((-(d + 1)) as u64) + 1
            };
            proof {
                assert(mag as int == if d >= 0 {
                    d as int
                } else {
                    -(d as int)
                });
                assert(mag >= 1);
                assert(acc as int * mag as int <= u128::MAX as int) by (nonlinear_arith)
                    requires
                        0 <= acc as int <= u64::MAX as int,
                        0 <= mag as int <= u64::MAX as int,
                ;
            }
            let wide: u128 = (acc as u128) * (mag as u128);
            let dneg = d < 0;
            proof {
                assert(wide as int >= 1) by (nonlinear_arith)
                    requires
                        wide as int == acc as int * mag as int,
                        acc as int >= 1,
                        mag as int >= 1,
                ;
                assert(sh.take(j as int + 1) =~= sh.take(j as int).push(sh[j as int]));
                lemma_numel_push(sh.take(j as int), sh[j as int]);
                assert(numel(sh.take(j as int + 1)) == if (neg != dneg) {
                    -(wide as int)
                } else {
                    wide as int
                }) by (nonlinear_arith)
                    requires
                        numel(sh.take(j as int + 1)) == numel(sh.take(j as int)) * (
                        sh[j as int] as int),
                        numel(sh.take(j as int)) == if neg {
                            -(acc as int)
                        } else {
                            acc as int
                        },
                        mag as int == if dneg {
                            -(sh[j as int] as int)
                        } else {
                            sh[j as int] as int
                        },
                        wide as int == acc as int * mag as int,
                ;
            }
            if wide > u64::MAX as u128 {
                // The element count is already past the `u64` range, so no
                // byte payload can match; only the sign of the full product
                // is still needed, for the saturated expected length.
                let mut neg2 = neg != dneg;
                let mut t: usize = j + 1;
                proof {
                    assert(numel(sh.take(t as int)) != 0);
                }
                while t < m
                    invariant
                        j + 1 <= t <= m,
                        m == sh.len(),
                        sh == self.shape@,
                        forall|k: int| 0 <= k < m ==> sh[k] != 0,
                        numel(sh.take(t as int)) != 0,
                        (numel(sh.take(t as int)) < 0) == neg2,
                    decreases m - t,
                {
                    let d2 = self.shape[t];
                    proof {
                        assert(sh.take(t as int + 1) =~= sh.take(t as int).push(sh[t as int]));
                        lemma_numel_push(sh.take(t as int), sh[t as int]);
                        assert(numel(sh.take(t as int + 1)) != 0 && ((numel(sh.take(t as int + 1))
                            < 0) == (neg2 != (d2 < 0)))) by (nonlinear_arith)
                            requires
                                numel(sh.take(t as int + 1)) == numel(sh.take(t as int)) * (
                                sh[t as int] as int),
                                numel(sh.take(t as int)) != 0,
                                (numel(sh.take(t as int)) < 0) == neg2,
                                d2 == sh[t as int],
                                d2 != 0,
                        ;
                    }
                    neg2 = neg2 != (d2 < 0);
                    t += 1;
                }
                proof {
                    assert(sh.take(m as int) =~= sh);
                    lemma_numel_split(sh, j as int + 1);
                    assert forall|k: int|
                        0 <= k < sh.skip(j as int + 1).len() implies #[trigger] sh.skip(
                        j as int + 1,
                    )[k] != 0 by {
                        assert(sh.skip(j as int + 1)[k] == sh[k + j + 1]);
                    };
                    lemma_numel_nonzero(sh.skip(j as int + 1));
                    assert(if neg2 {
                        numel(sh) <= -(wide as int)
                    } else {
                        numel(sh) >= wide as int
                    }) by (nonlinear_arith)
                        requires
                            numel(sh) == numel(sh.take(j as int + 1)) * numel(sh.skip(j as int + 1)),
                            numel(sh.take(j as int + 1)) == if (neg != dneg) {
                                -(wide as int)
                            } else {
                                wide as int
                            },
                            wide as int > 0,
                            numel(sh.skip(j as int + 1)) != 0,
                            (numel(sh) < 0) == neg2,
                    ;
                    if neg2 {
                        assert(numel(sh) * (w as int) < 0) by (nonlinear_arith)
                            requires
                                numel(sh) < 0,
                                w >= 1,
                        ;
                    } else {
                        assert(numel(sh) * (w as int) >= numel(sh)) by (nonlinear_arith)
                            requires
                                numel(sh) > 0,
                                w >= 1,
                        ;
                    }
                }
                if neg2 {
                    return Err(
                        CodecError::MalformedTensorRecord { expected: 0, actual: len as u64 },
                    );
                } else {
                    return Err(
                        CodecError::MalformedTensorRecord {
                            expected: u64::MAX,
                            actual: len as u64,
                        },
                    );
                }
            }
            acc = wide as u64;
            neg = neg != dneg;
            j += 1;
        }
        proof {
            assert(sh.take(m as int) =~= sh);
        }
        if neg {
            proof {
                assert(numel(sh) * (w as int) < 0) by (nonlinear_arith)
                    requires
                        numel(sh) < 0,
                        w >= 1,
                ;
            }
            return Err(CodecError::MalformedTensorRecord { expected: 0, actual: len as u64 });
        }
        proof {
            assert(acc as int * w as int <= u128::MAX as int) by (nonlinear_arith)
                requires
                    0 <= acc as int <= u64::MAX as int,
                    0 <= w as int <= 8,
            ;
        }
        let expected_wide: u128 = (acc as u128) * (w as u128);
        if expected_wide > u64::MAX as u128 {
            proof {
                assert(numel(sh) * (w as int) == expected_wide as int);
            }
            return Err(
                CodecError::MalformedTensorRecord { expected: u64::MAX, actual: len as u64 },
            );
        }
        let expected = expected_wide as u64;
        proof {
            assert(numel(sh) * (w as int) == expected as int);
        }
        if (len as u64) == expected {
            Ok(())
        } else {
            Err(CodecError::MalformedTensorRecord { expected, actual: len as u64 })
        }
    }

    /// Assembles and checks a record from a tensor's parts: the encode side
    /// hands it the queried flag, placement, shape and kind with the byte
    /// snapshot, and the decode side hands it the deserialized fields.  A
    /// kind without a byte width, or a payload whose length is not the
    /// element count times that width, is rejected.
    pub fn new(
        requires_grad: bool,
        device: DeviceTag,
        shape: Vec<i64>,
        kind: ElementKind,
        data: Vec<u8>,
    ) -> (r: Result<TensorRepr, CodecError>)
        ensures
            r is Ok <==> (kind_width(kind) is Some && data@.len() == numel(shape@) * kind_width(
                kind,
            ).unwrap()),
            match r {
                Ok(rec) => {
                    &&& rec.requires_grad == requires_grad
                    &&& rec.device == device
                    &&& rec.shape@ == shape@
                    &&& rec.kind == kind
                    &&& rec.data@ == data@
                    &&& rec.wf()
                },
                Err(CodecError::UnsupportedKind(k)) => kind_width(kind) is None && k == kind,
                Err(CodecError::MalformedTensorRecord { expected, actual }) => {
                    &&& kind_width(kind) is Some
                    &&& data@.len() != numel(shape@) * kind_width(kind).unwrap()
                    &&& expected as int == clamp_u64(numel(shape@) * kind_width(kind).unwrap())
                    &&& actual as int == data@.len()
                },
                Err(_) => false,
            },
    {
        let rec = TensorRepr { requires_grad, device, shape, kind, data };
        match rec.validate() {
            Ok(()) => Ok(rec),
            Err(e) => Err(e),
        }
    }
}

} // verus!
