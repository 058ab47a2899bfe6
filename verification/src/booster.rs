//! The shape of what a booster predicts.

use crate::error::Error;
use vstd::prelude::*;

verus! {

/// The shape of a prediction: for each row of the data and each class, a
/// number of values, which are the iterations (or the features and one more)
/// that the prediction was asked for.
#[derive(Copy, Clone, Debug, PartialEq, Eq, Structural)]
pub struct PredictionShape {
    num_data: usize,
    num_class: usize,
    num_2: usize,
}

/// What a prediction shape is: three counts.
pub struct PredictionShapeView {
    /// The number of rows of the data.
    pub num_data: nat,
    /// The number of classes.
    pub num_class: nat,
    /// The number of values for each row and class.
    pub num_2: nat,
}

impl PredictionShapeView {
    /// The number of values of a prediction of this shape.
    pub open spec fn len(self) -> nat {
        self.num_data * self.num_class * self.num_2
    }

    /// The counts of the shape and their products fit in `usize`.
    pub open spec fn wf(self) -> bool {
        &&& self.num_data * self.num_class <= usize::MAX
        &&& self.len() <= usize::MAX
    }

    /// (`data`, `class`, `iteration`) is a position of the prediction.
    pub open spec fn has(self, data: int, class: int, iteration: int) -> bool {
        &&& 0 <= data < self.num_data
        &&& 0 <= class < self.num_class
        &&& 0 <= iteration < self.num_2
    }

    /// The place of the value at (`data`, `class`, `iteration`) among the values.
    pub open spec fn offset(self, data: int, class: int, iteration: int) -> int {
        data * self.num_class * self.num_2 + class * self.num_2 + iteration
    }

    /// The place of every position lies among the values.
    pub proof fn lemma_offset_in_bounds(self, data: int, class: int, iteration: int)
        requires
            self.has(data, class, iteration),
        ensures
            0 <= self.offset(data, class, iteration) < self.len(),
            0 <= data * self.num_class <= data * self.num_class + class < self.num_data
                * self.num_class,
            self.num_data * self.num_class <= self.len(),
            0 <= data * self.num_class * self.num_2,
            0 <= class * self.num_2,
    {
        let c = self.num_class as int;
        let k = self.num_2 as int;
        let n = self.num_data as int;
        assert(0 <= data * c && data * c + c <= n * c) by (nonlinear_arith)
            requires
                0 <= data < n,
                0 <= c,
        ;
        assert(n * c <= n * c * k) by (nonlinear_arith)
            requires
                0 <= n * c,
                1 <= k,
        ;
        let row = data * c + class;
        assert(0 <= row * k && row * k + k <= (n * c) * k) by (nonlinear_arith)
            requires
                0 <= row < n * c,
                0 <= k,
        ;
        assert(row * k == data * c * k + class * k) by (nonlinear_arith)
            requires
                row == data * c + class,
        ;
        assert(0 <= data * c * k) by (nonlinear_arith)
            requires
                0 <= data * c,
                0 <= k,
        ;
        assert(0 <= class * k) by (nonlinear_arith)
            requires
                0 <= class,
                0 <= k,
        ;
    }
}

impl View for PredictionShape {
    type V = PredictionShapeView;

    closed spec fn view(&self) -> PredictionShapeView {
        PredictionShapeView {
            num_data: self.num_data as nat,
            num_class: self.num_class as nat,
            num_2: self.num_2 as nat,
        }
    }
}

/// The number of values for each row and class in `num_predict` values for
/// `num_data` rows and `num_class` classes: 1 where there is no row or no
/// class.
pub open spec fn per_row_and_class(num_predict: nat, num_data: nat, num_class: nat) -> nat {
    if num_data * num_class == 0 {
        1
    } else {
        num_predict / (num_data * num_class)
    }
}

impl PredictionShape {
    /// The shape of `num_2` values for each of `num_data` rows and `num_class`
    /// classes, if the number of all values fits in `usize`.
    pub fn new(num_data: usize, num_class: usize, num_2: usize) -> (made: Option<Self>)
        ensures
            made is Some <==> num_data * num_class <= usize::MAX && num_data * num_class * num_2
                <= usize::MAX,
            made matches Some(shape) ==> {
                &&& shape@.wf()
                &&& shape@.num_data == num_data
                &&& shape@.num_class == num_class
                &&& shape@.num_2 == num_2
            },
    {
        match num_data.checked_mul(num_class) {
            Some(rows) => match rows.checked_mul(num_2) {
                Some(_) => Some(PredictionShape { num_data, num_class, num_2 }),
                None => None,
            },
            None => None,
        }
    }

    /// The shape of `num_predict` values for `num_data` rows and `num_class`
    /// classes, if they divide evenly among the rows and classes. Where there
    /// is no row or no class, the shape counts one value for each row and
    /// class, and so holds none.
    pub fn from_num_predict(num_predict: usize, num_data: usize, num_class: usize) -> (made: Result<
        Self,
        Error,
    >)
        requires
            num_data * num_class <= usize::MAX,
        ensures
            made is Ok <==> num_data * num_class == 0 || (num_predict as int) % (num_data
                * num_class) as int == 0,
            made matches Ok(shape) ==> {
                &&& shape@.num_data == num_data
                &&& shape@.num_class == num_class
                &&& shape@.num_2 == per_row_and_class(
                    num_predict as nat,
                    num_data as nat,
                    num_class as nat,
                )
                &&& shape@.wf()
                &&& num_data * num_class != 0 ==> shape@.len() == num_predict
            },
            made is Err ==> made->Err_0 == Error::InvalidNumData,
    {
        let per_value = num_data * num_class;
        if per_value == 0 {
            proof {
                assert(num_data * num_class * 1 == 0) by (nonlinear_arith)
                    requires
                        num_data * num_class == 0,
                ;
            }
            return Ok(PredictionShape { num_data, num_class, num_2: 1 });
        }
        let num_2 = num_predict / num_class / num_data;
        proof {
            let p = num_predict as int;
            let c = num_class as int;
            let d = num_data as int;
            assert(c > 0 && d > 0) by (nonlinear_arith)
                requires
                    d * c != 0,
                    d >= 0,
                    c >= 0,
            ;
            vstd::arithmetic::div_mod::lemma_div_denominator(p, c, d);
            assert(c * d == d * c) by (nonlinear_arith);
            vstd::arithmetic::div_mod::lemma_fundamental_div_mod(p, d * c);
        }
        if per_value * num_2 != num_predict {
            return Err(Error::InvalidNumData);
        }
        Ok(PredictionShape { num_data, num_class, num_2 })
    }

    /// The number of rows of the data.
    pub fn num_data(&self) -> (n: usize)
        ensures
            n == self@.num_data,
    {
        self.num_data
    }

    /// The number of classes.
    pub fn num_class(&self) -> (n: usize)
        ensures
            n == self@.num_class,
    {
        self.num_class
    }

    /// The number of iterations, where the prediction holds one value for each.
    pub fn num_iteration(&self) -> (n: usize)
        ensures
            n == self@.num_2,
    {
        self.num_2
    }

    /// The number of features, where the prediction holds one value for each
    /// and one more.
    pub fn num_feature(&self) -> (n: usize)
        requires
            self@.num_2 > 0,
        ensures
            n == self@.num_2 - 1,
    {
        self.num_2 - 1
    }

    /// The number of values of a prediction of this shape.
    pub fn len(&self) -> (n: usize)
        requires
            self@.wf(),
        ensures
            n == self@.len(),
    {
        self.num_data * self.num_class * self.num_2
    }

    /// The place of the value at (`data`, `class`, `iteration`) among the
    /// values of a prediction of this shape, if `usize` can hold it. It can for
    /// every position of the prediction, and the place then lies among the
    /// values.
    pub fn offset(&self, data: usize, class: usize, iteration: usize) -> (index: Option<usize>)
        ensures
            index is Some <==> self@.offset(data as int, class as int, iteration as int)
                <= usize::MAX,
            index matches Some(i) ==> i == self@.offset(data as int, class as int, iteration as int),
            self@.wf() && self@.has(data as int, class as int, iteration as int) ==> index is Some
                && index->Some_0 < self@.len(),
    {
        let ghost c = self.num_class as int;
        let ghost k = self.num_2 as int;
        proof {
            if self@.has(data as int, class as int, iteration as int) {
                self@.lemma_offset_in_bounds(data as int, class as int, iteration as int);
            }
            assert(0 <= data * c) by (nonlinear_arith)
                requires
                    0 <= data,
                    0 <= c,
            ;
            assert(0 <= data * c * k) by (nonlinear_arith)
                requires
                    0 <= data * c,
                    0 <= k,
            ;
            assert(0 <= class * k) by (nonlinear_arith)
                requires
                    0 <= class,
                    0 <= k,
            ;
            if k > 0 {
                assert(data * c <= data * c * k) by (nonlinear_arith)
                    requires
                        0 <= data * c,
                        1 <= k,
                ;
            } else {
                assert(data * c * k == 0 && class * k == 0) by (nonlinear_arith)
                    requires
                        k == 0,
                ;
            }
        }
        if self.num_2 == 0 {
            return Some(iteration);
        }
        let rows = match data.checked_mul(self.num_class) {
            Some(rows) => rows,
            None => {
                return None;
            },
        };
        let before = match rows.checked_mul(self.num_2) {
            Some(before) => before,
            None => {
                return None;
            },
        };
        let within = match class.checked_mul(self.num_2) {
            Some(within) => within,
            None => {
                return None;
            },
        };
        let start = match before.checked_add(within) {
            Some(start) => start,
            None => {
                return None;
            },
        };
        start.checked_add(iteration)
    }
}

} // verus!
