//! Copies and comparisons that are exact on the deep view of a value.

use crate::text::same_text;
use vstd::prelude::*;

verus! {

/// Values that can be copied without changing what they hold.
pub trait Replica: DeepView + Sized {
    fn replica(&self) -> (r: Self)
        ensures
            r.deep_view() == self.deep_view(),
    ;
}

/// Values whose contents can be compared.
pub trait Same: DeepView {
    fn same(&self, other: &Self) -> (r: bool)
        ensures
            r == (self.deep_view() == other.deep_view()),
    ;
}

impl Replica for String {
    fn replica(&self) -> (r: Self) {
        self.clone()
    }
}

impl Same for String {
    fn same(&self, other: &Self) -> (r: bool) {
        same_text(self.as_str(), other.as_str())
    }
}

impl Replica for bool {
    fn replica(&self) -> (r: Self) {
        *self
    }
}

impl Same for bool {
    fn same(&self, other: &Self) -> (r: bool) {
        *self == *other
    }
}

impl Replica for u8 {
    fn replica(&self) -> (r: Self) {
        *self
    }
}

impl Replica for u32 {
    fn replica(&self) -> (r: Self) {
        *self
    }
}

impl Replica for i32 {
    fn replica(&self) -> (r: Self) {
        *self
    }
}

impl Same for i32 {
    fn same(&self, other: &Self) -> (r: bool) {
        *self == *other
    }
}

impl Replica for u128 {
    fn replica(&self) -> (r: Self) {
        *self
    }
}

impl Replica for u64 {
    fn replica(&self) -> (r: Self) {
        *self
    }
}

impl Same for u64 {
    fn same(&self, other: &Self) -> (r: bool) {
        *self == *other
    }
}

impl Replica for usize {
    fn replica(&self) -> (r: Self) {
        *self
    }
}

impl Same for usize {
    fn same(&self, other: &Self) -> (r: bool) {
        *self == *other
    }
}

impl<T: Replica> Replica for Option<T> {
    fn replica(&self) -> (r: Self) {
        match self {
            Some(value) => Some(value.replica()),
            None => None,
        }
    }
}

impl<T: Same> Same for Option<T> {
    fn same(&self, other: &Self) -> (r: bool) {
        match (self, other) {
            (Some(a), Some(b)) => a.same(b),
            (None, None) => true,
            _ => false,
        }
    }
}

impl<T: Replica> Replica for Vec<T> {
    fn replica(&self) -> (r: Self) {
        let mut r: Vec<T> = Vec::new();
        for i in 0..self.len()
            invariant
                r.deep_view() == self.deep_view().take(i as int),
        {
            let ghost before = r.deep_view();
            r.push(self[i].replica());
            assert(r.deep_view() =~= before.push(self.deep_view()[i as int]));
            assert(self.deep_view().take(i + 1) =~= self.deep_view().take(i as int).push(
                self.deep_view()[i as int],
            ));
        }
        assert(self.deep_view().take(self.len() as int) =~= self.deep_view());
        r
    }
}

impl<T: Same> Same for Vec<T> {
    fn same(&self, other: &Self) -> (r: bool) {
        if self.len() != other.len() {
            assert(self.deep_view().len() != other.deep_view().len());
            return false;
        }
        for i in 0..self.len()
            invariant
                self.len() == other.len(),
                forall|j: int| 0 <= j < i ==> #[trigger] self.deep_view()[j] == other.deep_view()[j],
        {
            if !self[i].same(&other[i]) {
                assert(self.deep_view()[i as int] != other.deep_view()[i as int]);
                return false;
            }
        }
        assert(self.deep_view() =~= other.deep_view());
        true
    }
}

/// What a result holds.
pub open spec fn outcome_of<T: DeepView, E: DeepView>(result: Result<T, E>) -> Result<T::V, E::V> {
    match result {
        Ok(value) => Ok(value.deep_view()),
        Err(error) => Err(error.deep_view()),
    }
}

} // verus!
