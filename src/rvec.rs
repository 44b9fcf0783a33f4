use vstd::prelude::*;

use crate::error::AlienResult;

verus! {

/// Data that crosses domain boundaries and is owned by one domain at a time.
pub trait SharedData {
    /// The identity of the owning domain.
    spec fn owner(&self) -> u64;

    /// Hands the data to `new_domain_id` and returns the previous owner.
    fn move_to(&mut self, new_domain_id: u64) -> (r: u64)
        ensures
            r == old(self).owner(),
            final(self).owner() == new_domain_id;
}

/// A fixed-size vector on the shared heap, owned by one domain.
#[derive(Debug)]
pub struct RRefVec<T> {
    data: Vec<T>,
    domain_id: u64,
}

impl<T> View for RRefVec<T> {
    type V = Seq<T>;

    closed spec fn view(&self) -> Seq<T> {
        self.data@
    }
}

impl<T: Copy> RRefVec<T> {
    /// `size` copies of `initial_value`, owned by `domain_id`.
    pub fn new(initial_value: T, size: usize, domain_id: u64) -> (r: Self)
        ensures
            r@ == Seq::new(size as nat, |i: int| initial_value),
            r.owner() == domain_id,
    {
        let mut data: Vec<T> = Vec::new();
        let mut i: usize = 0;
        while i < size
            invariant
                i <= size,
                data@ == Seq::new(i as nat, |j: int| initial_value),
            decreases size - i,
        {
            data.push(initial_value);
            i = i + 1;
        }
        RRefVec { data, domain_id }
    }

    /// A copy of `slice`, owned by `domain_id`.
    pub fn from_slice(slice: &[T], domain_id: u64) -> (r: Self)
        ensures
            r@ == slice@,
            r.owner() == domain_id,
    {
        let mut data: Vec<T> = Vec::new();
        let mut i: usize = 0;
        while i < slice.len()
            invariant
                i <= slice@.len(),
                data@ == slice@.take(i as int),
            decreases slice@.len() - i,
        {
            data.push(slice[i]);
            i = i + 1;
            assert(data@ =~= slice@.take(i as int));
        }
        assert(slice@.take(i as int) =~= slice@);
        RRefVec { data, domain_id }
    }

    pub fn as_slice(&self) -> (r: &[T])
        ensures
            r@ == self@,
    {
        self.data.as_slice()
    }

    pub fn as_mut_slice(&mut self) -> (r: &mut [T])
        ensures
            r@ == old(self)@,
            final(self)@ == final(r)@,
            final(self).owner() == old(self).owner(),
    {
        self.data.as_mut_slice()
    }

    /// The element at `index`.
    pub fn index(&self, index: usize) -> (r: &T)
        requires
            index < self@.len(),
        ensures
            *r == self@[index as int],
    {
        &self.data[index]
    }

    /// Overwrites the element at `index`.
    pub fn set(&mut self, index: usize, value: T)
        requires
            index < old(self)@.len(),
        ensures
            final(self)@ == old(self)@.update(index as int, value),
            final(self).owner() == old(self).owner(),
    {
        self.data.set(index, value);
    }

    pub fn size(&self) -> (r: usize)
        ensures
            r == self@.len(),
    {
        self.data.len()
    }

    pub fn len(&self) -> (r: usize)
        ensures
            r == self@.len(),
    {
        self.data.len()
    }

    pub fn is_empty(&self) -> (r: bool)
        ensures
            r == (self@.len() == 0),
    {
        self.data.len() == 0
    }
}

impl<T> SharedData for RRefVec<T> {
    closed spec fn owner(&self) -> u64 {
        self.domain_id
    }

    fn move_to(&mut self, new_domain_id: u64) -> (r: u64) {
        let previous = self.domain_id;
        self.domain_id = new_domain_id;
        previous
    }
}

/// Gives an argument to the callee `callee_id` for the duration of a call
/// and returns the caller's identity, to give the result back with
/// [`return_to_caller`].
pub fn lend_to_callee<A: SharedData>(arg: &mut A, callee_id: u64) -> (caller_id: u64)
    ensures
        caller_id == old(arg).owner(),
        final(arg).owner() == callee_id,
{
    arg.move_to(callee_id)
}

/// Hands the data in a successful result back to `caller_id`; an error
/// passes through unchanged.
pub fn return_to_caller<T: SharedData>(result: AlienResult<T>, caller_id: u64) -> (r: AlienResult<T>)
    ensures
        r is Ok <==> result is Ok,
        r is Ok ==> r->Ok_0.owner() == caller_id,
        r is Err ==> r == result,
{
    match result {
        Ok(mut data) => {
            data.move_to(caller_id);
            Ok(data)
        },
        Err(e) => Err(e),
    }
}

} // verus!
