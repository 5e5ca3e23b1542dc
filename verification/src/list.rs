//! Immutable lists. The statements of the control-flow graph are plain
//! values: their lists are these, and equal exactly when their elements are.

use vstd::prelude::*;

verus! {

pub enum List<T> {
    Nil,
    Cons(T, Box<List<T>>),
}

impl<T> List<T> {
    /// The elements, from the head on.
    pub open spec fn view(&self) -> Seq<T>
        decreases self,
    {
        match self {
            List::Nil => Seq::empty(),
            List::Cons(x, rest) => seq![*x] + rest.view(),
        }
    }

    /// The list of the elements of a sequence.
    pub open spec fn of(s: Seq<T>) -> List<T>
        decreases s.len(),
    {
        if s.len() == 0 {
            List::Nil
        } else {
            List::Cons(s[0], Box::new(List::of(s.skip(1))))
        }
    }

    pub proof fn lemma_of_view(s: Seq<T>)
        ensures
            List::of(s)@ == s,
        decreases s.len(),
    {
        if s.len() > 0 {
            List::lemma_of_view(s.skip(1));
            assert(seq![s[0]] + s.skip(1) =~= s);
        } else {
            assert(s =~= Seq::<T>::empty());
        }
    }

    pub proof fn lemma_view_of(&self)
        ensures
            List::of(self@) == *self,
        decreases self,
    {
        match self {
            List::Nil => {},
            List::Cons(x, rest) => {
                rest.lemma_view_of();
                assert(self@.skip(1) =~= rest@);
            },
        }
    }

    pub fn nil() -> (l: List<T>)
        ensures
            l == List::<T>::Nil,
            l@ == Seq::<T>::empty(),
    {
        List::Nil
    }

    pub fn cons(x: T, rest: List<T>) -> (l: List<T>)
        ensures
            l == List::Cons(x, Box::new(rest)),
            l@ == seq![x] + rest@,
    {
        List::Cons(x, Box::new(rest))
    }

    pub fn is_empty(&self) -> (b: bool)
        ensures
            b == (self@.len() == 0),
            b == (*self == List::<T>::Nil),
    {
        match self {
            List::Nil => true,
            List::Cons(_, _) => false,
        }
    }
}

impl<T> List<T> {
    /// The list of the elements of a vector, in order; the vector is used
    /// up.
    pub fn from_vec_owned(v: Vec<T>) -> (l: List<T>)
        ensures
            l == List::of(v@),
            l@ == v@,
    {
        let mut v = v;
        let ghost all = v@;
        let mut l: List<T> = List::Nil;
        assert(all.skip(all.len() as int) =~= Seq::<T>::empty());
        while v.len() > 0
            invariant
                v@ == all.take(v@.len() as int),
                v@.len() <= all.len(),
                l == List::of(all.skip(v@.len() as int)),
            decreases v.len(),
        {
            let ghost n = v@.len();
            let x = v.pop().unwrap();
            proof {
                assert(x == all[n - 1]);
                assert(all.skip(n - 1).skip(1) =~= all.skip(n as int));
                assert(all.skip(n - 1)[0] == all[n - 1]);
                assert(v@ =~= all.take(n - 1));
            }
            l = List::Cons(x, Box::new(l));
        }
        proof {
            assert(all.skip(0) =~= all);
            List::lemma_of_view(all);
        }
        l
    }
}

impl<T: Copy> List<T> {
    /// The list of the elements of a vector, in order.
    pub fn from_vec(v: &Vec<T>) -> (l: List<T>)
        ensures
            l == List::of(v@),
            l@ == v@,
    {
        let mut l: List<T> = List::Nil;
        let mut i: usize = v.len();
        assert(v@.skip(i as int) =~= Seq::<T>::empty());
        while i > 0
            invariant
                i <= v.len(),
                l == List::of(v@.skip(i as int)),
            decreases i,
        {
            i -= 1;
            proof {
                assert(v@.skip(i as int).skip(1) =~= v@.skip(i + 1));
                assert(v@.skip(i as int)[0] == v@[i as int]);
            }
            l = List::Cons(v[i], Box::new(l));
        }
        proof {
            assert(v@.skip(0) =~= v@);
            List::lemma_of_view(v@);
        }
        l
    }

    /// Appends the elements to a vector, in order.
    pub fn extend_vec(&self, v: &mut Vec<T>)
        ensures
            final(v)@ == old(v)@ + self@,
        decreases self,
    {
        match self {
            List::Nil => {
                assert(v@ + self@ =~= v@);
            },
            List::Cons(x, rest) => {
                v.push(*x);
                rest.extend_vec(v);
                assert(old(v)@.push(*x) + rest@ =~= old(v)@ + self@);
            },
        }
    }

    /// The elements as a vector, in order.
    pub fn to_vec(&self) -> (v: Vec<T>)
        ensures
            v@ == self@,
    {
        let mut v: Vec<T> = Vec::new();
        self.extend_vec(&mut v);
        assert(Seq::<T>::empty() + self@ =~= self@);
        v
    }
}

} // verus!
