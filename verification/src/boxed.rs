use vstd::prelude::*;

verus! {

/// `Vec::into_boxed_slice`: the boxed slice holds the vector's elements, in order.
#[verifier::external_body]
fn vec_into_boxed_slice<T>(v: Vec<T>) -> (res: Box<[T]>)
    ensures
        res@ == v@,
{
    v.into_boxed_slice()
}

/// `x` could be a copy of the value that `T::default()` returns.
pub open spec fn is_default_value<T: Default + Clone>(x: T) -> bool {
    exists|d: T| T::default.ensures((), d) && cloned(d, x)
}

/// A boxed slice of `size` elements, each one the default value of `T`.
pub fn boxed_slice<T: Copy + Default>(size: usize) -> (res: Box<[T]>)
    ensures
        res@.len() == size,
        forall|i: int| 0 <= i < size ==> is_default_value(#[trigger] res@[i]),
{
    let mut v = Vec::<T>::with_capacity(size);
    let d = T::default();
    v.resize(size, d);
    assert forall|i: int| 0 <= i < size implies is_default_value(#[trigger] v@[i]) by {
        assert(T::default.ensures((), d) && cloned(d, v@[i]));
    }
    vec_into_boxed_slice(v)
}

/// `size` zero bytes.
pub open spec fn zeros_u8(size: nat) -> Seq<u8> {
    Seq::new(size, |i: int| 0u8)
}

/// `size` zero addresses.
pub open spec fn zeros_usize(size: nat) -> Seq<usize> {
    Seq::new(size, |i: int| 0usize)
}

/// A boxed slice of `size` zero counters.
pub fn zeroed_counters(size: usize) -> (res: Box<[u8]>)
    ensures
        res@ == zeros_u8(size as nat),
{
    let r = boxed_slice::<u8>(size);
    assert forall|i: int| 0 <= i < size implies r@[i] == 0u8 by {
        let d = choose|d: u8| u8::default.ensures((), d) && cloned(d, r@[i]);
        assert(d == 0);
    }
    assert(r@ =~= zeros_u8(size as nat));
    r
}

/// A boxed slice of `size` zero addresses.
pub fn zeroed_addresses(size: usize) -> (res: Box<[usize]>)
    ensures
        res@ == zeros_usize(size as nat),
{
    let r = boxed_slice::<usize>(size);
    assert forall|i: int| 0 <= i < size implies r@[i] == 0usize by {
        let d = choose|d: usize| usize::default.ensures((), d) && cloned(d, r@[i]);
        assert(d == 0);
    }
    assert(r@ =~= zeros_usize(size as nat));
    r
}

} // verus!
