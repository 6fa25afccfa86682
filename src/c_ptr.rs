use vstd::prelude::*;

verus! {

/// A read-only address received across the C boundary.
///
/// A handle is either null, or the start of a run of elements that the code
/// handing it over vouches for: its view is `None` for a null address and
/// `Some(elems)` otherwise, `elems` being every element that may be read
/// through it. Nothing here checks that claim; it is the caller's contract.
pub struct ConstPtr<'a, T> {
    target: Option<&'a [T]>,
}

impl<'a, T> View for ConstPtr<'a, T> {
    type V = Option<Seq<T>>;

    closed spec fn view(&self) -> Option<Seq<T>> {
        match self.target {
            Some(s) => Some(s@),
            None => None,
        }
    }
}

impl<'a, T> ConstPtr<'a, T> {
    /// The null address.
    pub fn null() -> (r: Self)
        ensures
            r@ is None,
    {
        ConstPtr { target: None }
    }

    /// The address of the first element of `elems`, vouched for up to the
    /// end of `elems`.
    pub fn from_slice(elems: &'a [T]) -> (r: Self)
        ensures
            r@ == Some(elems@),
    {
        ConstPtr { target: Some(elems) }
    }

    pub fn is_null(&self) -> (r: bool)
        ensures
            r <==> self@ is None,
    {
        self.target.is_none()
    }

    /// A view of exactly `len` elements starting at the address, or `None`
    /// exactly for a null address with a length above zero, which breaches
    /// the caller's contract; a null address with length zero gives an empty
    /// view.
    pub fn checked_slice(self, len: usize) -> (r: Option<&'a [T]>)
        requires
            self@ matches Some(e) ==> len <= e.len(),
        ensures
            r is None <==> (self@ is None && len > 0),
            r matches Some(v) ==> (self@ is None ==> v@ == Seq::<T>::empty()),
            r matches Some(v) ==> (self@ matches Some(e) ==> v@ == e.subrange(0, len as int)),
    {
        if self.is_null() && len > 0 {
            None
        } else {
            Some(self.as_slice(len))
        }
    }

    /// Every element vouched for behind a non-null handle.
    pub(crate) fn reachable(self) -> (r: &'a [T])
        requires
            self@ is Some,
        ensures
            self@ == Some(r@),
    {
        match self.target {
            Some(s) => s,
            None => &[],
        }
    }
}

/// A writable address received across the C boundary.
///
/// The code handing it over vouches for the elements behind it, as for
/// [`ConstPtr`], and also that nothing else reads or writes them while the
/// handle, or anything made from it, is in use.
pub struct MutPtr<'a, T> {
    target: Option<&'a mut [T]>,
}

impl<'a, T> MutPtr<'a, T> {
    /// The elements behind the handle, borrowed for its lifetime: `None` for
    /// a null address.
    pub closed spec fn region(&self) -> Option<&'a mut [T]> {
        self.target
    }

    /// The null address.
    pub fn null() -> (r: Self)
        ensures
            r.region() is None,
    {
        MutPtr { target: None }
    }

    /// The address of the first element of `elems`, vouched for up to the
    /// end of `elems`. What is written through the handle lands in `elems`.
    pub fn from_slice(elems: &'a mut [T]) -> (r: Self)
        ensures
            r.region() matches Some(m) && m@ == old(elems)@ && final(m)@ == final(elems)@,
    {
        MutPtr { target: Some(elems) }
    }

    pub fn is_null(&self) -> (r: bool)
        ensures
            r <==> self.region() is None,
    {
        self.target.is_none()
    }
}

/// An address that is never null; the elements behind it are vouched for as
/// for [`MutPtr`].
pub struct NonNullPtr<'a, T> {
    target: &'a mut [T],
}

impl<'a, T> NonNullPtr<'a, T> {
    /// The elements behind the handle, borrowed for its lifetime.
    pub closed spec fn region(&self) -> &'a mut [T] {
        self.target
    }

    /// `None` for a null address, else the same address as a non-null
    /// handle.
    pub fn new(ptr: MutPtr<'a, T>) -> (r: Option<Self>)
        ensures
            ptr.region() is None <==> r is None,
            ptr.region() matches Some(m) ==> (r matches Some(n) && n.region()@ == m@
                && final(n.region())@ == final(m)@),
    {
        match ptr.target {
            Some(s) => Some(NonNullPtr { target: s }),
            None => None,
        }
    }
}

/// Reading one element through a read-only handle.
pub trait SafePointers<'a, T>: Sized {
    /// What may be read through the handle: `None` for a null address.
    spec fn pointee(&self) -> Option<Seq<T>>;

    /// `None` for a null address, else the element at the address.
    fn as_ref_safe(self) -> (r: Option<&'a T>)
        requires
            self.pointee() matches Some(e) ==> e.len() >= 1,
        ensures
            self.pointee() is None ==> r is None,
            self.pointee() matches Some(e) ==> (r matches Some(x) && *x == e[0]),
    ;

    /// The element at the address; a null address is a breach of the
    /// caller's contract.
    fn as_ref_unwrap(self) -> (r: &'a T)
        requires
            self.pointee() matches Some(e) && e.len() >= 1,
        ensures
            *r == self.pointee()->0[0],
    ;
}

impl<'a, T> SafePointers<'a, T> for ConstPtr<'a, T> {
    open spec fn pointee(&self) -> Option<Seq<T>> {
        self@
    }

    fn as_ref_safe(self) -> (r: Option<&'a T>) {
        match self.target {
            Some(s) => Some(&s[0]),
            None => None,
        }
    }

    fn as_ref_unwrap(self) -> (r: &'a T) {
        let s = self.reachable();
        &s[0]
    }
}

/// Reaching one element through a writable handle.
pub trait SafePointersMut<'a, T>: Sized {
    /// The elements behind the handle: `None` for a null address.
    spec fn region(&self) -> Option<&'a mut [T]>;

    /// `None` for a null address, else the element at the address; what is
    /// written through the result lands there.
    fn as_mut_safe(self) -> (r: Option<&'a mut T>)
        requires
            self.region() matches Some(m) ==> m@.len() >= 1,
        ensures
            self.region() is None ==> r is None,
            self.region() matches Some(m) ==> (r matches Some(x) && *x == m@[0] && final(m)@
                == m@.update(0, *final(x))),
    ;

    /// The element at the address; a null address is a breach of the
    /// caller's contract.
    fn as_mut_unwrap(self) -> (r: &'a mut T)
        requires
            self.region() matches Some(m) && m@.len() >= 1,
        ensures
            self.region() matches Some(m) && *r == m@[0] && final(m)@ == m@.update(0, *final(r)),
    ;
}

impl<'a, T> SafePointersMut<'a, T> for MutPtr<'a, T> {
    open spec fn region(&self) -> Option<&'a mut [T]> {
        MutPtr::region(self)
    }

    fn as_mut_safe(self) -> (r: Option<&'a mut T>) {
        match self.target {
            Some(s) => s.first_mut(),
            None => None,
        }
    }

    fn as_mut_unwrap(self) -> (r: &'a mut T) {
        match self.target {
            Some(s) => s.first_mut().unwrap(),
            None => {
                // excluded: the handle is not null
                let empty: Option<&'a mut T> = None;
                empty.unwrap()
            },
        }
    }
}

/// A view over a run of elements behind a read-only handle.
pub trait SafePointerSlices<'a, T>: Sized {
    /// What may be read through the handle: `None` for a null address.
    spec fn pointee(&self) -> Option<Seq<T>>;

    /// A view of exactly `len` elements starting at the address. A null
    /// address stands only for an empty view; with a null address and a
    /// length above zero the caller's contract is breached.
    fn as_slice(self, len: usize) -> (r: &'a [T])
        requires
            self.pointee() is None ==> len == 0,
            self.pointee() matches Some(e) ==> len <= e.len(),
        ensures
            self.pointee() is None ==> r@ == Seq::<T>::empty(),
            self.pointee() matches Some(e) ==> r@ == e.subrange(0, len as int),
    ;
}

impl<'a, T> SafePointerSlices<'a, T> for ConstPtr<'a, T> {
    open spec fn pointee(&self) -> Option<Seq<T>> {
        self@
    }

    fn as_slice(self, len: usize) -> (r: &'a [T]) {
        match self.target {
            Some(s) => &s[0..len],
            None => &[],
        }
    }
}

/// A writable view over a run of elements behind a writable handle.
pub trait SafePointerSlicesMut<'a, T>: Sized {
    /// The elements behind the handle: `None` for a null address.
    spec fn region(&self) -> Option<&'a mut [T]>;

    /// A writable view of exactly `len` elements starting at the address:
    /// what is written through it lands in the first `len` elements, and the
    /// rest stay as they were. A null address stands only for an empty view.
    fn as_slice_mut(self, len: usize) -> (r: &'a mut [T])
        requires
            self.region() is None ==> len == 0,
            self.region() matches Some(m) ==> len <= m@.len(),
        ensures
            self.region() is None ==> r@ == Seq::<T>::empty(),
            self.region() matches Some(m) ==> r@ == m@.subrange(0, len as int)
                && final(m)@ == final(r)@ + m@.subrange(len as int, m@.len() as int),
    ;
}

impl<'a, T> SafePointerSlicesMut<'a, T> for MutPtr<'a, T> {
    open spec fn region(&self) -> Option<&'a mut [T]> {
        MutPtr::region(self)
    }

    fn as_slice_mut(self, len: usize) -> (r: &'a mut [T]) {
        match self.target {
            Some(s) => {
                let (head, _rest) = s.split_at_mut(len);
                head
            },
            None => &mut [],
        }
    }
}

/// Reaching the element at an address that is never null.
pub trait SafePointerNonNull<'a, T>: Sized {
    /// The elements behind the handle.
    spec fn region(&self) -> &'a mut [T];

    /// The element at the address, read-only; nothing behind it changes.
    fn as_ref_unwrap(self) -> (r: &'a T)
        requires
            self.region()@.len() >= 1,
        ensures
            *r == self.region()@[0],
            final(self.region())@ == self.region()@,
    ;

    /// The element at the address; what is written through the result lands
    /// there.
    fn as_mut_unwrap(self) -> (r: &'a mut T)
        requires
            self.region()@.len() >= 1,
        ensures
            *r == self.region()@[0],
            final(self.region())@ == self.region()@.update(0, *final(r)),
    ;

    /// The same address as a writable handle, which is never null.
    fn as_ptr_unwrap(self) -> (r: MutPtr<'a, T>)
        ensures
            r.region() matches Some(m) && m@ == self.region()@
                && final(m)@ == final(self.region())@,
    ;
}

impl<'a, T> SafePointerNonNull<'a, T> for NonNullPtr<'a, T> {
    open spec fn region(&self) -> &'a mut [T] {
        NonNullPtr::region(self)
    }

    fn as_ref_unwrap(self) -> (r: &'a T) {
        let s: &'a [T] = self.target;
        &s[0]
    }

    fn as_mut_unwrap(self) -> (r: &'a mut T) {
        self.target.first_mut().unwrap()
    }

    fn as_ptr_unwrap(self) -> (r: MutPtr<'a, T>) {
        MutPtr { target: Some(self.target) }
    }
}

} // verus!
