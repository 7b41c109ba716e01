use vstd::prelude::*;

verus! {

/// The physical type of a primitive array.
#[derive(Debug, Clone, Copy, PartialEq, Eq, Structural)]
pub enum ArrayKind {
    Int16,
    Int32,
    Int64,
}

/// The item type of a primitive array.
pub trait PrimitiveArrayItemType: Copy + Sized {
    /// The kind of array that holds items of this type.
    spec fn kind() -> ArrayKind;

    /// The item as an integer.
    spec fn int_value(self) -> int;

    /// The value stored in the slot of a null.
    fn default_value() -> (r: Self)
        ensures
            r.int_value() == 0,
    ;

    /// A helper to convert a primitive array to `ArrayImpl`.
    fn erase_array_type(arr: PrimitiveArray<Self>) -> (r: ArrayImpl)
        ensures
            r.kind() == Self::kind(),
            r.values() == arr@.map_values(|o: Option<Self>| match o {
                Some(v) => Some(v.int_value()),
                None => None,
            }),
    ;
}

/// The items of a bitmap and data pair: the data where the bit is set, null elsewhere.
pub open spec fn masked<T>(bitmap: Seq<bool>, data: Seq<T>) -> Seq<Option<T>> {
    Seq::new(bitmap.len(), |i: int| if bitmap[i] { Some(data[i]) } else { None })
}

/// A column of primitive values, any of which may be null.
#[derive(Debug)]
pub struct PrimitiveArray<T> {
    bitmap: Vec<bool>,
    data: Vec<T>,
}

/// Builds a `PrimitiveArray` from `Option`s.
#[derive(Debug)]
pub struct PrimitiveArrayBuilder<T> {
    bitmap: Vec<bool>,
    data: Vec<T>,
}

/// Building a primitive array never fails: every function here that returns
/// it promises `Ok`. It keeps the builder's signatures those of builders
/// that can fail.
#[derive(Debug, Clone, Copy, PartialEq, Eq)]
pub struct ArrayError;

/// A primitive array of any supported kind.
#[derive(Debug)]
pub enum ArrayImpl {
    Int16(PrimitiveArray<i16>),
    Int32(PrimitiveArray<i32>),
    Int64(PrimitiveArray<i64>),
}

impl<T> View for PrimitiveArray<T> {
    type V = Seq<Option<T>>;

    closed spec fn view(&self) -> Seq<Option<T>> {
        masked(self.bitmap@, self.data@)
    }
}

impl<T> View for PrimitiveArrayBuilder<T> {
    type V = Seq<Option<T>>;

    closed spec fn view(&self) -> Seq<Option<T>> {
        masked(self.bitmap@, self.data@)
    }
}

impl<T> PrimitiveArray<T> {
    #[verifier::type_invariant]
    closed spec fn inv(self) -> bool {
        self.bitmap@.len() == self.data@.len()
    }
}

impl<T: PrimitiveArrayItemType> PrimitiveArray<T> {
    /// The array holding `data` in order.
    pub fn from_slice(data: &[Option<T>]) -> (r: Result<Self, ArrayError>)
        ensures
            r matches Ok(a) && a@ == data@,
    {
        let mut builder = match PrimitiveArrayBuilder::<T>::new(data.len()) {
            Ok(b) => b,
            Err(e) => {
                return Err(e);
            },
        };
        let mut i: usize = 0;
        while i < data.len()
            invariant
                i <= data@.len(),
                builder.wf(),
                builder@ == data@.take(i as int),
            decreases data@.len() - i,
        {
            match builder.append(data[i]) {
                Ok(()) => {},
                Err(e) => {
                    return Err(e);
                },
            }
            i = i + 1;
            assert(data@.take(i as int) =~= data@.take(i - 1).push(data@[i - 1]));
        }
        assert(data@.take(data@.len() as int) =~= data@);
        builder.finish()
    }

    /// The item at `idx`.
    pub fn value_at(&self, idx: usize) -> (r: Option<T>)
        requires
            idx < self@.len(),
        ensures
            r == self@[idx as int],
    {
        proof {
            use_type_invariant(self);
        }
        if self.bitmap[idx] {
            Some(self.data[idx])
        } else {
            None
        }
    }

    /// Whether the item at `idx` is null.
    pub fn is_null(&self, idx: usize) -> (r: bool)
        requires
            idx < self@.len(),
        ensures
            r == self@[idx as int] is None,
    {
        proof {
            use_type_invariant(self);
        }
        !self.bitmap[idx]
    }

    /// The number of items.
    pub fn len(&self) -> (r: usize)
        ensures
            r == self@.len(),
    {
        proof {
            use_type_invariant(self);
        }
        self.data.len()
    }
}

impl<T> PrimitiveArrayBuilder<T> {
    pub closed spec fn wf(self) -> bool {
        self.bitmap@.len() == self.data@.len()
    }
}

impl<T: PrimitiveArrayItemType> PrimitiveArrayBuilder<T> {
    /// An empty builder with room for `capacity` items.
    pub fn new(capacity: usize) -> (r: Result<Self, ArrayError>)
        ensures
            r matches Ok(b) && b@.len() == 0 && b.wf(),
    {
        let b = PrimitiveArrayBuilder { bitmap: Vec::with_capacity(capacity), data: Vec::with_capacity(capacity) };
        assert(b@ =~= Seq::<Option<T>>::empty());
        Ok(b)
    }

    /// Appends one item.
    pub fn append(&mut self, value: Option<T>) -> (r: Result<(), ArrayError>)
        requires
            old(self).wf(),
        ensures
            r is Ok,
            final(self).wf(),
            final(self)@ == old(self)@.push(value),
    {
        match value {
            Some(x) => {
                self.bitmap.push(true);
                self.data.push(x);
            },
            None => {
                self.bitmap.push(false);
                self.data.push(T::default_value());
            },
        }
        assert(self@ =~= old(self)@.push(value));
        Ok(())
    }

    /// Appends every item of `other`, in order.
    pub fn append_array(&mut self, other: &PrimitiveArray<T>) -> (r: Result<(), ArrayError>)
        requires
            old(self).wf(),
        ensures
            r is Ok,
            final(self).wf(),
            final(self)@ == old(self)@ + other@,
    {
        proof {
            use_type_invariant(other);
        }
        let mut i: usize = 0;
        while i < other.data.len()
            invariant
                i <= other.data@.len(),
                other.bitmap@.len() == other.data@.len(),
                self.bitmap@.len() == self.data@.len(),
                self@ == old(self)@ + other@.take(i as int),
            decreases other.data@.len() - i,
        {
            let ghost prev = self@;
            self.bitmap.push(other.bitmap[i]);
            self.data.push(other.data[i]);
            assert(self@ =~= prev.push(other@[i as int]));
            assert(other@.take(i + 1) =~= other@.take(i as int).push(other@[i as int]));
            i = i + 1;
            assert(self@ =~= old(self)@ + other@.take(i as int));
        }
        assert(other@.take(other.data@.len() as int) =~= other@);
        Ok(())
    }

    /// The array of everything appended.
    pub fn finish(self) -> (r: Result<PrimitiveArray<T>, ArrayError>)
        requires
            self.wf(),
        ensures
            r matches Ok(a) && a@ == self@,
    {
        Ok(PrimitiveArray { bitmap: self.bitmap, data: self.data })
    }
}

impl PrimitiveArrayItemType for i16 {
    open spec fn kind() -> ArrayKind {
        ArrayKind::Int16
    }

    open spec fn int_value(self) -> int {
        self as int
    }

    fn default_value() -> (r: i16) {
        0
    }

    fn erase_array_type(arr: PrimitiveArray<i16>) -> (r: ArrayImpl) {
        ArrayImpl::Int16(arr)
    }
}

impl PrimitiveArrayItemType for i32 {
    open spec fn kind() -> ArrayKind {
        ArrayKind::Int32
    }

    open spec fn int_value(self) -> int {
        self as int
    }

    fn default_value() -> (r: i32) {
        0
    }

    fn erase_array_type(arr: PrimitiveArray<i32>) -> (r: ArrayImpl) {
        ArrayImpl::Int32(arr)
    }
}

impl PrimitiveArrayItemType for i64 {
    open spec fn kind() -> ArrayKind {
        ArrayKind::Int64
    }

    open spec fn int_value(self) -> int {
        self as int
    }

    fn default_value() -> (r: i64) {
        0
    }

    fn erase_array_type(arr: PrimitiveArray<i64>) -> (r: ArrayImpl) {
        ArrayImpl::Int64(arr)
    }
}

impl ArrayImpl {
    pub open spec fn kind(self) -> ArrayKind {
        match self {
            ArrayImpl::Int16(_) => ArrayKind::Int16,
            ArrayImpl::Int32(_) => ArrayKind::Int32,
            ArrayImpl::Int64(_) => ArrayKind::Int64,
        }
    }

    pub open spec fn values(self) -> Seq<Option<int>> {
        match self {
            ArrayImpl::Int16(a) => a@.map_values(|o: Option<i16>| match o {
                Some(v) => Some(v as int),
                None => None,
            }),
            ArrayImpl::Int32(a) => a@.map_values(|o: Option<i32>| match o {
                Some(v) => Some(v as int),
                None => None,
            }),
            ArrayImpl::Int64(a) => a@.map_values(|o: Option<i64>| match o {
                Some(v) => Some(v as int),
                None => None,
            }),
        }
    }

    /// The number of items.
    pub fn len(&self) -> (r: usize)
        ensures
            r == self.values().len(),
    {
        match self {
            ArrayImpl::Int16(a) => a.len(),
            ArrayImpl::Int32(a) => a.len(),
            ArrayImpl::Int64(a) => a.len(),
        }
    }
}

impl<T: PrimitiveArrayItemType> From<PrimitiveArray<T>> for ArrayImpl {
    fn from(arr: PrimitiveArray<T>) -> (r: ArrayImpl) {
        T::erase_array_type(arr)
    }
}

impl<T: PrimitiveArrayItemType> vstd::std_specs::convert::FromSpecImpl<PrimitiveArray<T>> for ArrayImpl {
    /// The conversion is `erase_array_type`, whose contract is the one to rely on.
    open spec fn obeys_from_spec() -> bool {
        false
    }

    open spec fn from_spec(v: PrimitiveArray<T>) -> ArrayImpl {
        arbitrary()
    }
}

} // verus!
