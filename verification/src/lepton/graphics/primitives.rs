use vstd::prelude::*;

verus! {

broadcast use vstd::std_specs::slice::axiom_spec_slice_iter;

/// The most frames in flight a device may ask for.
pub const MAX_BUFFERS: usize = 8;

/// The queue families a device offers for drawing and for presenting.
pub struct QueueFamilyIndices {
    pub graphics_family: Option<u32>,
    pub present_family: Option<u32>,
}

impl QueueFamilyIndices {
    /// No family found yet.
    pub fn new() -> (r: QueueFamilyIndices)
        ensures
            r.graphics_family is None,
            r.present_family is None,
    {
        QueueFamilyIndices { graphics_family: None, present_family: None }
    }

    /// Whether both a drawing and a presenting family were found.
    pub fn is_complete(&self) -> (r: bool)
        ensures
            r == (self.graphics_family is Some && self.present_family is Some),
    {
        self.graphics_family.is_some() && self.present_family.is_some()
    }
}

/// One value per frame in flight, in a fixed block of `MAX_BUFFERS` slots:
/// the first `len()` hold the frames' values, the rest hold padding.
#[derive(Clone)]
pub struct DoubleBuffered<T: Clone + Copy> {
    data: [T; MAX_BUFFERS],
    len: usize,
}

impl<T: Clone + Copy> View for DoubleBuffered<T> {
    type V = Seq<T>;

    /// All `MAX_BUFFERS` slots, padding included.
    closed spec fn view(&self) -> Seq<T> {
        self.data@
    }
}

impl<T: Clone + Copy> DoubleBuffered<T> {
    /// Well formed: no more frames than slots.
    pub closed spec fn wf(&self) -> bool {
        self.len <= MAX_BUFFERS
    }

    /// The number of frames in flight.
    pub closed spec fn frames(&self) -> nat {
        self.len as nat
    }

    /// The frames' values, in frame order.
    pub open spec fn values(&self) -> Seq<T> {
        self@.subrange(0, self.frames() as int)
    }

    /// Holds the values of `vec`, one per frame, in the first slots; every
    /// other slot holds padding, the value `T::default()` gives. There may
    /// be at most `MAX_BUFFERS` values.
    pub fn new(vec: Vec<T>) -> (r: DoubleBuffered<T>)
        where T: Default
        requires
            vec.len() <= MAX_BUFFERS,
        ensures
            r.wf(),
            r@.len() == MAX_BUFFERS,
            r.frames() == vec.len(),
            r.values() == vec@,
            forall|i: int| vec.len() <= i < MAX_BUFFERS ==> call_ensures(T::default, (), #[trigger] r@[i]),
    {
        let padding = T::default();
        let mut data: [T; MAX_BUFFERS] = [padding; MAX_BUFFERS];
        let mut i: usize = 0;
        while i < vec.len()
            invariant
                vec.len() <= MAX_BUFFERS,
                i <= vec.len(),
                data@.len() == MAX_BUFFERS,
                call_ensures(T::default, (), padding),
                forall|j: int| 0 <= j < i ==> data@[j] == vec@[j],
                forall|j: int| i <= j < MAX_BUFFERS ==> data@[j] == padding,
            decreases vec.len() - i,
        {
            data[i] = vec[i];
            i = i + 1;
        }
        let r = DoubleBuffered { data, len: vec.len() };
        assert(r.values() =~= vec@);
        r
    }

    /// The value in slot `index`: a frame's value, or padding past `len()`.
    pub fn get(&self, index: usize) -> (r: T)
        requires
            index < MAX_BUFFERS,
        ensures
            r == self@[index as int],
    {
        self.data[index]
    }

    /// The frames' values in frame order, padding left out.
    pub fn iter(&self) -> (r: std::slice::Iter<'_, T>)
        requires
            self.wf(),
        ensures
            vstd::std_specs::slice::into_iter_elts(r) == self.values(),
    {
        let frames = &self.data.as_slice()[0..self.len];
        let r = frames.iter();
        proof {
            assert(vstd::std_specs::iter::IteratorSpec::remaining(&r).unref() =~= self.values());
        }
        r
    }

    /// All `MAX_BUFFERS` slots: the frames' values, then the padding.
    pub fn as_array(&self) -> (r: &[T])
        ensures
            r@ == self@,
            r@.len() == MAX_BUFFERS,
            r@.subrange(0, self.frames() as int) == self.values(),
    {
        self.data.as_slice()
    }

    /// The number of frames in flight.
    pub fn len(&self) -> (r: usize)
        ensures
            r == self.frames(),
            self.wf() ==> r <= MAX_BUFFERS,
    {
        self.len
    }
}

} // verus!
