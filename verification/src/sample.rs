use vstd::prelude::*;

verus! {

/// An owned, ordered sequence of observations.
///
/// The length of `data` is the only notion of size: nothing is filtered and
/// nothing is reordered behind the caller's back.
#[derive(Debug, Clone, Default)]
pub struct Sample<T> {
    pub data: Vec<T>,
}

impl<T> View for Sample<T> {
    type V = Seq<T>;

    open spec fn view(&self) -> Seq<T> {
        self.data@
    }
}

impl<T> Sample<T> {
    /// Wraps raw observations.
    pub fn new(data: Vec<T>) -> (s: Self)
        ensures
            s@ == data@,
            s.data == data,
    {
        Sample { data }
    }

    /// Number of observations.
    pub fn len(&self) -> (n: usize)
        ensures
            n == self@.len(),
    {
        self.data.len()
    }

    /// True when the sample holds no observation.
    pub fn is_empty(&self) -> (b: bool)
        ensures
            b == (self@.len() == 0),
    {
        self.data.len() == 0
    }

    /// The observations as a slice.
    pub fn as_slice(&self) -> (s: &[T])
        ensures
            s@ == self@,
    {
        self.data.as_slice()
    }
}

/// Copies a slice into a fresh vector, element for element.
pub fn copy_of<T: Copy>(data: &[T]) -> (out: Vec<T>)
    ensures
        out@ == data@,
{
    let n: usize = data.len();
    let mut out: Vec<T> = Vec::with_capacity(n);
    let mut i: usize = 0;
    while i < n
        invariant
            n == data@.len(),
            i <= n,
            out@ == data@.take(i as int),
        decreases n - i,
    {
        out.push(data[i]);
        i += 1;
    }
    assert(data@.take(n as int) == data@);
    out
}

} // verus!
