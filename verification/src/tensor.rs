//! Dense arrays of words, kept in `ndarray` arrays.

use vstd::prelude::*;

verus! {

/// A dense array of 32-bit words with any number of axes.
#[verifier::external_body]
pub struct Tensor {
    inner: ndarray::ArrayD<u32>,
}

/// The elements of the array in logical order, the last axis varying fastest.
pub uninterp spec fn tensor_words(t: Tensor) -> Seq<u32>;

/// The lengths of the array's axes.
pub uninterp spec fn tensor_shape(t: Tensor) -> Seq<usize>;

/// The array is contiguous and laid out in logical order.
pub uninterp spec fn tensor_is_standard(t: Tensor) -> bool;

/// What an array holds.
pub struct TensorView {
    /// The elements in logical order.
    pub words: Seq<u32>,
    /// The lengths of the axes.
    pub shape: Seq<usize>,
    /// The array is contiguous and laid out in logical order.
    pub standard: bool,
}

impl View for Tensor {
    type V = TensorView;

    open spec fn view(&self) -> TensorView {
        TensorView {
            words: tensor_words(*self),
            shape: tensor_shape(*self),
            standard: tensor_is_standard(*self),
        }
    }
}

impl TensorView {
    /// The array has axes `shape` and is laid out in logical order.
    pub open spec fn is_dense(self, shape: Seq<usize>) -> bool {
        &&& self.standard
        &&& self.shape == shape
        &&& self.words.len() == shape_size(shape)
    }

    /// The same array with other elements.
    pub open spec fn with_words(self, words: Seq<u32>) -> TensorView {
        TensorView { words, ..self }
    }
}

/// The array of that shape whose elements are all `w`.
pub open spec fn filled(shape: Seq<usize>, w: u32) -> TensorView {
    TensorView { words: Seq::new(shape_size(shape), |i: int| w), shape, standard: true }
}

/// The number of elements of an array with axes `shape`.
pub open spec fn shape_size(shape: Seq<usize>) -> nat
    decreases shape.len(),
{
    if shape.len() == 0 {
        1
    } else {
        shape_size(shape.drop_last()) * shape.last() as nat
    }
}

/// The product of the axes that are not empty.
pub open spec fn nonempty_size(shape: Seq<usize>) -> nat
    decreases shape.len(),
{
    if shape.len() == 0 {
        1
    } else if shape.last() == 0 {
        nonempty_size(shape.drop_last())
    } else {
        nonempty_size(shape.drop_last()) * shape.last() as nat
    }
}

/// An array of 32-bit words with axes `shape` can be addressed.
pub open spec fn addressable(shape: Seq<usize>) -> bool {
    nonempty_size(shape) * 4 <= isize::MAX
}

proof fn lemma_nonempty_size_grows(shape: Seq<usize>, i: int)
    requires
        0 <= i <= shape.len(),
    ensures
        nonempty_size(shape.take(i)) <= nonempty_size(shape),
        nonempty_size(shape) >= 1,
    decreases shape.len(),
{
    if i == shape.len() {
        assert(shape.take(i) =~= shape);
        if shape.len() > 0 {
            lemma_nonempty_size_grows(shape.drop_last(), i - 1);
            let rest = nonempty_size(shape.drop_last());
            let last = shape.last();
            if last != 0 {
                assert(rest * last as nat >= 1) by (nonlinear_arith)
                    requires
                        rest >= 1,
                        last >= 1,
                ;
            }
        }
    } else {
        lemma_nonempty_size_grows(shape.drop_last(), i);
        assert(shape.drop_last().take(i) =~= shape.take(i));
        let rest = nonempty_size(shape.drop_last());
        let last = shape.last();
        if last != 0 {
            assert(rest * last as nat >= rest) by (nonlinear_arith)
                requires
                    rest >= 1,
                    last >= 1,
            ;
        }
    }
}

/// Whether an array of 32-bit words with axes `shape` can be addressed.
pub fn can_address(shape: &[usize]) -> (r: bool)
    ensures
        r == addressable(shape@),
{
    let limit: usize = isize::MAX as usize / 4;
    let mut product: usize = 1;
    let mut i: usize = 0;
    while i < shape.len()
        invariant
            i <= shape@.len(),
            limit == isize::MAX as int / 4,
            product == nonempty_size(shape@.take(i as int)),
            product <= limit,
        decreases shape@.len() - i,
    {
        proof {
            assert(shape@.take(i + 1).drop_last() =~= shape@.take(i as int));
            lemma_nonempty_size_grows(shape@, i + 1);
        }
        if shape[i] != 0 {
            match product.checked_mul(shape[i]) {
                None => {
                    return false;
                },
                Some(next) => {
                    if next > limit {
                        return false;
                    }
                    product = next;
                },
            }
        }
        i += 1;
    }
    assert(shape@.take(i as int) =~= shape@);
    true
}

impl Tensor {
    /// Calls `ndarray::ArrayBase::zeros`: an array of that shape whose elements are
    /// all zero, in standard order. It panics where the array is too large to be
    /// addressed.
    #[verifier::external_body]
    fn zeros(shape: &[usize]) -> (r: Tensor)
        requires
            addressable(shape@),
        ensures
            tensor_shape(r) == shape@,
            tensor_is_standard(r),
            tensor_words(r) == Seq::new(shape_size(shape@), |i: int| 0u32),
    {
        Tensor { inner: ndarray::ArrayD::zeros(shape) }
    }

    /// Calls `ndarray::ArrayBase::shape`: the lengths of the axes.
    #[verifier::external_body]
    pub(crate) fn shape(&self) -> (r: &[usize])
        ensures
            r@ == tensor_shape(*self),
    {
        self.inner.shape()
    }

    /// Calls `ndarray::ArrayRef::as_slice`: the elements in logical order, where the
    /// array is in standard order, else nothing.
    #[verifier::external_body]
    pub(crate) fn as_slice(&self) -> (r: Option<&[u32]>)
        ensures
            match r {
                Some(s) => tensor_is_standard(*self) && s@ == tensor_words(*self),
                None => !tensor_is_standard(*self),
            },
    {
        self.inner.as_slice()
    }

    /// Calls `ndarray::ArrayBase::as_slice_mut`: the elements in logical order, to be
    /// written in place, where the array is in standard order, else nothing. Writing
    /// them changes neither the shape nor the layout.
    #[verifier::external_body]
    pub(crate) fn as_slice_mut(&mut self) -> (r: Option<&mut [u32]>)
        ensures
            match r {
                Some(s) => {
                    &&& tensor_is_standard(*old(self))
                    &&& s@ == tensor_words(*old(self))
                    &&& tensor_words(*final(self)) == final(s)@
                    &&& tensor_shape(*final(self)) == tensor_shape(*old(self))
                    &&& tensor_is_standard(*final(self))
                },
                None => !tensor_is_standard(*old(self)) && *final(self) == *old(self),
            },
    {
        self.inner.as_slice_mut()
    }

    /// An array of that shape whose elements are all zero.
    pub fn new(shape: &[usize]) -> (r: Tensor)
        requires
            addressable(shape@),
        ensures
            r@ == filled(shape@, 0),
    {
        Tensor::zeros(shape)
    }

    /// The elements in logical order, unless the array is laid out otherwise.
    pub fn words(&self) -> (r: Option<&[u32]>)
        ensures
            match r {
                Some(s) => self@.standard && s@ == self@.words,
                None => !self@.standard,
            },
    {
        self.as_slice()
    }

    /// The lengths of the axes.
    pub fn axes(&self) -> (r: &[usize])
        ensures
            r@ == self@.shape,
    {
        self.shape()
    }

    /// Sets every element to `w`. Reports whether the array's layout allowed it.
    pub fn fill(&mut self, w: u32) -> (done: bool)
        ensures
            done == old(self)@.standard,
            final(self)@ == (if done {
                old(self)@.with_words(Seq::new(old(self)@.words.len(), |i: int| w))
            } else {
                old(self)@
            }),
    {
        match self.as_slice_mut() {
            None => false,
            Some(s) => {
                fill_words(s, w);
                true
            },
        }
    }

    /// Replaces every element by those of `src`. Reports whether the array's layout
    /// and size allowed it.
    pub fn store(&mut self, src: &[u32]) -> (done: bool)
        ensures
            done == (old(self)@.standard && old(self)@.words.len() == src@.len()),
            final(self)@ == (if done {
                old(self)@.with_words(src@)
            } else {
                old(self)@
            }),
    {
        match self.as_slice_mut() {
            None => false,
            Some(s) => {
                if s.len() != src.len() {
                    return false;
                }
                write_words(s, 0, src);
                true
            },
        }
    }
}

/// Sets every element of `dst` to `w`.
pub fn fill_words(dst: &mut [u32], w: u32)
    ensures
        final(dst)@ == Seq::new(old(dst)@.len(), |i: int| w),
{
    let n: usize = dst.len();
    let mut i: usize = 0;
    while i < n
        invariant
            dst@.len() == n == old(dst)@.len(),
            i <= n,
            forall|j: int| 0 <= j < i ==> dst@[j] == w,
        decreases n - i,
    {
        dst[i] = w;
        i += 1;
    }
    assert(dst@ =~= Seq::new(old(dst)@.len(), |i: int| w));
}

/// `base` with the elements from `start` on replaced by those of `src`.
pub open spec fn overwritten(base: Seq<u32>, start: int, src: Seq<u32>) -> Seq<u32> {
    Seq::new(
        base.len(),
        |i: int| if start <= i < start + src.len() {
            src[i - start]
        } else {
            base[i]
        },
    )
}

/// Copies `src` into `dst` from position `start` on.
pub fn write_words(dst: &mut [u32], start: usize, src: &[u32])
    requires
        start + src@.len() <= old(dst)@.len(),
    ensures
        final(dst)@ == overwritten(old(dst)@, start as int, src@),
        src@.len() == old(dst)@.len() ==> final(dst)@ == src@,
{
    let n: usize = dst.len();
    let mut i: usize = 0;
    while i < src.len()
        invariant
            start + src@.len() <= n,
            dst@.len() == n == old(dst)@.len(),
            i <= src@.len(),
            forall|j: int| start <= j < start + i ==> dst@[j] == src@[j - start],
            forall|j: int| 0 <= j < n && !(start <= j < start + i) ==> dst@[j] == old(dst)@[j],
        decreases src@.len() - i,
    {
        dst[start + i] = src[i];
        i += 1;
    }
    assert(dst@ =~= overwritten(old(dst)@, start as int, src@));
    assert(src@.len() == old(dst)@.len() ==> dst@ =~= src@);
}

proof fn lemma_one_axis_more(shape: Seq<usize>, axis: usize)
    ensures
        shape_size(shape.push(axis)) == shape_size(shape) * axis as nat,
{
    assert(shape.push(axis).drop_last() =~= shape);
}

proof fn lemma_size_of_three(s: Seq<usize>)
    requires
        s.len() == 3,
    ensures
        shape_size(s) == s[0] * s[1] * s[2],
{
    let none = Seq::<usize>::empty();
    assert(s =~= none.push(s[0]).push(s[1]).push(s[2]));
    lemma_one_axis_more(none.push(s[0]).push(s[1]), s[2]);
    lemma_one_axis_more(none.push(s[0]), s[1]);
    lemma_one_axis_more(none, s[0]);
    assert(1 * s[0] as nat * s[1] as nat * s[2] as nat == s[0] * s[1] * s[2]) by (nonlinear_arith);
}

/// A new array has the axes that it was asked for, as many elements as they make up, and
/// every one of them is zero.
pub proof fn new_arrays_hold_zeros(shape: &[usize], r: Tensor)
    requires
        call_ensures(Tensor::new, (shape,), r),
    ensures
        r@.shape == shape@,
        r@.standard,
        forall|i: int| 0 <= i < r@.words.len() ==> #[trigger] r@.words[i] == 0,
        shape@.len() == 3 ==> r@.words.len() == shape@[0] * shape@[1] * shape@[2],
        shape@.len() == 4 ==> r@.words.len() == shape@[0] * shape@[1] * shape@[2] * shape@[3],
{
    let s = shape@;
    if s.len() > 0 {
        lemma_one_axis_more(s.drop_last(), s.last());
        assert(s.drop_last().push(s.last()) =~= s);
    }
    if s.len() >= 3 {
        lemma_size_of_three(s.take(3));
        assert(s.take(3)[0] == s[0] && s.take(3)[1] == s[1] && s.take(3)[2] == s[2]);
        if s.len() == 3 {
            assert(s.take(3) =~= s);
        } else if s.len() == 4 {
            assert(s.drop_last() =~= s.take(3));
        }
    }
}

/// What is filled or stored is what the array holds afterwards, under the same axes; an
/// array that is not laid out for it, or has another size, stays as it was.
pub proof fn arrays_hold_what_is_put_into_them(
    filled_one: &mut Tensor,
    w: u32,
    did_fill: bool,
    stored_one: &mut Tensor,
    src: &[u32],
    did_store: bool,
)
    requires
        call_ensures(Tensor::fill, (filled_one, w), did_fill),
        call_ensures(Tensor::store, (stored_one, src), did_store),
    ensures
        did_fill <==> old(filled_one)@.standard,
        !did_fill ==> final(filled_one)@ == old(filled_one)@,
        did_fill ==> {
            &&& final(filled_one)@.shape == old(filled_one)@.shape
            &&& final(filled_one)@.words.len() == old(filled_one)@.words.len()
            &&& forall|i: int|
                0 <= i < final(filled_one)@.words.len()
                    ==> #[trigger] final(filled_one)@.words[i] == w
        },
        did_store <==> old(stored_one)@.standard && old(stored_one)@.words.len() == src@.len(),
        !did_store ==> final(stored_one)@ == old(stored_one)@,
        did_store ==> final(stored_one)@.words == src@ && final(stored_one)@.shape
            == old(stored_one)@.shape,
{
}

/// Writing replaces the elements from the position on, one for one, and leaves the others.
pub proof fn written_words_stand_where_they_were_put(dst: &mut [u32], start: usize, src: &[u32])
    requires
        call_ensures(write_words, (dst, start, src), ()),
    ensures
        final(dst)@.len() == old(dst)@.len(),
        forall|i: int|
            0 <= i < final(dst)@.len() ==> #[trigger] final(dst)@[i] == (if start <= i < start
                + src@.len() {
                src@[i - start]
            } else {
                old(dst)@[i]
            }),
{
}

/// The elements are handed out in logical order, with the lengths of the axes.
pub proof fn arrays_show_their_elements(t: &Tensor, words: Option<&[u32]>, axes: &[usize])
    requires
        call_ensures(Tensor::words, (t,), words),
        call_ensures(Tensor::axes, (t,), axes),
    ensures
        axes@ == tensor_shape(*t),
        words is Some <==> tensor_is_standard(*t),
        words matches Some(s) ==> s@ == tensor_words(*t),
        t@.words == tensor_words(*t),
        t@.shape == tensor_shape(*t),
        t@.standard == tensor_is_standard(*t),
{
}

/// Four bytes for every element must be addressable. An axis without elements does not
/// count, and one more axis multiplies the elements by its length.
pub proof fn arrays_take_four_bytes_an_element(
    shape: &[usize],
    more: &[usize],
    axis: usize,
    size: nat,
    r: bool,
    s: bool,
)
    requires
        call_ensures(can_address, (shape,), r),
        call_ensures(can_address, (more,), s),
        more@ == shape@.push(axis),
        size == nonempty_size(shape@),
    ensures
        r <==> size * 4 <= isize::MAX,
        axis == 0 ==> s == r,
        axis > 0 ==> (s <==> size * axis * 4 <= isize::MAX),
        axis > 0 ==> nonempty_size(more@) == size * axis,
        shape@.len() == 0 ==> size == 1,
{
    assert(more@.drop_last() =~= shape@);
    assert((size * (axis as nat)) * 4 == size * axis * 4);
}

/// Every word is set.
pub proof fn every_word_is_set(dst: &mut [u32], w: u32)
    requires
        call_ensures(fill_words, (dst, w), ()),
    ensures
        final(dst)@.len() == old(dst)@.len(),
        forall|i: int| 0 <= i < old(dst)@.len() ==> #[trigger] final(dst)@[i] == w,
{
}

} // verus!
