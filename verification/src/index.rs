//! Typed index spaces and the vector that is addressed by one of them.

use std::marker::PhantomData;
use vstd::prelude::*;

verus! {

/// A handle of one index space: a wrapper round a plain position.
pub trait Handle: Sized {
    /// The position that the handle stands for.
    spec fn position(&self) -> usize;

    /// The position as a plain number.
    fn to_usize(&self) -> (r: usize)
        ensures
            r == self.position(),
    ;

    /// The handle that stands for `value`.
    fn of_usize(value: usize) -> (r: Self)
        ensures
            r.position() == value,
    ;
}

/// A vector whose elements are addressed by handles of the index space `I`
/// and by nothing else.
pub struct TypedVec<I, T>(Vec<T>, PhantomData<I>);

impl<I, T> View for TypedVec<I, T> {
    type V = Seq<T>;

    closed spec fn view(&self) -> Seq<T> {
        self.0@
    }
}

impl<I: Handle, T> TypedVec<I, T> {
    /// An empty vector.
    pub fn new() -> (r: Self)
        ensures
            r@ == Seq::<T>::empty(),
    {
        TypedVec(Vec::new(), PhantomData)
    }

    /// The vector with the elements of `vec`, in their order.
    pub fn from(vec: Vec<T>) -> (r: Self)
        ensures
            r@ == vec@,
    {
        TypedVec(vec, PhantomData)
    }

    /// The element at `index`, or `None` where `index` is out of range.
    pub fn get(&self, index: I) -> (r: Option<&T>)
        ensures
            index.position() < self@.len() ==> r == Some(&self@[index.position() as int]),
            index.position() >= self@.len() ==> r is None,
    {
        let i = index.to_usize();
        if i < self.0.len() {
            Some(&self.0[i])
        } else {
            None
        }
    }

    /// Mutable access to the element at `index`, or `None` where `index` is
    /// out of range. Whatever the caller writes through the reference is the
    /// only change to the vector.
    pub fn get_mut(&mut self, index: I) -> (r: Option<&mut T>)
        ensures
            index.position() >= old(self)@.len() ==> r is None && final(self)@ == old(self)@,
            index.position() < old(self)@.len() ==> r is Some
                && *r.unwrap() == old(self)@[index.position() as int]
                && final(self)@ == old(self)@.update(
                index.position() as int,
                *final(r.unwrap()),
            ),
    {
        let i = index.to_usize();
        if i < self.0.len() {
            Some(&mut self.0[i])
        } else {
            None
        }
    }

    /// Takes the element at `index` out; the elements behind it move down by
    /// one.
    pub fn remove(&mut self, index: I) -> (r: T)
        requires
            index.position() < old(self)@.len(),
        ensures
            r == old(self)@[index.position() as int],
            final(self)@ == old(self)@.remove(index.position() as int),
    {
        self.0.remove(index.to_usize())
    }

    /// The length, as the handle one past the last element.
    pub fn len(&self) -> (r: I)
        ensures
            r.position() == self@.len(),
    {
        I::of_usize(self.0.len())
    }

    /// Puts `value` at `index`; the elements from there on move up by one.
    pub fn insert(&mut self, index: I, value: T)
        requires
            index.position() <= old(self)@.len(),
        ensures
            final(self)@ == old(self)@.insert(index.position() as int, value),
    {
        self.0.insert(index.to_usize(), value);
    }

    /// Appends `value` behind the last element.
    pub fn push(&mut self, value: T)
        ensures
            final(self)@ == old(self)@.push(value),
    {
        self.0.push(value);
    }

    /// Whether the vector holds no element.
    pub fn is_empty(&self) -> (r: bool)
        ensures
            r == (self@.len() == 0),
    {
        self.0.len() == 0
    }
}

/// What a computation on a bare position hands back, and how it is lifted
/// into the index space `T`: a position becomes a handle, and an `Option` or
/// a `Result` keeps its shape round one.
pub trait Manipulable<T> {
    type Return;

    /// The lifted value.
    spec fn lifted(self) -> Self::Return;

    /// Lifts the value into the index space.
    fn map(self) -> (r: Self::Return)
        ensures
            r == self.lifted(),
    ;
}

/// The place of a tab inside the stack of one column, counted from the top.
#[derive(Clone, Copy, Debug, PartialEq, Eq, Structural, PartialOrd, Ord, Hash)]
pub struct PositionIdex(pub usize);

impl Default for PositionIdex {
    fn default() -> (r: Self)
        ensures
            r.0 == 0,
    {
        PositionIdex(0)
    }
}

impl From<usize> for PositionIdex {
    fn from(value: usize) -> (r: Self) {
        PositionIdex(value)
    }
}

impl vstd::std_specs::convert::FromSpecImpl<usize> for PositionIdex {
    open spec fn obeys_from_spec() -> bool {
        true
    }

    open spec fn from_spec(value: usize) -> Self {
        PositionIdex(value)
    }
}

impl Handle for PositionIdex {
    open spec fn position(&self) -> usize {
        self.0
    }

    fn to_usize(&self) -> (r: usize) {
        self.0
    }

    fn of_usize(value: usize) -> (r: Self) {
        PositionIdex(value)
    }
}

impl PositionIdex {
    /// Computes on the bare position and lifts the result back into this
    /// index space.
    pub fn manipulate<R: Manipulable<Self>, F: FnOnce(usize) -> R>(self, f: F) -> (r: R::Return)
        requires
            f.requires((self.0,)),
        ensures
            exists|m: R| f.ensures((self.0,), m) && r == m.lifted(),
    {
        f(self.0).map()
    }

    /// The handle one step further.
    pub fn next(self) -> (r: Self)
        requires
            self.0 < usize::MAX,
        ensures
            r.0 == self.0 + 1,
    {
        PositionIdex(self.0 + 1)
    }

    /// The handle one step back.
    pub fn prev(self) -> (r: Self)
        requires
            self.0 > 0,
        ensures
            r.0 == self.0 - 1,
    {
        PositionIdex(self.0 - 1)
    }

    /// The handle one step back, or the first handle where there is none.
    pub fn saturating_prev(self) -> (r: Self)
        ensures
            r.0 == if self.0 == 0 { 0 } else { self.0 - 1 },
    {
        if self.0 == 0 {
            PositionIdex(0)
        } else {
            PositionIdex(self.0 - 1)
        }
    }
}

impl Manipulable<PositionIdex> for usize {
    type Return = PositionIdex;

    open spec fn lifted(self) -> PositionIdex {
        PositionIdex(self)
    }

    fn map(self) -> (r: PositionIdex) {
        PositionIdex(self)
    }
}

impl Manipulable<PositionIdex> for Option<usize> {
    type Return = Option<PositionIdex>;

    open spec fn lifted(self) -> Option<PositionIdex> {
        match self {
            Some(index) => Some(PositionIdex(index)),
            None => None,
        }
    }

    fn map(self) -> (r: Option<PositionIdex>) {
        match self {
            Some(index) => Some(PositionIdex(index)),
            None => None,
        }
    }
}

impl<E> Manipulable<PositionIdex> for Result<usize, E> {
    type Return = Result<PositionIdex, E>;

    open spec fn lifted(self) -> Result<PositionIdex, E> {
        match self {
            Ok(index) => Ok(PositionIdex(index)),
            Err(e) => Err(e),
        }
    }

    fn map(self) -> (r: Result<PositionIdex, E>) {
        match self {
            Ok(index) => Ok(PositionIdex(index)),
            Err(e) => Err(e),
        }
    }
}

/// The identity of a channel: its place in the arena of channel buffers.
#[derive(Clone, Copy, Debug, PartialEq, Eq, Structural, PartialOrd, Ord, Hash)]
pub struct ContentIndex(pub usize);

impl Default for ContentIndex {
    fn default() -> (r: Self)
        ensures
            r.0 == 0,
    {
        ContentIndex(0)
    }
}

impl From<usize> for ContentIndex {
    fn from(value: usize) -> (r: Self) {
        ContentIndex(value)
    }
}

impl vstd::std_specs::convert::FromSpecImpl<usize> for ContentIndex {
    open spec fn obeys_from_spec() -> bool {
        true
    }

    open spec fn from_spec(value: usize) -> Self {
        ContentIndex(value)
    }
}

impl Handle for ContentIndex {
    open spec fn position(&self) -> usize {
        self.0
    }

    fn to_usize(&self) -> (r: usize) {
        self.0
    }

    fn of_usize(value: usize) -> (r: Self) {
        ContentIndex(value)
    }
}

impl ContentIndex {
    /// Computes on the bare position and lifts the result back into this
    /// index space.
    pub fn manipulate<R: Manipulable<Self>, F: FnOnce(usize) -> R>(self, f: F) -> (r: R::Return)
        requires
            f.requires((self.0,)),
        ensures
            exists|m: R| f.ensures((self.0,), m) && r == m.lifted(),
    {
        f(self.0).map()
    }

    /// The handle one step further.
    pub fn next(self) -> (r: Self)
        requires
            self.0 < usize::MAX,
        ensures
            r.0 == self.0 + 1,
    {
        ContentIndex(self.0 + 1)
    }

    /// The handle one step back.
    pub fn prev(self) -> (r: Self)
        requires
            self.0 > 0,
        ensures
            r.0 == self.0 - 1,
    {
        ContentIndex(self.0 - 1)
    }

    /// The handle one step back, or the first handle where there is none.
    pub fn saturating_prev(self) -> (r: Self)
        ensures
            r.0 == if self.0 == 0 { 0 } else { self.0 - 1 },
    {
        if self.0 == 0 {
            ContentIndex(0)
        } else {
            ContentIndex(self.0 - 1)
        }
    }
}

impl Manipulable<ContentIndex> for usize {
    type Return = ContentIndex;

    open spec fn lifted(self) -> ContentIndex {
        ContentIndex(self)
    }

    fn map(self) -> (r: ContentIndex) {
        ContentIndex(self)
    }
}

impl Manipulable<ContentIndex> for Option<usize> {
    type Return = Option<ContentIndex>;

    open spec fn lifted(self) -> Option<ContentIndex> {
        match self {
            Some(index) => Some(ContentIndex(index)),
            None => None,
        }
    }

    fn map(self) -> (r: Option<ContentIndex>) {
        match self {
            Some(index) => Some(ContentIndex(index)),
            None => None,
        }
    }
}

impl<E> Manipulable<ContentIndex> for Result<usize, E> {
    type Return = Result<ContentIndex, E>;

    open spec fn lifted(self) -> Result<ContentIndex, E> {
        match self {
            Ok(index) => Ok(ContentIndex(index)),
            Err(e) => Err(e),
        }
    }

    fn map(self) -> (r: Result<ContentIndex, E>) {
        match self {
            Ok(index) => Ok(ContentIndex(index)),
            Err(e) => Err(e),
        }
    }
}

/// The column of the layout, counted from the left.
#[derive(Clone, Copy, Debug, PartialEq, Eq, Structural, PartialOrd, Ord, Hash)]
pub struct TabIndex(pub usize);

impl Default for TabIndex {
    fn default() -> (r: Self)
        ensures
            r.0 == 0,
    {
        TabIndex(0)
    }
}

impl From<usize> for TabIndex {
    fn from(value: usize) -> (r: Self) {
        TabIndex(value)
    }
}

impl vstd::std_specs::convert::FromSpecImpl<usize> for TabIndex {
    open spec fn obeys_from_spec() -> bool {
        true
    }

    open spec fn from_spec(value: usize) -> Self {
        TabIndex(value)
    }
}

impl Handle for TabIndex {
    open spec fn position(&self) -> usize {
        self.0
    }

    fn to_usize(&self) -> (r: usize) {
        self.0
    }

    fn of_usize(value: usize) -> (r: Self) {
        TabIndex(value)
    }
}

impl TabIndex {
    /// Computes on the bare position and lifts the result back into this
    /// index space.
    pub fn manipulate<R: Manipulable<Self>, F: FnOnce(usize) -> R>(self, f: F) -> (r: R::Return)
        requires
            f.requires((self.0,)),
        ensures
            exists|m: R| f.ensures((self.0,), m) && r == m.lifted(),
    {
        f(self.0).map()
    }

    /// The handle one step further.
    pub fn next(self) -> (r: Self)
        requires
            self.0 < usize::MAX,
        ensures
            r.0 == self.0 + 1,
    {
        TabIndex(self.0 + 1)
    }

    /// The handle one step back.
    pub fn prev(self) -> (r: Self)
        requires
            self.0 > 0,
        ensures
            r.0 == self.0 - 1,
    {
        TabIndex(self.0 - 1)
    }

    /// The handle one step back, or the first handle where there is none.
    pub fn saturating_prev(self) -> (r: Self)
        ensures
            r.0 == if self.0 == 0 { 0 } else { self.0 - 1 },
    {
        if self.0 == 0 {
            TabIndex(0)
        } else {
            TabIndex(self.0 - 1)
        }
    }
}

impl Manipulable<TabIndex> for usize {
    type Return = TabIndex;

    open spec fn lifted(self) -> TabIndex {
        TabIndex(self)
    }

    fn map(self) -> (r: TabIndex) {
        TabIndex(self)
    }
}

impl Manipulable<TabIndex> for Option<usize> {
    type Return = Option<TabIndex>;

    open spec fn lifted(self) -> Option<TabIndex> {
        match self {
            Some(index) => Some(TabIndex(index)),
            None => None,
        }
    }

    fn map(self) -> (r: Option<TabIndex>) {
        match self {
            Some(index) => Some(TabIndex(index)),
            None => None,
        }
    }
}

impl<E> Manipulable<TabIndex> for Result<usize, E> {
    type Return = Result<TabIndex, E>;

    open spec fn lifted(self) -> Result<TabIndex, E> {
        match self {
            Ok(index) => Ok(TabIndex(index)),
            Err(e) => Err(e),
        }
    }

    fn map(self) -> (r: Result<TabIndex, E>) {
        match self {
            Ok(index) => Ok(TabIndex(index)),
            Err(e) => Err(e),
        }
    }
}

} // verus!
