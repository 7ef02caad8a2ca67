use vstd::prelude::*;

verus! {

/// The mathematical values that a sequence of items stands for, in order.
pub open spec fn views<T: View>(items: Seq<T>) -> Seq<T::V> {
    Seq::new(items.len(), |i: int| items[i]@)
}

/// The characters of an optional string.
pub open spec fn text_of(text: Option<String>) -> Option<Seq<char>> {
    match text {
        Some(s) => Some(s@),
        None => None,
    }
}

/// A result with the mathematical value of what it holds when it is `Ok`.
pub open spec fn ok_view<T: View, E>(result: Result<T, E>) -> Result<T::V, E> {
    match result {
        Ok(value) => Ok(value@),
        Err(e) => Err(e),
    }
}

/// An image as a mathematical value: its bytes and its file extension.
pub type ImageContent = (Seq<u8>, Seq<char>);

/// The image that a pair of bytes and extension stands for.
pub open spec fn image_of(image: Option<(Vec<u8>, String)>) -> Option<ImageContent> {
    match image {
        Some((bytes, extension)) => Some((bytes@, extension@)),
        None => None,
    }
}

/// The values of the items that hold one, in order.
pub open spec fn somes<T>(items: Seq<Option<T>>) -> Seq<T>
    decreases items.len(),
{
    if items.len() == 0 {
        Seq::empty()
    } else {
        match items.last() {
            Some(value) => somes(items.drop_last()).push(value),
            None => somes(items.drop_last()),
        }
    }
}

/// The value of the last item that holds one.
pub open spec fn last_some<T>(items: Seq<Option<T>>) -> Option<T>
    decreases items.len(),
{
    if items.len() == 0 {
        None
    } else {
        match items.last() {
            Some(value) => Some(value),
            None => last_some(items.drop_last()),
        }
    }
}

/// The last item that holds a value is the last of the values held, and there
/// is one exactly if any value is held.
pub proof fn lemma_last_some<T>(items: Seq<Option<T>>)
    ensures
        last_some(items) is Some <==> somes(items).len() > 0,
        last_some(items) matches Some(value) ==> value == somes(items).last(),
    decreases items.len(),
{
    if items.len() > 0 {
        lemma_last_some(items.drop_last());
    }
}

} // verus!
