//! Walking the information elements of a frame: a sequence of fields, each a
//! one-byte id, a one-byte length and a payload of that length.

use vstd::prelude::*;
use crate::frame::ELEMENTS_OFFSET;

verus! {

/// An information element as a value: its id and its payload. Its length is
/// the length of the payload.
pub struct ElementView {
    pub id: u8,
    pub payload: Seq<u8>,
}

/// Whether a whole element lies in the frame at the offset: its id, its length
/// and as many payload bytes as the length says.
pub open spec fn element_fits(frame: Seq<u8>, offset: int) -> bool {
    &&& 0 <= offset
    &&& offset + 2 <= frame.len()
    &&& offset + 2 + frame[offset + 1] as int <= frame.len()
}

/// The element that starts at the offset.
pub open spec fn element_at(frame: Seq<u8>, offset: int) -> ElementView
    recommends
        element_fits(frame, offset),
{
    ElementView {
        id: frame[offset],
        payload: frame.subrange(offset + 2, offset + 2 + frame[offset + 1] as int),
    }
}

/// The offset just behind the element that starts at the offset.
pub open spec fn element_end(frame: Seq<u8>, offset: int) -> int
    recommends
        element_fits(frame, offset),
{
    offset + 2 + frame[offset + 1] as int
}

/// The elements of a frame from an offset on, in the order in which they lie.
/// The sequence ends where no whole element is left: a truncated tail is
/// dropped.
pub open spec fn elements_from(frame: Seq<u8>, offset: int) -> Seq<ElementView>
    decreases frame.len() - offset,
{
    if element_fits(frame, offset) {
        seq![element_at(frame, offset)] + elements_from(frame, element_end(frame, offset))
    } else {
        Seq::empty()
    }
}

/// The elements of a frame: those from offset 36 on. A frame of fewer than 38
/// bytes has none.
pub open spec fn frame_elements(frame: Seq<u8>) -> Seq<ElementView> {
    elements_from(frame, ELEMENTS_OFFSET as int)
}

/// A frame that ends before offset 38 holds no element.
pub proof fn lemma_short_frame_has_no_elements(frame: Seq<u8>)
    requires
        frame.len() < ELEMENTS_OFFSET + 2,
    ensures
        frame_elements(frame).len() == 0,
{
}

/// Each element takes at least two bytes of the frame, so there are at most
/// half as many elements as bytes behind the offset.
pub proof fn lemma_elements_are_bounded(frame: Seq<u8>, offset: int)
    requires
        0 <= offset,
    ensures
        2 * elements_from(frame, offset).len() <= if offset <= frame.len() {
            frame.len() - offset
        } else {
            0
        },
    decreases frame.len() - offset,
{
    if element_fits(frame, offset) {
        lemma_elements_are_bounded(frame, element_end(frame, offset));
    }
}

/// Cutting a frame off takes elements from the end only: the elements of the
/// shorter frame are the first elements of the longer one.
pub proof fn lemma_cut_frame_keeps_first_elements(frame: Seq<u8>, cut: int, offset: int)
    requires
        0 <= cut <= frame.len(),
    ensures
        elements_from(frame.take(cut), offset).is_prefix_of(elements_from(frame, offset)),
    decreases frame.len() - offset,
{
    let shorter = frame.take(cut);
    if element_fits(shorter, offset) {
        // The element lies before the cut, so it is the same in both frames.
        let end = element_end(shorter, offset);
        assert(element_fits(frame, offset) && element_end(frame, offset) == end);
        assert(element_at(shorter, offset).payload =~= element_at(frame, offset).payload);
        lemma_cut_frame_keeps_first_elements(frame, cut, end);
        let first = seq![element_at(frame, offset)];
        let short_rest = elements_from(shorter, end);
        let long_rest = elements_from(frame, end);
        assert(first + short_rest =~= (first + long_rest).subrange(
            0,
            (first + short_rest).len() as int,
        ));
    }
}

/// An information element of a frame. Its length is that of its payload.
#[derive(Clone, Copy, Debug)]
pub struct InformationElement<'a> {
    id: u8,
    length: u8,
    payload: &'a [u8],
}

impl<'a> View for InformationElement<'a> {
    type V = ElementView;

    closed spec fn view(&self) -> ElementView {
        ElementView { id: self.id, payload: self.payload@ }
    }
}

impl<'a> InformationElement<'a> {
    #[verifier::type_invariant]
    spec fn length_is_payload_length(self) -> bool {
        self.length as int == self.payload@.len()
    }

    /// An element with the given id and payload, where the payload is short
    /// enough for its length to be written in one byte.
    pub fn new(id: u8, payload: &'a [u8]) -> (element: Option<Self>)
        ensures
            element is Some <==> payload@.len() <= u8::MAX,
            element matches Some(e) ==> e@ == (ElementView { id, payload: payload@ }),
    {
        if payload.len() <= u8::MAX as usize {
            Some(InformationElement { id, length: payload.len() as u8, payload })
        } else {
            None
        }
    }

    /// The id of the element.
    pub fn id(&self) -> (id: u8)
        ensures
            id == self@.id,
    {
        self.id
    }

    /// The length of the payload.
    pub fn length(&self) -> (length: u8)
        ensures
            length as int == self@.payload.len(),
    {
        proof {
            use_type_invariant(self);
        }
        self.length
    }

    /// The payload of the element.
    pub fn payload(&self) -> (payload: &'a [u8])
        ensures
            payload@ == self@.payload,
    {
        self.payload
    }
}

/// A cursor over the elements of a frame. It moves forward only, never reads
/// past the end of the frame, and once it has stopped it yields nothing more.
pub struct ElementWalker<'a> {
    frame: &'a [u8],
    offset: usize,
}

impl<'a> ElementWalker<'a> {
    /// The elements that the walker has yet to yield.
    pub closed spec fn remaining(&self) -> Seq<ElementView> {
        elements_from(self.frame@, self.offset as int)
    }

    /// A walker at the first element of the frame.
    pub fn new(frame: &'a [u8]) -> (walker: Self)
        ensures
            walker.remaining() == frame_elements(frame@),
    {
        ElementWalker { frame, offset: ELEMENTS_OFFSET }
    }

    /// Yields the next element and moves behind it, or yields nothing where no
    /// whole element is left.
    pub fn next(&mut self) -> (element: Option<InformationElement<'a>>)
        ensures
            match element {
                Some(e) => {
                    &&& old(self).remaining().len() > 0
                    &&& e@ == old(self).remaining()[0]
                    &&& final(self).remaining() == old(self).remaining().skip(1)
                },
                None => {
                    &&& old(self).remaining().len() == 0
                    &&& final(self).remaining().len() == 0
                },
            },
    {
        let frame = self.frame;
        let len = frame.len();
        if self.offset > len || len - self.offset < 2 {
            return None;
        }
        let id = frame[self.offset];
        let length = frame[self.offset + 1];
        let start = self.offset + 2;
        if length as usize > len - start {
            return None;
        }
        let end = start + length as usize;
        let payload = vstd::slice::slice_subrange(frame, start, end);
        assert(old(self).remaining().skip(1) =~= elements_from(frame@, end as int));
        self.offset = end;
        Some(InformationElement { id, length, payload })
    }
}

} // verus!
