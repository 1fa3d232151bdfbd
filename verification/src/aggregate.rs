//! Folding the elements of a frame into the attributes of an access point:
//! its name, its channel and its encryption.

use vstd::prelude::*;
use vstd::string::*;
use crate::element::{frame_elements, ElementView, ElementWalker, InformationElement};
use crate::encryption::EncryptionLevel;
use crate::text::{decode_name, lemma_all_nul_leaves_nothing, name_text};

verus! {

/// The id of the element that carries the name of the network.
pub const NAME_ELEMENT: u8 = 0;

/// The id of the element that carries the channel number.
pub const CHANNEL_ELEMENT: u8 = 3;

/// The id of the RSN element.
pub const RSN_ELEMENT: u8 = 48;

/// The id of a vendor-specific element.
pub const VENDOR_ELEMENT: u8 = 221;

/// The first bytes of a vendor-specific element that marks WPA: the vendor
/// prefix `00 50 F2` and the type 1.
pub const WPA_MARK: [u8; 4] = [0x00, 0x50, 0xF2, 0x01];

/// The name recorded for a network that sends an empty name.
pub const HIDDEN_NAME: &'static str = "<Hidden>";

/// The name of a network whose frame holds no name element.
pub const UNKNOWN_NAME: &'static str = "Unknown";

/// The attributes as values.
pub struct AttributesView {
    pub name: Option<Seq<char>>,
    pub channel: Option<u8>,
    pub encryption: EncryptionLevel,
}

/// The attributes before any element: no name, no channel, no encryption.
pub open spec fn initial_attributes() -> AttributesView {
    AttributesView { name: None, channel: None, encryption: EncryptionLevel::Open }
}

/// The name that a name element proposes: the text of its payload, or the
/// name for a hidden network where that text is empty.
pub open spec fn candidate_name(payload: Seq<u8>) -> Seq<char> {
    if name_text(payload).len() == 0 {
        HIDDEN_NAME@
    } else {
        name_text(payload)
    }
}

/// The name after a name element. The proposed name is adopted where no name
/// is recorded yet, and where the recorded name is that of a hidden network
/// and the element's text is not empty. Any other recorded name stays.
pub open spec fn absorb_name(current: Option<Seq<char>>, payload: Seq<u8>) -> Option<Seq<char>> {
    if current is None || (current == Some(HIDDEN_NAME@) && name_text(payload).len() > 0) {
        Some(candidate_name(payload))
    } else {
        current
    }
}

/// Whether the payload of a vendor-specific element starts with the bytes
/// `00 50 F2 01`, which mark WPA.
pub open spec fn is_vendor_wpa(payload: Seq<u8>) -> bool {
    payload.len() >= 4 && payload.take(4) == WPA_MARK@
}

/// The attributes after one more element.
pub open spec fn absorb_element(state: AttributesView, element: ElementView) -> AttributesView {
    if is_name(element) {
        AttributesView { name: absorb_name(state.name, element.payload), ..state }
    } else if gives_channel(element) {
        AttributesView { channel: Some(element.payload[0]), ..state }
    } else if is_rsn(element) {
        AttributesView { encryption: EncryptionLevel::Wpa2Wpa3, ..state }
    } else if marks_wpa(element) {
        AttributesView {
            encryption: if state.encryption == EncryptionLevel::Open {
                EncryptionLevel::Wpa
            } else {
                state.encryption
            },
            ..state
        }
    } else {
        state
    }
}

/// The attributes after a sequence of elements, taken in their order.
pub open spec fn aggregate_elements(elements: Seq<ElementView>) -> AttributesView
    decreases elements.len(),
{
    if elements.len() == 0 {
        initial_attributes()
    } else {
        absorb_element(aggregate_elements(elements.drop_last()), elements.last())
    }
}

/// The name that is reported: the recorded one, or that of an unknown network
/// where none was recorded.
pub open spec fn reported_name(name: Option<Seq<char>>) -> Seq<char> {
    match name {
        Some(text) => text,
        None => UNKNOWN_NAME@,
    }
}

/// What the elements of a frame have told so far.
#[derive(Clone, Debug, PartialEq, Eq)]
pub struct Attributes {
    pub name: Option<String>,
    pub channel: Option<u8>,
    pub encryption: EncryptionLevel,
}

impl View for Attributes {
    type V = AttributesView;

    open spec fn view(&self) -> AttributesView {
        AttributesView {
            name: match self.name {
                Some(text) => Some(text@),
                None => None,
            },
            channel: self.channel,
            encryption: self.encryption,
        }
    }
}

fn starts_with_wpa_mark(payload: &[u8]) -> (wpa: bool)
    ensures
        wpa == is_vendor_wpa(payload@),
{
    if payload.len() < 4 {
        return false;
    }
    let wpa = payload[0] == WPA_MARK[0] && payload[1] == WPA_MARK[1] && payload[2] == WPA_MARK[2]
        && payload[3] == WPA_MARK[3];
    proof {
        if wpa {
            assert(payload@.take(4) =~= WPA_MARK@);
        } else {
            assert(exists|i: int| 0 <= i < 4 && payload@.take(4)[i] != WPA_MARK@[i]);
        }
    }
    wpa
}

fn is_hidden_name(name: &String) -> (hidden: bool)
    ensures
        hidden == (name@ == HIDDEN_NAME@),
{
    let hidden = String::from_str(HIDDEN_NAME);
    *name == hidden
}

impl Attributes {
    /// The attributes before any element.
    pub fn new() -> (attributes: Self)
        ensures
            attributes@ == initial_attributes(),
    {
        Attributes { name: None, channel: None, encryption: EncryptionLevel::Open }
    }

    /// Takes one more element into the attributes.
    pub fn absorb(&mut self, element: &InformationElement<'_>)
        ensures
            final(self)@ == absorb_element(old(self)@, element@),
    {
        let id = element.id();
        let payload = element.payload();
        if id == NAME_ELEMENT {
            let text = decode_name(payload);
            let named = !text.as_str().is_empty();
            let adopt = match &self.name {
                None => true,
                Some(current) => named && is_hidden_name(current),
            };
            if adopt {
                if named {
                    self.name = Some(text);
                } else {
                    self.name = Some(String::from_str(HIDDEN_NAME));
                }
            }
        } else if id == CHANNEL_ELEMENT && payload.len() == 1 {
            self.channel = Some(payload[0]);
        } else if id == RSN_ELEMENT {
            self.encryption = EncryptionLevel::Wpa2Wpa3;
        } else if id == VENDOR_ELEMENT && starts_with_wpa_mark(payload) {
            self.encryption = self.encryption.merge(EncryptionLevel::Wpa);
        }
    }

    /// The name to report: the recorded one, or `Unknown` where the frame held
    /// no name element.
    pub fn reported_name(&self) -> (name: String)
        ensures
            name@ == reported_name(self@.name),
    {
        match &self.name {
            Some(text) => text.clone(),
            None => String::from_str(UNKNOWN_NAME),
        }
    }
}

/// Walks the elements of a frame to the end, or to the point where the frame
/// is cut off, and folds them into the attributes.
pub fn aggregate(frame: &[u8]) -> (attributes: Attributes)
    ensures
        attributes@ == aggregate_elements(frame_elements(frame@)),
{
    let mut walker = ElementWalker::new(frame);
    let mut attributes = Attributes::new();
    let ghost mut consumed = Seq::<ElementView>::empty();
    loop
        invariant_except_break
            consumed + walker.remaining() == frame_elements(frame@),
            attributes@ == aggregate_elements(consumed),
        ensures
            attributes@ == aggregate_elements(frame_elements(frame@)),
        decreases walker.remaining().len(),
    {
        let ghost before = walker.remaining();
        match walker.next() {
            Some(element) => {
                attributes.absorb(&element);
                proof {
                    assert(consumed.push(element@).drop_last() =~= consumed);
                    assert(consumed.push(element@) + walker.remaining() =~= consumed + before);
                    consumed = consumed.push(element@);
                }
            },
            None => {
                assert(consumed + before =~= consumed);
                break ;
            },
        }
    }
    attributes
}

/// Whether an element is an RSN element.
pub open spec fn is_rsn(element: ElementView) -> bool {
    element.id == RSN_ELEMENT
}

/// Whether an element is a vendor-specific element that marks WPA.
pub open spec fn marks_wpa(element: ElementView) -> bool {
    element.id == VENDOR_ELEMENT && is_vendor_wpa(element.payload)
}

/// Whether an element is a name element.
pub open spec fn is_name(element: ElementView) -> bool {
    element.id == NAME_ELEMENT
}

/// Whether an element is a channel element that gives a channel: one of
/// length 1.
pub open spec fn gives_channel(element: ElementView) -> bool {
    element.id == CHANNEL_ELEMENT && element.payload.len() == 1
}

/// Whether one of the elements is an RSN element.
pub open spec fn has_rsn(elements: Seq<ElementView>) -> bool {
    exists|i: int| 0 <= i < elements.len() && is_rsn(#[trigger] elements[i])
}

/// Whether one of the elements is a vendor-specific element that marks WPA.
pub open spec fn has_vendor_wpa(elements: Seq<ElementView>) -> bool {
    exists|i: int| 0 <= i < elements.len() && marks_wpa(#[trigger] elements[i])
}

/// Whether one of the elements is a name element.
pub open spec fn has_name(elements: Seq<ElementView>) -> bool {
    exists|i: int| 0 <= i < elements.len() && is_name(#[trigger] elements[i])
}

/// An element of some kind occurs in a sequence where it occurs before the
/// last element, or is the last element.
proof fn lemma_occurs_earlier_or_last(elements: Seq<ElementView>)
    requires
        elements.len() > 0,
    ensures
        has_rsn(elements) <==> has_rsn(elements.drop_last()) || is_rsn(elements.last()),
        has_vendor_wpa(elements) <==> has_vendor_wpa(elements.drop_last()) || marks_wpa(
            elements.last(),
        ),
        has_name(elements) <==> has_name(elements.drop_last()) || is_name(elements.last()),
{
    let earlier = elements.drop_last();
    let end = elements.len() - 1;
    assert(elements[end] == elements.last());
    assert forall|i: int| 0 <= i < end implies #[trigger] earlier[i] == elements[i] by {}
    if has_rsn(earlier) {
        let i = choose|i: int| 0 <= i < earlier.len() && is_rsn(#[trigger] earlier[i]);
        assert(is_rsn(elements[i]));
    }
    if has_rsn(elements) {
        let i = choose|i: int| 0 <= i < elements.len() && is_rsn(#[trigger] elements[i]);
        assert(i < end ==> is_rsn(earlier[i]));
    }
    if has_vendor_wpa(earlier) {
        let i = choose|i: int| 0 <= i < earlier.len() && marks_wpa(#[trigger] earlier[i]);
        assert(marks_wpa(elements[i]));
    }
    if has_vendor_wpa(elements) {
        let i = choose|i: int| 0 <= i < elements.len() && marks_wpa(#[trigger] elements[i]);
        assert(i < end ==> marks_wpa(earlier[i]));
    }
    if has_name(earlier) {
        let i = choose|i: int| 0 <= i < earlier.len() && is_name(#[trigger] earlier[i]);
        assert(is_name(elements[i]));
    }
    if has_name(elements) {
        let i = choose|i: int| 0 <= i < elements.len() && is_name(#[trigger] elements[i]);
        assert(i < end ==> is_name(earlier[i]));
    }
}

/// The encryption depends on which elements occur, not on their order: with an
/// RSN element anywhere it is `Wpa2Wpa3`, wherever a vendor element that marks
/// WPA may stand; with such a vendor element and no RSN element it is `Wpa`;
/// with neither it is `Open`.
pub proof fn lemma_encryption_by_presence(elements: Seq<ElementView>)
    ensures
        aggregate_elements(elements).encryption == if has_rsn(elements) {
            EncryptionLevel::Wpa2Wpa3
        } else if has_vendor_wpa(elements) {
            EncryptionLevel::Wpa
        } else {
            EncryptionLevel::Open
        },
    decreases elements.len(),
{
    if elements.len() > 0 {
        lemma_encryption_by_presence(elements.drop_last());
        lemma_occurs_earlier_or_last(elements);
    }
}

/// No element lowers the encryption: after one more element the level is the
/// same or higher.
pub proof fn lemma_element_never_lowers_encryption(state: AttributesView, element: ElementView)
    ensures
        absorb_element(state, element).encryption.rank() >= state.encryption.rank(),
{
}

/// Within one frame the encryption only rises: after more elements the level
/// is at least what it was after the first `k` of them.
pub proof fn lemma_encryption_only_rises(elements: Seq<ElementView>, k: int)
    requires
        0 <= k <= elements.len(),
    ensures
        aggregate_elements(elements).encryption.rank() >= aggregate_elements(
            elements.take(k),
        ).encryption.rank(),
    decreases elements.len(),
{
    if k == elements.len() {
        assert(elements.take(k) =~= elements);
    } else {
        let earlier = elements.drop_last();
        assert(earlier.take(k) =~= elements.take(k));
        lemma_encryption_only_rises(earlier, k);
        lemma_element_never_lowers_encryption(aggregate_elements(earlier), elements.last());
    }
}

/// A name element whose payload is all NUL proposes the name of a hidden
/// network, and where no name is recorded yet that name is recorded.
pub proof fn lemma_nul_name_is_hidden(payload: Seq<u8>)
    requires
        forall|i: int| 0 <= i < payload.len() ==> payload[i] == 0,
    ensures
        candidate_name(payload) == HIDDEN_NAME@,
        absorb_name(None, payload) == Some(HIDDEN_NAME@),
        aggregate_elements(seq![ElementView { id: NAME_ELEMENT, payload }]).name == Some(
            HIDDEN_NAME@,
        ),
{
    lemma_all_nul_leaves_nothing(payload);
    let elements = seq![ElementView { id: NAME_ELEMENT, payload }];
    assert(aggregate_elements(elements.drop_last()) == initial_attributes());
}

/// The name of a hidden network gives way to a later name element whose text
/// is not empty: that text is recorded.
pub proof fn lemma_hidden_name_gives_way(state: AttributesView, element: ElementView)
    requires
        state.name == Some(HIDDEN_NAME@),
        is_name(element),
        name_text(element.payload).len() > 0,
    ensures
        absorb_element(state, element).name == Some(name_text(element.payload)),
{
}

/// A recorded name other than that of a hidden network is never replaced,
/// whatever the element: not by an empty name, and not by another name.
pub proof fn lemma_adopted_name_stays(state: AttributesView, element: ElementView)
    requires
        state.name is Some,
        state.name != Some(HIDDEN_NAME@),
    ensures
        absorb_element(state, element).name == state.name,
{
}

/// Once the first `k` elements of a frame have given a name other than that
/// of a hidden network, the later elements leave it as it is.
pub proof fn lemma_adopted_name_is_final(elements: Seq<ElementView>, k: int)
    requires
        0 <= k <= elements.len(),
        aggregate_elements(elements.take(k)).name is Some,
        aggregate_elements(elements.take(k)).name != Some(HIDDEN_NAME@),
    ensures
        aggregate_elements(elements).name == aggregate_elements(elements.take(k)).name,
    decreases elements.len(),
{
    if k == elements.len() {
        assert(elements.take(k) =~= elements);
    } else {
        let earlier = elements.drop_last();
        assert(earlier.take(k) =~= elements.take(k));
        lemma_adopted_name_is_final(earlier, k);
        lemma_adopted_name_stays(aggregate_elements(earlier), elements.last());
    }
}

/// A name is recorded where a name element occurs, and only there: without
/// one the name of an unknown network is reported. A recorded name is never
/// empty.
pub proof fn lemma_name_is_recorded_by_name_elements(elements: Seq<ElementView>)
    ensures
        aggregate_elements(elements).name is Some <==> has_name(elements),
        !has_name(elements) ==> reported_name(aggregate_elements(elements).name) == UNKNOWN_NAME@,
        aggregate_elements(elements).name matches Some(text) ==> text.len() > 0,
        reported_name(aggregate_elements(elements).name).len() > 0,
    decreases elements.len(),
{
    reveal_strlit("<Hidden>");
    reveal_strlit("Unknown");
    if elements.len() > 0 {
        lemma_name_is_recorded_by_name_elements(elements.drop_last());
        lemma_occurs_earlier_or_last(elements);
    }
}

/// Of several channel elements the last one counts: the channel is the payload
/// byte of the element at `k` where no later element gives a channel.
pub proof fn lemma_last_channel_counts(elements: Seq<ElementView>, k: int)
    requires
        0 <= k < elements.len(),
        gives_channel(elements[k]),
        forall|i: int| k < i < elements.len() ==> !gives_channel(#[trigger] elements[i]),
    ensures
        aggregate_elements(elements).channel == Some(elements[k].payload[0]),
    decreases elements.len(),
{
    if k < elements.len() - 1 {
        let earlier = elements.drop_last();
        assert(!gives_channel(elements[elements.len() - 1]));
        assert forall|i: int| k < i < earlier.len() implies !gives_channel(
            #[trigger] earlier[i],
        ) by {
            assert(earlier[i] == elements[i]);
        }
        lemma_last_channel_counts(earlier, k);
    }
}

/// Without an element that gives a channel no channel is recorded.
pub proof fn lemma_no_channel_without_channel_element(elements: Seq<ElementView>)
    requires
        forall|i: int| 0 <= i < elements.len() ==> !gives_channel(#[trigger] elements[i]),
    ensures
        aggregate_elements(elements).channel is None,
    decreases elements.len(),
{
    if elements.len() > 0 {
        let earlier = elements.drop_last();
        assert(!gives_channel(elements[elements.len() - 1]));
        assert forall|i: int| 0 <= i < earlier.len() implies !gives_channel(
            #[trigger] earlier[i],
        ) by {
            assert(earlier[i] == elements[i]);
        }
        lemma_no_channel_without_channel_element(earlier);
    }
}

} // verus!
