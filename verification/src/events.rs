//! Events as the log hands them over: an envelope of identifier, kind, time
//! and tags around one record, already parsed or marked as malformed.

use vstd::prelude::*;
use crate::model::{
    BidView, DeliveryBid, DeliveryRequest, DeliveryView, ProfileView, StatusUpdate, UpdateView,
    UserProfile,
};
use crate::status::{kind_status_spec, KIND_BID, KIND_DELIVERY, KIND_PROFILE};
use crate::text::same_text;

verus! {

/// The record inside an event. `Malformed` stands for content that did not
/// parse into the shape its kind calls for.
#[derive(Clone, Debug)]
pub enum Payload {
    Delivery(DeliveryRequest),
    Bid(DeliveryBid),
    Update(StatusUpdate),
    Profile(UserProfile),
    Malformed,
}

/// The mathematical view of a [`Payload`].
pub enum PayloadView {
    Delivery(DeliveryView),
    Bid(BidView),
    Update(UpdateView),
    Profile(ProfileView),
    Malformed,
}

impl View for Payload {
    type V = PayloadView;

    open spec fn view(&self) -> PayloadView {
        match *self {
            Payload::Delivery(d) => PayloadView::Delivery(d@),
            Payload::Bid(b) => PayloadView::Bid(b@),
            Payload::Update(u) => PayloadView::Update(u@),
            Payload::Profile(p) => PayloadView::Profile(p@),
            Payload::Malformed => PayloadView::Malformed,
        }
    }
}

/// One event of the log.
#[derive(Clone, Debug)]
pub struct LogEvent {
    pub id: String,
    pub kind: u16,
    pub created_at: i64,
    pub tags: Vec<Vec<String>>,
    pub payload: Payload,
}

/// The mathematical view of a [`LogEvent`].
pub struct EventView {
    pub id: Seq<char>,
    pub kind: u16,
    pub created_at: i64,
    pub tags: Seq<Seq<Seq<char>>>,
    pub payload: PayloadView,
}

impl View for LogEvent {
    type V = EventView;

    open spec fn view(&self) -> EventView {
        EventView {
            id: self.id@,
            kind: self.kind,
            created_at: self.created_at,
            tags: self.tags.deep_view(),
            payload: self.payload@,
        }
    }
}

impl DeepView for LogEvent {
    type V = EventView;

    open spec fn deep_view(&self) -> EventView {
        self@
    }
}

/// Which record the content of an event of a given kind holds.
#[derive(Clone, Copy, Debug, PartialEq, Eq, Structural)]
pub enum RecordKind {
    Delivery,
    Bid,
    Update,
    Profile,
    Unknown,
}

pub open spec fn record_kind_spec(kind: u16) -> RecordKind {
    if kind == KIND_DELIVERY {
        RecordKind::Delivery
    } else if kind == KIND_BID {
        RecordKind::Bid
    } else if kind == KIND_PROFILE {
        RecordKind::Profile
    } else if kind_status_spec(kind) is Some {
        RecordKind::Update
    } else {
        RecordKind::Unknown
    }
}

/// The record that the content of an event of kind `kind` is parsed as.
pub fn record_kind(kind: u16) -> (r: RecordKind)
    ensures
        r == record_kind_spec(kind),
{
    if kind == KIND_DELIVERY {
        RecordKind::Delivery
    } else if kind == KIND_BID {
        RecordKind::Bid
    } else if kind == KIND_PROFILE {
        RecordKind::Profile
    } else if 35002 <= kind && kind <= 35006 {
        RecordKind::Update
    } else {
        RecordKind::Unknown
    }
}

/// Whether `tag` is the pair of `name` and `value`, whatever follows them.
pub open spec fn tag_is(tag: Seq<Seq<char>>, name: Seq<char>, value: Seq<char>) -> bool {
    tag.len() >= 2 && tag[0] == name && tag[1] == value
}

/// Whether one of `tags` is the pair of `name` and `value`.
pub open spec fn has_tag_spec(tags: Seq<Seq<Seq<char>>>, name: Seq<char>, value: Seq<char>) -> bool {
    exists|i: int| 0 <= i < tags.len() && tag_is(#[trigger] tags[i], name, value)
}

/// Whether one of `tags` is the pair of `name` and `value`.
pub fn has_tag(tags: &Vec<Vec<String>>, name: &str, value: &str) -> (r: bool)
    ensures
        r == has_tag_spec(tags.deep_view(), name@, value@),
{
    let mut i: usize = 0;
    while i < tags.len()
        invariant
            i <= tags.len(),
            forall|j: int| 0 <= j < i ==> !tag_is(#[trigger] tags.deep_view()[j], name@, value@),
        decreases tags.len() - i,
    {
        let tag = &tags[i];
        assert(tags.deep_view()[i as int] == tag.deep_view());
        if tag.len() >= 2 {
            assert(tag.deep_view()[0] == tag@[0]@);
            assert(tag.deep_view()[1] == tag@[1]@);
            if same_text(tag[0].as_str(), name) && same_text(tag[1].as_str(), value) {
                return true;
            }
        }
        i += 1;
    }
    false
}

} // verus!
