use vstd::prelude::*;
use crate::model::AttrRef;

verus! {

/// How many attempts at reading an attribute a declaration's header gets.
pub const ATTR_STEP_LIMIT: usize = 10000;

/// What one attempt at reading the next attribute of a header found.
#[derive(Clone, Copy, Debug, PartialEq, Eq)]
pub enum AttrEvent {
    /// The marker `#[recursive_attrs]`.
    Marker,
    /// An attribute.
    Attribute(AttrRef),
    /// Something that is no attribute: the header's attributes end here.
    Other,
}

/// The attributes read so far from a declaration's header: those before
/// the marker stay with the declaration, those after it are handed down.
pub struct AttrsReader {
    pub local: Vec<AttrRef>,
    pub recursive: Vec<AttrRef>,
    pub after_marker: bool,
    pub steps: usize,
    pub finished: bool,
}

/// What an [`AttrsReader`] stands for.
pub struct ReaderModel {
    pub local: Seq<AttrRef>,
    pub recursive: Seq<AttrRef>,
    pub after_marker: bool,
    pub steps: nat,
    pub finished: bool,
}

impl View for AttrsReader {
    type V = ReaderModel;

    open spec fn view(&self) -> ReaderModel {
        ReaderModel {
            local: self.local@,
            recursive: self.recursive@,
            after_marker: self.after_marker,
            steps: self.steps as nat,
            finished: self.finished,
        }
    }
}

/// A reader that has read nothing.
pub open spec fn reader_start() -> ReaderModel {
    ReaderModel {
        local: Seq::empty(),
        recursive: Seq::empty(),
        after_marker: false,
        steps: 0,
        finished: false,
    }
}

/// Whether the reader tries to read another attribute.
pub open spec fn reader_wants_more(r: ReaderModel) -> bool {
    !r.finished && r.steps < ATTR_STEP_LIMIT
}

/// One step of reading: a marker sends later attributes to those handed
/// down, an attribute joins the list that is current, anything else ends
/// the header. A reader that wants no more ignores what it is given.
pub open spec fn reader_step(r: ReaderModel, e: AttrEvent) -> ReaderModel {
    if !reader_wants_more(r) {
        r
    } else {
        match e {
            AttrEvent::Marker => ReaderModel { after_marker: true, steps: r.steps + 1, ..r },
            AttrEvent::Attribute(a) => if r.after_marker {
                ReaderModel { recursive: r.recursive.push(a), steps: r.steps + 1, ..r }
            } else {
                ReaderModel { local: r.local.push(a), steps: r.steps + 1, ..r }
            },
            AttrEvent::Other => ReaderModel { finished: true, ..r },
        }
    }
}

/// The reader after the events `events`, from the start.
pub open spec fn read_all(events: Seq<AttrEvent>) -> ReaderModel
    decreases events.len(),
{
    if events.len() == 0 {
        reader_start()
    } else {
        reader_step(read_all(events.drop_last()), events.last())
    }
}

/// The attributes among `events`, in order.
pub open spec fn attrs_of(events: Seq<AttrEvent>) -> Seq<AttrRef>
    decreases events.len(),
{
    if events.len() == 0 {
        Seq::empty()
    } else {
        match events.last() {
            AttrEvent::Attribute(a) => attrs_of(events.drop_last()).push(a),
            _ => attrs_of(events.drop_last()),
        }
    }
}

/// Whether `events` holds only attributes.
pub open spec fn only_attributes(events: Seq<AttrEvent>) -> bool {
    forall|i: int| 0 <= i < events.len() ==> #[trigger] events[i] is Attribute
}

/// Whether `events` holds no event that ends the header.
pub open spec fn never_ends(events: Seq<AttrEvent>) -> bool {
    forall|i: int| 0 <= i < events.len() ==> !(#[trigger] events[i] is Other)
}

/// A header without the marker keeps all its attributes, in order, and
/// hands none down (within the limit of attempts).
pub proof fn law_attrs_without_marker(events: Seq<AttrEvent>)
    requires
        only_attributes(events),
        events.len() <= ATTR_STEP_LIMIT,
    ensures
        read_all(events) == (ReaderModel {
            local: attrs_of(events),
            recursive: Seq::empty(),
            after_marker: false,
            steps: events.len(),
            finished: false,
        }),
    decreases events.len(),
{
    if events.len() > 0 {
        let init = events.drop_last();
        assert forall|i: int| 0 <= i < init.len() implies #[trigger] init[i] is Attribute by {
            assert(init[i] == events[i]);
        }
        law_attrs_without_marker(init);
        assert(events.last() == events[events.len() - 1]);
    }
}

/// The attributes before the marker stay with the declaration and those
/// after it are handed down, each list in order (within the limit of
/// attempts); a second marker changes nothing.
pub proof fn law_attrs_split_at_marker(before: Seq<AttrEvent>, after: Seq<AttrEvent>)
    requires
        only_attributes(before),
        never_ends(after),
        before.len() + 1 + after.len() <= ATTR_STEP_LIMIT,
    ensures
        read_all(before + seq![AttrEvent::Marker] + after) == (ReaderModel {
            local: attrs_of(before),
            recursive: attrs_of(after),
            after_marker: true,
            steps: before.len() + 1 + after.len(),
            finished: false,
        }),
    decreases after.len(),
{
    let all = before + seq![AttrEvent::Marker] + after;
    if after.len() == 0 {
        assert(all.drop_last() =~= before);
        assert(all =~= before.push(AttrEvent::Marker));
        law_attrs_without_marker(before);
    } else {
        let init = after.drop_last();
        assert forall|i: int| 0 <= i < init.len() implies !(#[trigger] init[i] is Other) by {
            assert(init[i] == after[i]);
        }
        law_attrs_split_at_marker(before, init);
        assert(all.drop_last() =~= before + seq![AttrEvent::Marker] + init);
        assert(all.last() == after[after.len() - 1]);
    }
}

/// Once something that is no attribute ends the header, nothing more is read.
pub proof fn law_attrs_end(events: Seq<AttrEvent>, more: Seq<AttrEvent>)
    ensures
        read_all(events.push(AttrEvent::Other) + more) == read_all(events.push(AttrEvent::Other)),
        !reader_wants_more(read_all(events.push(AttrEvent::Other))),
    decreases more.len(),
{
    let ended = events.push(AttrEvent::Other);
    assert(ended.drop_last() =~= events);
    if more.len() > 0 {
        law_attrs_end(events, more.drop_last());
        assert((ended + more).drop_last() =~= ended + more.drop_last());
    } else {
        assert(ended + more =~= ended);
    }
}

/// The reader makes at most [`ATTR_STEP_LIMIT`] attempts, and keeps one
/// attribute for each attempt that found one.
pub proof fn law_attrs_bounded(events: Seq<AttrEvent>)
    ensures
        read_all(events).steps <= ATTR_STEP_LIMIT,
        read_all(events).local.len() + read_all(events).recursive.len() <= read_all(events).steps,
    decreases events.len(),
{
    if events.len() > 0 {
        law_attrs_bounded(events.drop_last());
    }
}

/// The attributes of a run of attribute events are those events' attributes,
/// each in its place.
pub proof fn law_attrs_of_attributes(events: Seq<AttrEvent>)
    requires
        only_attributes(events),
    ensures
        attrs_of(events).len() == events.len(),
        forall|i: int| 0 <= i < events.len() ==> events[i] == AttrEvent::Attribute(#[trigger] attrs_of(events)[i]),
    decreases events.len(),
{
    if events.len() > 0 {
        let init = events.drop_last();
        assert forall|i: int| 0 <= i < init.len() implies #[trigger] init[i] is Attribute by {
            assert(init[i] == events[i]);
        }
        law_attrs_of_attributes(init);
        assert(events.last() == events[events.len() - 1]);
        assert forall|i: int| 0 <= i < events.len() implies events[i] == AttrEvent::Attribute(#[trigger] attrs_of(events)[i]) by {
            if i < events.len() - 1 {
                assert(init[i] == events[i]);
            }
        }
    }
}

/// What ends the header moves no attribute: both lists stay as they were.
pub proof fn law_attrs_end_keeps_lists(events: Seq<AttrEvent>)
    ensures
        read_all(events.push(AttrEvent::Other)).local == read_all(events).local,
        read_all(events.push(AttrEvent::Other)).recursive == read_all(events).recursive,
        read_all(events.push(AttrEvent::Other)).after_marker == read_all(events).after_marker,
{
    assert(events.push(AttrEvent::Other).drop_last() =~= events);
}

/// A whole header, ended by something that is no attribute: the attributes
/// before the marker stay with the declaration and every attribute after it
/// is handed down, each list in order.
pub proof fn law_attrs_header(before: Seq<AttrEvent>, after: Seq<AttrEvent>)
    requires
        only_attributes(before),
        never_ends(after),
        before.len() + 1 + after.len() <= ATTR_STEP_LIMIT,
    ensures
        read_all((before + seq![AttrEvent::Marker] + after).push(AttrEvent::Other)).local == attrs_of(before),
        read_all((before + seq![AttrEvent::Marker] + after).push(AttrEvent::Other)).recursive == attrs_of(after),
        !reader_wants_more(read_all((before + seq![AttrEvent::Marker] + after).push(AttrEvent::Other))),
{
    law_attrs_split_at_marker(before, after);
    law_attrs_end_keeps_lists(before + seq![AttrEvent::Marker] + after);
    law_attrs_end(before + seq![AttrEvent::Marker] + after, Seq::empty());
}

impl AttrsReader {
    /// A reader that has read nothing.
    pub fn new() -> (r: AttrsReader)
        ensures
            r@ == reader_start(),
    {
        AttrsReader {
            local: Vec::new(),
            recursive: Vec::new(),
            after_marker: false,
            steps: 0,
            finished: false,
        }
    }

    /// Whether the reader tries to read another attribute.
    pub fn wants_more(&self) -> (b: bool)
        ensures
            b == reader_wants_more(self@),
    {
        !self.finished && self.steps < ATTR_STEP_LIMIT
    }

    /// Takes what one attempt at reading found.
    pub fn step(&mut self, e: AttrEvent)
        ensures
            final(self)@ == reader_step(old(self)@, e),
            e is Other ==> final(self).local@ == old(self).local@ && final(self).recursive@ == old(self).recursive@,
            e is Marker ==> final(self).local@ == old(self).local@ && final(self).recursive@ == old(self).recursive@,
    {
        if !self.wants_more() {
            return;
        }
        match e {
            AttrEvent::Marker => {
                self.after_marker = true;
                self.steps = self.steps + 1;
            },
            AttrEvent::Attribute(a) => {
                if self.after_marker {
                    self.recursive.push(a);
                } else {
                    self.local.push(a);
                }
                self.steps = self.steps + 1;
            },
            AttrEvent::Other => {
                self.finished = true;
            },
        }
    }
}

} // verus!
