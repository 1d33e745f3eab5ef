//! Domain names: their labels, their wire form with compression pointers,
//! and the laws that encoding and decoding obey.

use crate::buffer::{
    label_buffer, label_extend, label_octets, label_slice, name_buffer, name_extend,
    name_octets, name_slice,
};
use crate::decoder::Decoder;
use crate::error::DnsError;
use crate::text::{string_of, text_of};
use arrayvec::ArrayVec;
use vstd::prelude::*;
use vstd::string::StringSliceAdditionalSpecFns;
use vstd::utf8::{encode_utf8, valid_utf8};

verus! {

/// The most octets that one label holds.
pub const MAX_LABEL_SIZE: usize = 63;

/// The most octets that the wire form of a name holds, length octets and
/// the closing zero octet included.
pub const MAX_NAME_SIZE: usize = 255;

/// The most compression pointers that the decoding of one name follows.
/// A name has at most 127 labels, so no name needs a longer chain.
pub const MAX_POINTER_HOPS: usize = 127;

/// The octet that separates the components of a name in text.
pub const DOT: u8 = 0x2e;

/// One label of a name.
#[derive(Debug, PartialEq, Eq)]
pub enum Label {
    /// The octets of one component, without their length octet.
    Part(ArrayVec<u8, 63>),
    /// The root label, which closes every name.
    Empty,
}

/// What a `Label` stands for.
pub enum LabelView {
    /// A component with these octets.
    Part(Seq<u8>),
    /// The root label.
    Empty,
}

impl LabelView {
    /// The octets of the label; the root label has none.
    pub open spec fn octets(self) -> Seq<u8> {
        match self {
            LabelView::Part(octets) => octets,
            LabelView::Empty => Seq::empty(),
        }
    }

    /// The label on the wire: its length octet, then its octets. The root
    /// label is a single zero octet.
    pub open spec fn wire(self) -> Seq<u8> {
        match self {
            LabelView::Part(octets) => seq![octets.len() as u8] + octets,
            LabelView::Empty => seq![0u8],
        }
    }
}

impl View for Label {
    type V = LabelView;

    open spec fn view(&self) -> LabelView {
        match self {
            Label::Part(octets) => LabelView::Part(label_octets(*octets)),
            Label::Empty => LabelView::Empty,
        }
    }
}

impl Clone for Label {
    /// A label that stands for the same as this one.
    fn clone(&self) -> (copy: Self)
        ensures
            copy@ == self@,
    {
        match self {
            Label::Part(octets) => {
                let mut copy = label_buffer();
                let fits = label_extend(&mut copy, label_slice(octets));
                assert(fits is Ok);
                Label::Part(copy)
            },
            Label::Empty => Label::Empty,
        }
    }
}

/// What each of the labels stands for, in order.
pub open spec fn label_views(labels: Seq<Label>) -> Seq<LabelView> {
    labels.map_values(|label: Label| label@)
}

/// The labels on the wire, one after the other.
pub open spec fn labels_wire(labels: Seq<LabelView>) -> Seq<u8>
    decreases labels.len(),
{
    if labels.len() == 0 {
        Seq::empty()
    } else {
        labels_wire(labels.drop_last()) + labels.last().wire()
    }
}

/// The label at `pos`: a length octet below 64 and that many octets, or
/// the zero octet of the root label.
pub open spec fn label_at(buf: Seq<u8>, pos: int) -> Result<(LabelView, int), DnsError> {
    if pos < 0 || pos >= buf.len() {
        Err(DnsError::Truncated)
    } else if buf[pos] == 0 {
        Ok((LabelView::Empty, pos + 1))
    } else if buf[pos] > MAX_LABEL_SIZE {
        Err(DnsError::InvalidLabel)
    } else if pos + 1 + buf[pos] > buf.len() {
        Err(DnsError::Truncated)
    } else {
        Ok((LabelView::Part(buf.subrange(pos + 1, pos + 1 + buf[pos])), pos + 1 + buf[pos]))
    }
}

impl Label {
    /// A label with the given octets; `LabelTooLong` where they are more
    /// than 63.
    pub fn from_octets(octets: &[u8]) -> (r: Result<Label, DnsError>)
        ensures
            match r {
                Ok(label) => octets@.len() <= MAX_LABEL_SIZE && label@ == LabelView::Part(octets@),
                Err(e) => e == DnsError::LabelTooLong && octets@.len() > MAX_LABEL_SIZE,
            },
    {
        let mut label = label_buffer();
        match label_extend(&mut label, octets) {
            Ok(()) => Ok(Label::Part(label)),
            Err(_) => Err(DnsError::LabelTooLong),
        }
    }

    /// The label for one component of a name in text; `LabelTooLong` where
    /// the component has more than 63 octets.
    pub fn encode(part: &str) -> (r: Result<Label, DnsError>)
        ensures
            match r {
                Ok(label) => {
                    &&& part.spec_bytes().len() <= MAX_LABEL_SIZE
                    &&& label@ == LabelView::Part(part.spec_bytes())
                },
                Err(e) => e == DnsError::LabelTooLong && part.spec_bytes().len() > MAX_LABEL_SIZE,
            },
    {
        Label::from_octets(part.as_bytes())
    }

    /// The label as text, where its octets are valid UTF-8. The root label
    /// is the empty text.
    pub fn as_str(&self) -> (r: Option<&str>)
        ensures
            r is Some <==> valid_utf8(self@.octets()),
            r matches Some(text) ==> text.spec_bytes() == self@.octets(),
    {
        match self {
            Label::Part(octets) => match text_of(label_slice(octets)) {
                Ok(text) => Some(text),
                Err(_) => None,
            },
            Label::Empty => {
                proof {
                    reveal_strlit("");
                    assert("".spec_bytes() =~= Seq::<u8>::empty()) by {
                        assert(""@ =~= Seq::<char>::empty());
                        reveal_with_fuel(encode_utf8, 1);
                    }
                    assert(valid_utf8(Seq::<u8>::empty()));
                }
                Some("")
            },
        }
    }

    /// Reads one label: its length octet and then its octets. A length
    /// octet above 63 is no label. On an error nothing is consumed.
    pub fn decode(decoder: &mut Decoder) -> (r: Result<Label, DnsError>)
        ensures
            final(decoder).bytes() == old(decoder).bytes(),
            match r {
                Ok(label) => label_at(old(decoder).bytes(), old(decoder).offset() as int) == Ok::<
                    (LabelView, int),
                    DnsError,
                >((label@, final(decoder).offset() as int)),
                Err(e) => {
                    &&& label_at(old(decoder).bytes(), old(decoder).offset() as int) == Err::<
                        (LabelView, int),
                        DnsError,
                    >(e)
                    &&& final(decoder).offset() == old(decoder).offset()
                },
            },
    {
        let mut cursor = *decoder;
        let length = match cursor.pop() {
            Some(octet) => octet,
            None => { return Err(DnsError::Truncated); },
        };
        if length == 0 {
            *decoder = cursor;
            return Ok(Label::Empty);
        }
        if length as usize > MAX_LABEL_SIZE {
            return Err(DnsError::InvalidLabel);
        }
        let octets = cursor.read_slice(length as usize)?;
        let label = Label::from_octets(octets)?;
        *decoder = cursor;
        Ok(label)
    }
}

/// The components of a name in text: the runs of octets between its dots.
/// A name without a dot is one component, and so is the empty name.
pub open spec fn components(text: Seq<u8>) -> Seq<Seq<u8>>
    decreases text.len(),
{
    if text.len() == 0 {
        seq![Seq::empty()]
    } else {
        let before = components(text.drop_last());
        if text.last() == DOT {
            before.push(Seq::empty())
        } else {
            before.update(before.len() - 1, before.last().push(text.last()))
        }
    }
}

/// Whether some component of the name in text has more than 63 octets.
pub open spec fn has_long_component(text: Seq<u8>) -> bool {
    exists|k: int|
        0 <= k < components(text).len() && (#[trigger] components(text)[k]).len()
            > MAX_LABEL_SIZE
}

/// The labels of the name with the given components: one for each, in
/// order, and the root label behind them.
pub open spec fn name_labels(parts: Seq<Seq<u8>>) -> Seq<LabelView> {
    parts.map_values(|octets: Seq<u8>| LabelView::Part(octets)).push(LabelView::Empty)
}

/// The labels of a name in text.
pub open spec fn text_labels(text: Seq<u8>) -> Seq<LabelView> {
    name_labels(components(text))
}

/// What encoding a name in text gives: its wire form, `LabelTooLong` where
/// a component has more than 63 octets, and else `NameTooLong` where the
/// wire form has more than 255.
pub open spec fn encode_name(text: Seq<u8>) -> Result<Seq<u8>, DnsError> {
    if has_long_component(text) {
        Err(DnsError::LabelTooLong)
    } else if labels_wire(text_labels(text)).len() > MAX_NAME_SIZE {
        Err(DnsError::NameTooLong)
    } else {
        Ok(labels_wire(text_labels(text)))
    }
}

/// The components of the first `upto` octets of a name are those of the
/// whole name, but for the last of them, which the whole name may extend.
pub proof fn lemma_components_prefix(text: Seq<u8>, upto: int)
    requires
        0 <= upto <= text.len(),
    ensures
        1 <= components(text.take(upto)).len() <= components(text).len(),
        forall|k: int|
            0 <= k < components(text.take(upto)).len() - 1 ==> components(text.take(upto))[k]
                == components(text)[k],
        components(text.take(upto)).last().len() <= components(text)[components(
            text.take(upto),
        ).len() - 1].len(),
    decreases text.len() - upto,
{
    if upto == text.len() {
        assert(text.take(upto) =~= text);
        lemma_components_nonempty(text);
    } else {
        lemma_components_prefix(text.drop_last(), upto);
        assert(text.drop_last().take(upto) =~= text.take(upto));
    }
}

/// A name in text has at least one component.
pub proof fn lemma_components_nonempty(text: Seq<u8>)
    ensures
        components(text).len() >= 1,
    decreases text.len(),
{
    if text.len() > 0 {
        lemma_components_nonempty(text.drop_last());
    }
}

/// Splits a name in text at its dots and returns one label for each
/// component, in order, and the root label behind them. A component of more
/// than 63 octets is rejected with `LabelTooLong`.
pub fn encode_domain(domain: &str) -> (r: Result<Vec<Label>, DnsError>)
    ensures
        match r {
            Ok(labels) => {
                &&& !has_long_component(domain.spec_bytes())
                &&& label_views(labels@) == text_labels(domain.spec_bytes())
            },
            Err(e) => e == DnsError::LabelTooLong && has_long_component(domain.spec_bytes()),
        },
{
    let text = domain.as_bytes();
    let mut labels: Vec<Label> = Vec::new();
    let mut start: usize = 0;
    let mut i: usize = 0;
    proof {
        assert(text@.take(0) =~= Seq::<u8>::empty());
        assert(text@.subrange(0, 0) =~= Seq::<u8>::empty());
    }
    while i < text.len()
        invariant
            start <= i <= text@.len(),
            text@ == domain.spec_bytes(),
            components(text@.take(i as int)).len() == labels@.len() + 1,
            components(text@.take(i as int)).last() == text@.subrange(start as int, i as int),
            forall|k: int|
                0 <= k < labels@.len() ==> {
                    &&& (#[trigger] labels@[k])@ == LabelView::Part(
                        components(text@.take(i as int))[k],
                    )
                    &&& components(text@.take(i as int))[k].len() <= MAX_LABEL_SIZE
                },
        decreases text@.len() - i,
    {
        let ghost before = components(text@.take(i as int));
        proof {
            assert(text@.take(i + 1).drop_last() =~= text@.take(i as int));
            assert(text@.take(i + 1).last() == text@[i as int]);
        }
        if text[i] == DOT {
            let part = vstd::slice::slice_subrange(text, start, i);
            match Label::from_octets(part) {
                Ok(label) => {
                    labels.push(label);
                },
                Err(e) => {
                    proof {
                        lemma_components_prefix(text@, i as int);
                        assert(components(text@)[before.len() - 1].len() > MAX_LABEL_SIZE);
                    }
                    return Err(e);
                },
            }
            start = i + 1;
            proof {
                assert(text@.subrange(start as int, i + 1) =~= Seq::<u8>::empty());
            }
        } else {
            proof {
                assert(text@.subrange(start as int, i + 1) =~= text@.subrange(
                    start as int,
                    i as int,
                ).push(text@[i as int]));
            }
        }
        i = i + 1;
    }
    proof {
        assert(text@.take(i as int) =~= text@);
    }
    let part = vstd::slice::slice_subrange(text, start, i);
    match Label::from_octets(part) {
        Ok(label) => {
            labels.push(label);
        },
        Err(e) => {
            assert(components(text@)[labels@.len() as int].len() > MAX_LABEL_SIZE);
            return Err(e);
        },
    }
    labels.push(Label::Empty);
    proof {
        assert(label_views(labels@) =~= text_labels(text@));
        assert forall|k: int| 0 <= k < components(text@).len() implies (
        #[trigger] components(text@)[k]).len() <= MAX_LABEL_SIZE by {
            assert(labels@[k]@ == LabelView::Part(components(text@)[k]));
        }
    }
    Ok(labels)
}

/// The offset that a compression pointer with these two octets names: the
/// low six bits of the first octet, then the second octet.
pub open spec fn pointer_target(first: u8, second: u8) -> int {
    (first as int - 192) * 256 + second as int
}

/// Whether a compression pointer stands at `pos` and names `target`.
pub open spec fn points_to(buf: Seq<u8>, pos: int, target: int) -> bool {
    &&& 0 <= pos
    &&& pos + 2 <= buf.len()
    &&& buf[pos] >= 192
    &&& pointer_target(buf[pos], buf[pos + 1]) == target
}

/// The labels of the name that starts at `pos`, and the offset behind that
/// name's octets at `pos`, where at most `hops` compression pointers may
/// be followed.
///
/// A zero octet ends the name. A length octet below 64 starts a label. An
/// octet from 192 on starts a two-octet pointer to an offset in the same
/// message, where the name goes on; the pointer must lead to an offset
/// below its own. The octets 64 to 191 are reserved.
pub open spec fn name_at(buf: Seq<u8>, pos: int, hops: nat) -> Result<
    (Seq<LabelView>, int),
    DnsError,
>
    decreases hops, buf.len() - pos,
{
    if pos < 0 || pos >= buf.len() {
        Err(DnsError::Truncated)
    } else if buf[pos] == 0 {
        Ok((seq![LabelView::Empty], pos + 1))
    } else if buf[pos] < 64 {
        let next = pos + 1 + buf[pos];
        if next > buf.len() {
            Err(DnsError::Truncated)
        } else {
            match name_at(buf, next, hops) {
                Ok((rest, end)) => Ok(
                    (seq![LabelView::Part(buf.subrange(pos + 1, next))] + rest, end),
                ),
                Err(e) => Err(e),
            }
        }
    } else if buf[pos] < 192 {
        Err(DnsError::InvalidLabel)
    } else if pos + 2 > buf.len() {
        Err(DnsError::Truncated)
    } else {
        let target = pointer_target(buf[pos], buf[pos + 1]);
        if target >= buf.len() {
            Err(DnsError::Truncated)
        } else if target >= pos || hops == 0 {
            Err(DnsError::PointerLoop)
        } else {
            match name_at(buf, target, (hops - 1) as nat) {
                Ok((rest, _)) => Ok((rest, pos + 2)),
                Err(e) => Err(e),
            }
        }
    }
}

/// What a decoding that has read `prefix` comes to, where the rest of the
/// name decodes to `rest`. The name's end in the message is `end`, where a
/// pointer has fixed it, and else the end of the rest.
pub open spec fn resume(
    prefix: Seq<LabelView>,
    rest: Result<(Seq<LabelView>, int), DnsError>,
    end: Option<int>,
) -> Result<(Seq<LabelView>, int), DnsError> {
    match rest {
        Ok((more, stop)) => Ok(
            (
                prefix + more,
                match end {
                    Some(fixed) => fixed,
                    None => stop,
                },
            ),
        ),
        Err(e) => Err(e),
    }
}

/// Reads the labels of one name, the closing root label included, and
/// follows compression pointers through the message. The cursor ends behind
/// the name's octets at its old position: behind the zero octet, or behind
/// the first pointer. On an error nothing is consumed.
pub fn decode_domain(decoder: &mut Decoder) -> (r: Result<Vec<Label>, DnsError>)
    ensures
        final(decoder).bytes() == old(decoder).bytes(),
        match r {
            Ok(labels) => {
                &&& name_at(
                    old(decoder).bytes(),
                    old(decoder).offset() as int,
                    MAX_POINTER_HOPS as nat,
                ) == Ok::<(Seq<LabelView>, int), DnsError>(
                    (label_views(labels@), final(decoder).offset() as int),
                )
                &&& final(decoder).offset() > old(decoder).offset()
            },
            Err(e) => {
                &&& name_at(
                    old(decoder).bytes(),
                    old(decoder).offset() as int,
                    MAX_POINTER_HOPS as nat,
                ) == Err::<(Seq<LabelView>, int), DnsError>(e)
                &&& final(decoder).offset() == old(decoder).offset()
            },
        },
{
    let ghost buf = decoder.bytes();
    let ghost whole = name_at(buf, decoder.offset() as int, MAX_POINTER_HOPS as nat);
    proof {
        lemma_name_extent(buf, decoder.offset() as int, MAX_POINTER_HOPS as nat);
    }
    let mut labels: Vec<Label> = Vec::new();
    let mut cursor = *decoder;
    let mut after: Option<Decoder> = None;
    let mut hops: usize = MAX_POINTER_HOPS;
    proof {
        assert(label_views(labels@) =~= Seq::<LabelView>::empty());
        assert(forall|more: Seq<LabelView>| Seq::<LabelView>::empty() + more =~= more);
    }
    loop
        invariant
            cursor.bytes() == buf,
            old(decoder).bytes() == buf,
            *decoder == *old(decoder),
            whole == name_at(buf, old(decoder).offset() as int, MAX_POINTER_HOPS as nat),
            whole matches Ok((_, end)) ==> old(decoder).offset() < end,
            after matches Some(fixed) ==> fixed.bytes() == buf,
            whole == resume(
                label_views(labels@),
                name_at(buf, cursor.offset() as int, hops as nat),
                match after {
                    Some(fixed) => Some(fixed.offset() as int),
                    None => None,
                },
            ),
        decreases hops, buf.len() - cursor.offset(),
    {
        let ghost read = label_views(labels@);
        let start = cursor.current();
        let octet = match cursor.peek() {
            Some(octet) => octet,
            None => { return Err(DnsError::Truncated); },
        };
        if octet < 64 {
            let label = Label::decode(&mut cursor)?;
            labels.push(label);
            proof {
                assert(label_views(labels@) =~= read.push(label@));
                if octet == 0 {
                    assert(read + seq![LabelView::Empty] =~= read.push(label@));
                } else {
                    let rest = name_at(buf, cursor.offset() as int, hops as nat);
                    if let Ok((more, stop)) = rest {
                        assert(read + (seq![label@] + more) =~= read.push(label@) + more);
                    }
                }
            }
            if octet == 0 {
                *decoder = match after {
                    Some(fixed) => fixed,
                    None => cursor,
                };
                return Ok(labels);
            }
        } else if octet < 192 {
            return Err(DnsError::InvalidLabel);
        } else {
            let pair = cursor.read_slice(2)?;
            let target: usize = (pair[0] as usize - 192) * 256 + pair[1] as usize;
            let jumped = cursor.clone_at_index(target)?;
            if target >= start || hops == 0 {
                return Err(DnsError::PointerLoop);
            }
            if after.is_none() {
                after = Some(cursor);
            }
            cursor = jumped;
            hops = hops - 1;
        }
    }
}

/// A name takes at least one octet at its position, and ends inside the
/// message.
pub proof fn lemma_name_extent(buf: Seq<u8>, pos: int, hops: nat)
    ensures
        name_at(buf, pos, hops) matches Ok((_, end)) ==> pos < end <= buf.len(),
    decreases hops, buf.len() - pos,
{
    if 0 <= pos < buf.len() && 0 < buf[pos] < 64 && pos + 1 + buf[pos] <= buf.len() {
        lemma_name_extent(buf, pos + 1 + buf[pos], hops);
    }
}

/// The wire form of the name at `pos`, and the offset behind that name's
/// octets at `pos`. A name whose wire form has more than 255 octets is
/// rejected with `NameTooLong`.
pub open spec fn domain_at(buf: Seq<u8>, pos: int) -> Result<(Seq<u8>, int), DnsError> {
    match name_at(buf, pos, MAX_POINTER_HOPS as nat) {
        Ok((labels, end)) => if labels_wire(labels).len() > MAX_NAME_SIZE {
            Err(DnsError::NameTooLong)
        } else {
            Ok((labels_wire(labels), end))
        },
        Err(e) => Err(e),
    }
}

/// The first labels of a name take no more octets than all of them.
pub proof fn lemma_labels_wire_grows(labels: Seq<LabelView>, upto: int)
    requires
        0 <= upto <= labels.len(),
    ensures
        labels_wire(labels.take(upto)).len() <= labels_wire(labels).len(),
    decreases labels.len() - upto,
{
    if upto == labels.len() {
        assert(labels.take(upto) =~= labels);
    } else {
        lemma_labels_wire_grows(labels.drop_last(), upto);
        assert(labels.drop_last().take(upto) =~= labels.take(upto));
    }
}

/// The name in text: the octets of its labels with a dot between each two.
/// The root label has no octets, so a whole name ends in a dot.
pub open spec fn dotted(labels: Seq<LabelView>) -> Seq<u8>
    decreases labels.len(),
{
    if labels.len() == 0 {
        Seq::empty()
    } else if labels.len() == 1 {
        labels[0].octets()
    } else {
        dotted(labels.drop_last()) + seq![DOT] + labels.last().octets()
    }
}

/// The octets of the text that a name in wire form is shown as: those of
/// the labels that it decodes to, with dots between them. A wire form that
/// holds no whole name, or whose text is not valid UTF-8, is not shown.
pub open spec fn display_octets(wire: Seq<u8>) -> Option<Seq<u8>> {
    match name_at(wire, 0, MAX_POINTER_HOPS as nat) {
        Ok((labels, _)) => if valid_utf8(dotted(labels)) {
            Some(dotted(labels))
        } else {
            None
        },
        Err(_) => None,
    }
}

/// A domain name in its wire form: each label behind its length octet. The
/// wire form never has more than 255 octets.
#[derive(Debug, PartialEq, Eq)]
pub struct Domain(ArrayVec<u8, 255>);

impl View for Domain {
    type V = Seq<u8>;

    /// The octets of the wire form.
    closed spec fn view(&self) -> Seq<u8> {
        name_octets(self.0)
    }
}

impl Clone for Domain {
    /// A name with the same wire form.
    fn clone(&self) -> (copy: Self)
        ensures
            copy@ == self@,
    {
        let mut copy = name_buffer();
        let fits = name_extend(&mut copy, name_slice(&self.0));
        assert(fits is Ok);
        Domain(copy)
    }
}

impl Domain {
    /// The name that is made of the given labels, in their order. Labels
    /// that take more than 255 octets on the wire are rejected with
    /// `NameTooLong`.
    pub fn from_iter(labels: &Vec<Label>) -> (r: Result<Domain, DnsError>)
        ensures
            match r {
                Ok(domain) => {
                    &&& domain@ == labels_wire(label_views(labels@))
                    &&& domain@.len() <= MAX_NAME_SIZE
                },
                Err(e) => {
                    &&& e == DnsError::NameTooLong
                    &&& labels_wire(label_views(labels@)).len() > MAX_NAME_SIZE
                },
            },
    {
        let ghost views = label_views(labels@);
        let mut me = name_buffer();
        let mut i: usize = 0;
        proof {
            assert(views.take(0) =~= Seq::<LabelView>::empty());
        }
        while i < labels.len()
            invariant
                i <= labels@.len(),
                views == label_views(labels@),
                name_octets(me) == labels_wire(views.take(i as int)),
                name_octets(me).len() <= MAX_NAME_SIZE,
            decreases labels@.len() - i,
        {
            proof {
                assert(views.take(i + 1).drop_last() =~= views.take(i as int));
                assert(views.take(i + 1).last() == labels@[i as int]@);
                lemma_labels_wire_grows(views, i + 1);
            }
            let fits = match &labels[i] {
                Label::Part(octets) => {
                    let part = label_slice(octets);
                    let length: [u8; 1] = [part.len() as u8];
                    match name_extend(&mut me, length.as_slice()) {
                        Ok(()) => {
                            assert(length@ =~= seq![part@.len() as u8]);
                            let fits = name_extend(&mut me, part);
                            proof {
                                if fits is Ok {
                                    assert(name_octets(me) =~= labels_wire(views.take(i + 1)));
                                }
                            }
                            fits
                        },
                        Err(e) => Err(e),
                    }
                },
                Label::Empty => {
                    let root: [u8; 1] = [0];
                    assert(root@ =~= seq![0u8]);
                    name_extend(&mut me, root.as_slice())
                },
            };
            if fits.is_err() {
                return Err(DnsError::NameTooLong);
            }
            i = i + 1;
        }
        proof {
            assert(views.take(i as int) =~= views);
        }
        Ok(Domain(me))
    }

    /// The name that the text stands for: its components, split at the
    /// dots, as labels, and the root label behind them.
    pub fn encode(domain: &str) -> (r: Result<Domain, DnsError>)
        ensures
            match r {
                Ok(name) => encode_name(domain.spec_bytes()) == Ok::<Seq<u8>, DnsError>(name@),
                Err(e) => encode_name(domain.spec_bytes()) == Err::<Seq<u8>, DnsError>(e),
            },
    {
        let labels = encode_domain(domain)?;
        Domain::from_iter(&labels)
    }

    /// The name in text, with a dot behind each label; `None` where the
    /// wire form holds no whole name or the text is not valid UTF-8.
    pub fn display(&self) -> (r: Option<String>)
        ensures
            match r {
                Some(text) => display_octets(self@) == Some(encode_utf8(text@)),
                None => display_octets(self@) is None,
            },
    {
        let mut decoder = Decoder::new(self.as_bytes());
        let labels = match decode_domain(&mut decoder) {
            Ok(labels) => labels,
            Err(_) => { return None; },
        };
        let ghost views = label_views(labels@);
        let mut octets: Vec<u8> = Vec::new();
        let mut i: usize = 0;
        proof {
            assert(views.take(0) =~= Seq::<LabelView>::empty());
        }
        while i < labels.len()
            invariant
                i <= labels@.len(),
                views == label_views(labels@),
                octets@ == dotted(views.take(i as int)),
            decreases labels@.len() - i,
        {
            proof {
                assert(views.take(i + 1).drop_last() =~= views.take(i as int));
                assert(views.take(i + 1).last() == labels@[i as int]@);
                assert(views.take(i + 1)[0] == views[0]);
            }
            if i > 0 {
                octets.push(DOT);
            }
            match &labels[i] {
                Label::Part(part) => {
                    octets.extend_from_slice(label_slice(part));
                },
                Label::Empty => {},
            }
            proof {
                assert(octets@ =~= dotted(views.take(i + 1)));
            }
            i = i + 1;
        }
        proof {
            assert(views.take(i as int) =~= views);
        }
        match string_of(octets) {
            Ok(text) => Some(text),
            Err(_) => None,
        }
    }

    /// The octets of the wire form.
    pub fn as_bytes(&self) -> (octets: &[u8])
        ensures
            octets@ == self@,
            octets@.len() <= MAX_NAME_SIZE,
    {
        name_slice(&self.0)
    }

    /// Reads one name, following compression pointers through the message.
    /// The cursor ends behind the name's octets at its old position. On an
    /// error nothing is consumed.
    pub fn from_bytes(decoder: &mut Decoder) -> (r: Result<Domain, DnsError>)
        ensures
            final(decoder).bytes() == old(decoder).bytes(),
            match r {
                Ok(domain) => {
                    &&& domain_at(old(decoder).bytes(), old(decoder).offset() as int) == Ok::<
                        (Seq<u8>, int),
                        DnsError,
                    >((domain@, final(decoder).offset() as int))
                    &&& final(decoder).offset() > old(decoder).offset()
                },
                Err(e) => {
                    &&& domain_at(old(decoder).bytes(), old(decoder).offset() as int) == Err::<
                        (Seq<u8>, int),
                        DnsError,
                    >(e)
                    &&& final(decoder).offset() == old(decoder).offset()
                },
            },
    {
        let mut cursor = *decoder;
        let labels = decode_domain(&mut cursor)?;
        let domain = Domain::from_iter(&labels)?;
        *decoder = cursor;
        Ok(domain)
    }
}

/// Whether the labels are those of one whole name: components of 1 to 63
/// octets, and the root label behind them.
pub open spec fn is_name(labels: Seq<LabelView>) -> bool {
    &&& labels.len() >= 1
    &&& labels.last() == LabelView::Empty
    &&& forall|k: int|
        0 <= k < labels.len() - 1 ==> (#[trigger] labels[k] matches LabelView::Part(octets)
            && 1 <= octets.len() <= MAX_LABEL_SIZE)
}

/// The first label's octets come first on the wire.
pub proof fn lemma_labels_wire_front(first: LabelView, rest: Seq<LabelView>)
    ensures
        labels_wire(seq![first] + rest) == first.wire() + labels_wire(rest),
    decreases rest.len(),
{
    let all = seq![first] + rest;
    if rest.len() == 0 {
        assert(all.drop_last() =~= Seq::<LabelView>::empty());
        assert(all.last() == first);
        assert(labels_wire(all.drop_last()) =~= Seq::<u8>::empty());
        assert(labels_wire(rest) =~= Seq::<u8>::empty());
        assert(labels_wire(all) =~= first.wire());
        assert(first.wire() + labels_wire(rest) =~= first.wire());
    } else {
        lemma_labels_wire_front(first, rest.drop_last());
        assert(all.drop_last() =~= seq![first] + rest.drop_last());
        assert(all.last() == rest.last());
        assert(labels_wire(all) =~= first.wire() + labels_wire(rest));
    }
}

/// What decodes to a name is a whole name.
pub proof fn lemma_decoded_is_name(buf: Seq<u8>, pos: int, hops: nat)
    ensures
        name_at(buf, pos, hops) matches Ok((labels, end)) ==> is_name(labels),
    decreases hops, buf.len() - pos,
{
    if pos < 0 || pos >= buf.len() {
    } else if buf[pos] == 0 {
    } else if buf[pos] < 64 {
        let next = pos + 1 + buf[pos];
        if next <= buf.len() {
            lemma_decoded_is_name(buf, next, hops);
            if let Ok((rest, end)) = name_at(buf, next, hops) {
                let labels = seq![LabelView::Part(buf.subrange(pos + 1, next))] + rest;
                assert forall|k: int| 0 <= k < labels.len() - 1 implies (
                #[trigger] labels[k] matches LabelView::Part(octets) && 1 <= octets.len()
                    <= MAX_LABEL_SIZE) by {
                    if k > 0 {
                        assert(labels[k] == rest[k - 1]);
                    }
                }
            }
        }
    } else if buf[pos] < 192 {
    } else if pos + 2 > buf.len() {
    } else {
        let target = pointer_target(buf[pos], buf[pos + 1]);
        if target < buf.len() && target < pos && hops > 0 {
            lemma_decoded_is_name(buf, target, (hops - 1) as nat);
        }
    }
}

/// A name that decodes with some pointer hops decodes to the same with
/// more of them.
pub proof fn lemma_more_hops(buf: Seq<u8>, pos: int, hops: nat, more: nat)
    requires
        hops <= more,
        name_at(buf, pos, hops) is Ok,
    ensures
        name_at(buf, pos, more) == name_at(buf, pos, hops),
    decreases hops, buf.len() - pos,
{
    if pos < 0 || pos >= buf.len() {
    } else if buf[pos] == 0 {
    } else if buf[pos] < 64 {
        let next = pos + 1 + buf[pos];
        if next <= buf.len() {
            lemma_more_hops(buf, next, hops, more);
        }
    } else if buf[pos] < 192 {
    } else if pos + 2 > buf.len() {
    } else {
        let target = pointer_target(buf[pos], buf[pos + 1]);
        if target < buf.len() && target < pos && hops > 0 {
            lemma_more_hops(buf, target, (hops - 1) as nat, (more - 1) as nat);
        }
    }
}

/// A name that is written out in full at `pos`, label by label, decodes to
/// its own labels, whatever surrounds it and without any pointer hop.
pub proof fn lemma_plain_name(buf: Seq<u8>, pos: int, labels: Seq<LabelView>, hops: nat)
    requires
        is_name(labels),
        0 <= pos,
        pos + labels_wire(labels).len() <= buf.len(),
        buf.subrange(pos, pos + labels_wire(labels).len()) == labels_wire(labels),
    ensures
        name_at(buf, pos, hops) == Ok::<(Seq<LabelView>, int), DnsError>(
            (labels, pos + labels_wire(labels).len()),
        ),
    decreases labels.len(),
{
    let wire = labels_wire(labels);
    let first = labels[0];
    let rest = labels.drop_first();
    assert(labels =~= seq![first] + rest);
    lemma_labels_wire_front(first, rest);
    assert(wire == first.wire() + labels_wire(rest));
    assert(buf[pos] == wire[0]) by {
        assert(buf.subrange(pos, pos + wire.len())[0] == buf[pos]);
    }
    if labels.len() == 1 {
        assert(rest =~= Seq::<LabelView>::empty());
        assert(wire =~= seq![0u8]);
        assert(labels =~= seq![LabelView::Empty]);
    } else {
        let octets = first->Part_0;
        let next = pos + 1 + octets.len();
        let tail = labels_wire(rest);
        assert(wire.len() == 1 + octets.len() + tail.len());
        assert(buf[pos] == octets.len());
        assert(buf.subrange(pos + 1, next) =~= octets) by {
            assert forall|i: int| 0 <= i < octets.len() implies buf[pos + 1 + i] == octets[i] by {
                assert(buf.subrange(pos, pos + wire.len())[1 + i] == buf[pos + 1 + i]);
            }
        }
        assert(buf.subrange(next, next + tail.len()) =~= tail) by {
            assert forall|i: int| 0 <= i < tail.len() implies buf[next + i] == tail[i] by {
                assert(buf.subrange(pos, pos + wire.len())[1 + octets.len() + i] == buf[next
                    + i]);
            }
        }
        assert(is_name(rest)) by {
            assert forall|k: int| 0 <= k < rest.len() - 1 implies (
            #[trigger] rest[k] matches LabelView::Part(o) && 1 <= o.len() <= MAX_LABEL_SIZE) by {
                assert(rest[k] == labels[k + 1]);
            }
        }
        lemma_plain_name(buf, next, rest, hops);
    }
}

/// Encoding and decoding are inverse: a name in text whose components
/// have 1 to 63 octets each, and whose wire form has at most 255, is
/// encoded, and what it is encoded to decodes to that same name.
pub proof fn lemma_round_trip(text: Seq<u8>)
    requires
        forall|k: int|
            0 <= k < components(text).len() ==> 1 <= (#[trigger] components(text)[k]).len()
                <= MAX_LABEL_SIZE,
        labels_wire(text_labels(text)).len() <= MAX_NAME_SIZE,
    ensures
        encode_name(text) == Ok::<Seq<u8>, DnsError>(labels_wire(text_labels(text))),
        domain_at(labels_wire(text_labels(text)), 0) == Ok::<(Seq<u8>, int), DnsError>(
            (labels_wire(text_labels(text)), labels_wire(text_labels(text)).len() as int),
        ),
{
    let labels = text_labels(text);
    let wire = labels_wire(labels);
    assert(is_name(labels));
    assert(wire.subrange(0, wire.len() as int) =~= wire);
    lemma_plain_name(wire, 0, labels, MAX_POINTER_HOPS as nat);
}

/// Compression changes nothing of a name: a pointer to an earlier
/// occurrence of a name decodes to what that occurrence decodes to, and to
/// what the name decodes to where it is written out in full, in any
/// message. The earlier occurrence must decode with one pointer hop to
/// spare, which the pointer itself takes.
pub proof fn lemma_compression_equivalence(
    message: Seq<u8>,
    pointer: int,
    earlier: int,
    plain: Seq<u8>,
    at: int,
)
    requires
        points_to(message, pointer, earlier),
        earlier < pointer,
        name_at(message, earlier, (MAX_POINTER_HOPS - 1) as nat) matches Ok((labels, _)) && {
            &&& 0 <= at
            &&& at + labels_wire(labels).len() <= plain.len()
            &&& plain.subrange(at, at + labels_wire(labels).len()) == labels_wire(labels)
        },
    ensures
        name_at(message, pointer, MAX_POINTER_HOPS as nat) matches Ok((compressed, end)) && {
            &&& end == pointer + 2
            &&& name_at(message, earlier, MAX_POINTER_HOPS as nat) matches Ok((own, _))
            &&& name_at(plain, at, MAX_POINTER_HOPS as nat) matches Ok((full, _))
            &&& compressed == own
            &&& compressed == full
        },
        match (domain_at(message, pointer), domain_at(message, earlier), domain_at(plain, at)) {
            (Ok((compressed, _)), Ok((own, _)), Ok((full, _))) => compressed == own && compressed
                == full,
            (Err(e), Err(f), Err(g)) => e == f && e == g,
            _ => false,
        },
{
    let labels = name_at(message, earlier, (MAX_POINTER_HOPS - 1) as nat)->Ok_0.0;
    lemma_more_hops(message, earlier, (MAX_POINTER_HOPS - 1) as nat, MAX_POINTER_HOPS as nat);
    lemma_decoded_is_name(message, earlier, (MAX_POINTER_HOPS - 1) as nat);
    lemma_plain_name(plain, at, labels, MAX_POINTER_HOPS as nat);
}

/// A chain of compression pointers that leads back into itself is never
/// decoded: each pointer of a chain in which every pointer names the next,
/// and the last names the first, is rejected with `PointerLoop`. A pointer
/// that names itself is such a chain of one.
pub proof fn lemma_pointer_cycle(buf: Seq<u8>, chain: Seq<int>, hops: nat)
    requires
        chain.len() > 0,
        forall|i: int|
            0 <= i < chain.len() ==> points_to(
                buf,
                #[trigger] chain[i],
                chain[(i + 1) % (chain.len() as int)],
            ),
    ensures
        forall|i: int|
            0 <= i < chain.len() ==> name_at(buf, #[trigger] chain[i], hops) == Err::<
                (Seq<LabelView>, int),
                DnsError,
            >(DnsError::PointerLoop),
    decreases hops,
{
    if hops > 0 {
        lemma_pointer_cycle(buf, chain, (hops - 1) as nat);
    }
    assert forall|i: int| 0 <= i < chain.len() implies name_at(buf, #[trigger] chain[i], hops)
        == Err::<(Seq<LabelView>, int), DnsError>(DnsError::PointerLoop) by {
        let next = (i + 1) % (chain.len() as int);
        assert(0 <= next < chain.len());
        assert(points_to(buf, chain[i], chain[next]));
        assert(points_to(buf, chain[next], chain[(next + 1) % (chain.len() as int)]));
    }
}

/// Where the decoding of a name goes on behind what stands at `pos`: behind
/// a label, or at the offset that a pointer names. `None` where the name
/// ends at `pos` or cannot be decoded there.
pub open spec fn next_position(buf: Seq<u8>, pos: int) -> Option<int> {
    if pos < 0 || pos >= buf.len() {
        None
    } else if buf[pos] == 0 {
        None
    } else if buf[pos] < 64 {
        Some(pos + 1 + buf[pos])
    } else if buf[pos] < 192 {
        None
    } else if pos + 2 > buf.len() {
        None
    } else {
        Some(pointer_target(buf[pos], buf[pos + 1]))
    }
}

/// Whether the decoding of a name that stands at `from` stands at `to`
/// after `steps` labels and pointers.
pub open spec fn leads_to(buf: Seq<u8>, from: int, to: int, steps: nat) -> bool
    decreases steps,
{
    if steps == 0 {
        from == to
    } else {
        next_position(buf, from) matches Some(next) && leads_to(
            buf,
            next,
            to,
            (steps - 1) as nat,
        )
    }
}

/// Where a name is decoded, it is decoded from every place that its
/// decoding comes by, with the pointer hops that are left there: fewer than
/// at the start, unless the way led forward over labels only.
pub proof fn lemma_follow(buf: Seq<u8>, from: int, to: int, steps: nat, hops: nat) -> (left: nat)
    requires
        leads_to(buf, from, to, steps),
        name_at(buf, from, hops) is Ok,
    ensures
        left <= hops,
        name_at(buf, to, left) is Ok,
        left == hops ==> to >= from && (steps > 0 ==> to > from),
    decreases steps,
{
    if steps == 0 {
        hops
    } else {
        let next = next_position(buf, from)->Some_0;
        let after: nat = if buf[from] < 64 {
            hops
        } else {
            (hops - 1) as nat
        };
        lemma_follow(buf, next, to, (steps - 1) as nat, after)
    }
}

/// A name whose decoding comes back to where it has been is never decoded:
/// where the way from `start` leads to `entry`, and from `entry` over at
/// least one label or pointer back to `entry`, the decoding from `start`
/// fails, with however many pointer hops. This holds of a pointer that
/// names itself, of pointers that name each other, and of a pointer that
/// leads back to labels before it.
pub proof fn lemma_cycle_never_decodes(
    buf: Seq<u8>,
    start: int,
    entry: int,
    before: nat,
    around: nat,
    hops: nat,
)
    requires
        leads_to(buf, start, entry, before),
        around >= 1,
        leads_to(buf, entry, entry, around),
    ensures
        name_at(buf, start, hops) is Err,
    decreases hops, before,
{
    if name_at(buf, start, hops) is Ok {
        if before == 0 {
            let left = lemma_follow(buf, entry, entry, around, hops);
            lemma_cycle_never_decodes(buf, entry, entry, 0, around, left);
        } else {
            let left = lemma_follow(buf, start, entry, before, hops);
            if left < hops {
                lemma_cycle_never_decodes(buf, entry, entry, 0, around, left);
            } else {
                let again = lemma_follow(buf, entry, entry, around, hops);
                lemma_cycle_never_decodes(buf, entry, entry, 0, around, again);
            }
        }
    }
}

} // verus!
