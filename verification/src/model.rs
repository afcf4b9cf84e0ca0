//! The HL7 message model.
//!
//! A message is an ordered sequence of segments together with the two
//! scalars derived from the header: the message type (MSH.9) and the
//! version (MSH.12). A segment is a name and a sequence of fields, a
//! field holds the components of its first repetition together with
//! every repetition, and a component is a raw value with its
//! subcomponents. The tree is built once by the parser and read-only
//! afterwards; every type has a ghost view over `Seq` models that the
//! contracts speak of.

use vstd::prelude::*;
use vstd::string::*;

use crate::text::{join_with, join_strings, starts_with, str_eq, starts_with_str};

verus! {

/// Spec-level image of `HL7Error`.
pub ghost enum Hl7ErrorView {
    ParseError(Seq<char>),
    InvalidStructure(Seq<char>),
    MissingField(Seq<char>),
}

/// An unrecoverable structure violation, or a required field that a
/// well-formed message lacks.
#[derive(Debug)]
pub enum HL7Error {
    ParseError(String),
    InvalidStructure(String),
    MissingField(String),
}

impl View for HL7Error {
    type V = Hl7ErrorView;

    open spec fn view(&self) -> Hl7ErrorView {
        match self {
            HL7Error::ParseError(s) => Hl7ErrorView::ParseError(s@),
            HL7Error::InvalidStructure(s) => Hl7ErrorView::InvalidStructure(s@),
            HL7Error::MissingField(s) => Hl7ErrorView::MissingField(s@),
        }
    }
}

/// The rendering of an error: a fixed heading followed by its detail.
pub open spec fn spec_error_text(e: Hl7ErrorView) -> Seq<char> {
    match e {
        Hl7ErrorView::ParseError(s) => "Parse error: "@ + s,
        Hl7ErrorView::InvalidStructure(s) => "Invalid message structure: "@ + s,
        Hl7ErrorView::MissingField(s) => "Missing required field: "@ + s,
    }
}

impl HL7Error {
    /// The human-readable rendering of this error.
    pub fn describe(&self) -> (r: String)
        ensures
            r@ == spec_error_text(self@),
    {
        match self {
            HL7Error::ParseError(s) => String::from_str("Parse error: ").concat(s.as_str()),
            HL7Error::InvalidStructure(s) => String::from_str("Invalid message structure: ")
                .concat(s.as_str()),
            HL7Error::MissingField(s) => String::from_str("Missing required field: ").concat(
                s.as_str(),
            ),
        }
    }
}

/// Lifts a `Result` of viewable values to its spec image.
pub open spec fn res_view<T: View, E: View>(r: Result<T, E>) -> Result<T::V, E::V> {
    match r {
        Ok(t) => Ok(t@),
        Err(e) => Err(e@),
    }
}

/// Lifts an `Option` of viewable values to its spec image.
pub open spec fn opt_view<T: View>(o: Option<T>) -> Option<T::V> {
    match o {
        Some(t) => Some(t@),
        None => None,
    }
}

/// Spec-level image of `Delimiters`.
pub ghost struct DelimitersView {
    pub field: char,
    pub component: char,
    pub subcomponent: char,
    pub repetition: char,
    pub escape: char,
}

/// The five HL7 delimiter characters.
#[derive(Debug, Clone, Copy)]
pub struct Delimiters {
    pub field: char,
    pub component: char,
    pub subcomponent: char,
    pub repetition: char,
    pub escape: char,
}

impl View for Delimiters {
    type V = DelimitersView;

    open spec fn view(&self) -> DelimitersView {
        DelimitersView {
            field: self.field,
            component: self.component,
            subcomponent: self.subcomponent,
            repetition: self.repetition,
            escape: self.escape,
        }
    }
}

/// The default delimiters that MSH declares as `|^~\&`.
pub open spec fn default_delimiters() -> DelimitersView {
    DelimitersView {
        field: '|',
        component: '^',
        subcomponent: '&',
        repetition: '~',
        escape: '\\',
    }
}

impl Default for Delimiters {
    fn default() -> (d: Self)
        ensures
            d@ == default_delimiters(),
    {
        Delimiters { field: '|', component: '^', subcomponent: '&', repetition: '~', escape: '\\' }
    }
}

/// Spec-level image of `Component`.
#[verifier::ext_equal]
pub ghost struct ComponentView {
    pub value: Seq<char>,
    pub subcomponents: Seq<Seq<char>>,
}

/// Spec-level image of `Field`.
#[verifier::ext_equal]
pub ghost struct FieldView {
    pub components: Seq<ComponentView>,
    pub repetitions: Seq<Seq<ComponentView>>,
}

/// Spec-level image of `Segment`.
#[verifier::ext_equal]
pub ghost struct SegmentView {
    pub name: Seq<char>,
    pub fields: Seq<FieldView>,
}

/// Spec-level image of `Message`.
#[verifier::ext_equal]
pub ghost struct MessageView {
    pub segments: Seq<SegmentView>,
    pub message_type: Seq<char>,
    pub version: Seq<char>,
}

/// A component: its raw value, and its subcomponents where the raw
/// value holds the subcomponent delimiter (else none).
#[derive(Debug)]
pub struct Component {
    pub value: String,
    pub subcomponents: Vec<String>,
}

/// A field: the components of its first repetition, and every
/// repetition as its own component list.
#[derive(Debug)]
pub struct Field {
    pub components: Vec<Component>,
    pub repetitions: Vec<Vec<Component>>,
}

/// A named segment and its ordered fields.
#[derive(Debug)]
pub struct Segment {
    pub name: String,
    pub fields: Vec<Field>,
}

/// A complete HL7 message.
#[derive(Debug)]
pub struct Message {
    pub segments: Vec<Segment>,
    pub message_type: String,
    pub version: String,
}

impl View for Component {
    type V = ComponentView;

    open spec fn view(&self) -> ComponentView {
        ComponentView { value: self.value@, subcomponents: self.subcomponents.deep_view() }
    }
}

impl DeepView for Component {
    type V = ComponentView;

    open spec fn deep_view(&self) -> ComponentView {
        self.view()
    }
}

impl View for Field {
    type V = FieldView;

    open spec fn view(&self) -> FieldView {
        FieldView {
            components: self.components.deep_view(),
            repetitions: self.repetitions.deep_view(),
        }
    }
}

impl DeepView for Field {
    type V = FieldView;

    open spec fn deep_view(&self) -> FieldView {
        self.view()
    }
}

impl View for Segment {
    type V = SegmentView;

    open spec fn view(&self) -> SegmentView {
        SegmentView { name: self.name@, fields: self.fields.deep_view() }
    }
}

impl DeepView for Segment {
    type V = SegmentView;

    open spec fn deep_view(&self) -> SegmentView {
        self.view()
    }
}

impl View for Message {
    type V = MessageView;

    open spec fn view(&self) -> MessageView {
        MessageView {
            segments: self.segments.deep_view(),
            message_type: self.message_type@,
            version: self.version@,
        }
    }
}

impl DeepView for Message {
    type V = MessageView;

    open spec fn deep_view(&self) -> MessageView {
        self.view()
    }
}

impl Clone for Component {
    fn clone(&self) -> (res: Self)
        ensures
            res@ == self@,
    {
        let res = Component {
            value: self.value.clone(),
            subcomponents: self.subcomponents.clone(),
        };
        proof {
            assert(res.subcomponents.deep_view() =~~= self.subcomponents.deep_view());
            assert(res@ =~~= self@);
        }
        res
    }
}

/// Element-wise copy of a component list, keeping its view.
pub(crate) fn clone_components(v: &Vec<Component>) -> (r: Vec<Component>)
    ensures
        r.deep_view() == v.deep_view(),
{
    let mut r: Vec<Component> = Vec::new();
    let mut i: usize = 0;
    while i < v.len()
        invariant
            i <= v.len(),
            r.deep_view() =~= v.deep_view().take(i as int),
        decreases v.len() - i,
    {
        proof {
            assert(v.deep_view().take(i as int).len() == i);
            assert(r.deep_view().len() == i);
            assert(r@.len() == i);
        }
        r.push(v[i].clone());
        proof {
            assert(r.deep_view() =~~= v.deep_view().take(i as int + 1));
        }
        i = i + 1;
    }
    proof {
        assert(v.deep_view().take(v.len() as int) =~~= v.deep_view());
    }
    r
}

/// Element-wise copy of a repetition list, keeping its view.
fn clone_repetitions(v: &Vec<Vec<Component>>) -> (r: Vec<Vec<Component>>)
    ensures
        r.deep_view() == v.deep_view(),
{
    let mut r: Vec<Vec<Component>> = Vec::new();
    let mut i: usize = 0;
    while i < v.len()
        invariant
            i <= v.len(),
            r.deep_view() =~= v.deep_view().take(i as int),
        decreases v.len() - i,
    {
        proof {
            assert(v.deep_view().take(i as int).len() == i);
            assert(r.deep_view().len() == i);
            assert(r@.len() == i);
        }
        r.push(clone_components(&v[i]));
        proof {
            assert(r.deep_view() =~~= v.deep_view().take(i as int + 1));
        }
        i = i + 1;
    }
    proof {
        assert(v.deep_view().take(v.len() as int) =~~= v.deep_view());
    }
    r
}

impl Clone for Field {
    fn clone(&self) -> (res: Self)
        ensures
            res@ == self@,
    {
        let res = Field {
            components: clone_components(&self.components),
            repetitions: clone_repetitions(&self.repetitions),
        };
        proof {
            assert(res@ =~~= self@);
        }
        res
    }
}

impl Clone for Segment {
    fn clone(&self) -> (res: Self)
        ensures
            res@ == self@,
    {
        let mut fields: Vec<Field> = Vec::new();
        let mut i: usize = 0;
        while i < self.fields.len()
            invariant
                i <= self.fields.len(),
                fields.deep_view() =~= self.fields.deep_view().take(i as int),
            decreases self.fields.len() - i,
        {
            proof {
                assert(self.fields.deep_view().take(i as int).len() == i);
                assert(fields.deep_view().len() == i);
                assert(fields@.len() == i);
            }
            fields.push(self.fields[i].clone());
            proof {
                assert(fields.deep_view() =~~= self.fields.deep_view().take(i as int + 1));
            }
            i = i + 1;
        }
        proof {
            assert(self.fields.deep_view().take(self.fields.len() as int) =~~=
            self.fields.deep_view());
        }
        let res = Segment { name: self.name.clone(), fields };
        proof {
            assert(res@ =~~= self@);
        }
        res
    }
}

impl Clone for Message {
    fn clone(&self) -> (res: Self)
        ensures
            res@ == self@,
    {
        let mut segments: Vec<Segment> = Vec::new();
        let mut i: usize = 0;
        while i < self.segments.len()
            invariant
                i <= self.segments.len(),
                segments.deep_view() =~= self.segments.deep_view().take(i as int),
            decreases self.segments.len() - i,
        {
            proof {
                assert(self.segments.deep_view().take(i as int).len() == i);
                assert(segments.deep_view().len() == i);
                assert(segments@.len() == i);
            }
            segments.push(self.segments[i].clone());
            proof {
                assert(segments.deep_view() =~~= self.segments.deep_view().take(i as int + 1));
            }
            i = i + 1;
        }
        proof {
            assert(self.segments.deep_view().take(self.segments.len() as int) =~~=
            self.segments.deep_view());
        }
        let res = Message {
            segments,
            message_type: self.message_type.clone(),
            version: self.version.clone(),
        };
        proof {
            assert(res@ =~~= self@);
        }
        res
    }
}

/// The raw values of a component list.
pub open spec fn spec_component_values(comps: Seq<ComponentView>) -> Seq<Seq<char>> {
    comps.map_values(|c: ComponentView| c.value)
}

/// The raw text of one repetition: its component values joined with
/// the component delimiter.
pub open spec fn spec_rep_raw(r: Seq<ComponentView>, d: DelimitersView) -> Seq<char> {
    join_with(spec_component_values(r), d.component)
}

/// The raw text of a field: its repetitions joined with the
/// repetition delimiter.
pub open spec fn spec_field_raw(f: FieldView, d: DelimitersView) -> Seq<char> {
    join_with(f.repetitions.map_values(|r: Seq<ComponentView>| spec_rep_raw(r, d)), d.repetition)
}

impl Field {
    /// The raw text of the field, reassembled from its repetitions
    /// and components with the given delimiters.
    pub fn raw_value(&self, delimiters: &Delimiters) -> (r: String)
        ensures
            r@ == spec_field_raw(self@, delimiters@),
    {
        let mut rep_strs: Vec<String> = Vec::new();
        let mut i: usize = 0;
        while i < self.repetitions.len()
            invariant
                i <= self.repetitions.len(),
                rep_strs.deep_view() =~= self@.repetitions.take(i as int).map_values(
                    |r: Seq<ComponentView>| spec_rep_raw(r, delimiters@),
                ),
            decreases self.repetitions.len() - i,
        {
            let comps = &self.repetitions[i];
            let mut comp_strs: Vec<String> = Vec::new();
            let mut j: usize = 0;
            while j < comps.len()
                invariant
                    j <= comps.len(),
                    comps.deep_view() == self@.repetitions[i as int],
                    i < self.repetitions.len(),
                    comp_strs.deep_view() =~= spec_component_values(
                        self@.repetitions[i as int].take(j as int),
                    ),
                decreases comps.len() - j,
            {
                proof {
                    assert(spec_component_values(
                        self@.repetitions[i as int].take(j as int),
                    ).len() == j);
                    assert(comp_strs.deep_view().len() == j);
                    assert(comp_strs@.len() == j);
                    assert(comps.deep_view()[j as int] == self@.repetitions[i as int][j as int]);
                }
                let ghost before = comp_strs.deep_view();
                comp_strs.push(comps[j].value.clone());
                proof {
                    let target = spec_component_values(
                        self@.repetitions[i as int].take(j as int + 1),
                    );
                    assert(comp_strs@[j as int]@ == self@.repetitions[i as int][j as int].value);
                    assert(comp_strs.deep_view().len() == j + 1);
                    assert(target.len() == j + 1);
                    assert forall|k: int| 0 <= k < j + 1 implies comp_strs.deep_view()[k]
                        == target[k] by {
                        assert(target[k] == self@.repetitions[i as int].take(j as int + 1)[k].value);
                        if k < j {
                            assert(comp_strs.deep_view()[k] == before[k]);
                            assert(before[k] == spec_component_values(
                                self@.repetitions[i as int].take(j as int),
                            )[k]);
                        }
                    }
                    assert(comp_strs.deep_view() =~= target);
                }
                j = j + 1;
            }
            proof {
                assert(self@.repetitions[i as int].take(comps.len() as int) =~=
                self@.repetitions[i as int]);
            }
            let rep_str = join_strings(&comp_strs, delimiters.component);
            proof {
                assert(rep_str@ == spec_rep_raw(self@.repetitions[i as int], delimiters@));
            }
            proof {
                assert(self@.repetitions.take(i as int).map_values(
                    |r: Seq<ComponentView>| spec_rep_raw(r, delimiters@),
                ).len() == i);
                assert(rep_strs.deep_view().len() == i);
                assert(rep_strs@.len() == i);
            }
            let ghost before = rep_strs.deep_view();
            rep_strs.push(rep_str);
            proof {
                let target = self@.repetitions.take(i as int + 1).map_values(
                    |r: Seq<ComponentView>| spec_rep_raw(r, delimiters@),
                );
                assert(rep_strs.deep_view().len() == i + 1);
                assert(target.len() == i + 1);
                assert forall|k: int| 0 <= k < i + 1 implies rep_strs.deep_view()[k] == target[k] by {
                    assert(target[k] == spec_rep_raw(
                        self@.repetitions.take(i as int + 1)[k],
                        delimiters@,
                    ));
                    if k < i {
                        assert(rep_strs.deep_view()[k] == before[k]);
                        assert(before[k] == self@.repetitions.take(i as int).map_values(
                            |r: Seq<ComponentView>| spec_rep_raw(r, delimiters@),
                        )[k]);
                    } else {
                        assert(rep_strs.deep_view()[k] == rep_str@);
                    }
                }
                assert(rep_strs.deep_view() =~= target);
            }
            i = i + 1;
        }
        proof {
            assert(self@.repetitions.take(self.repetitions.len() as int) =~= self@.repetitions);
        }
        join_strings(&rep_strs, delimiters.repetition)
    }
}

/// Field `n` of a segment under 1-based numbering, if present.
pub open spec fn spec_field(seg: SegmentView, n: int) -> Option<FieldView> {
    if 1 <= n <= seg.fields.len() {
        Some(seg.fields[n - 1])
    } else {
        None
    }
}

/// The first component's raw value of field `n`, if the field is
/// present and holds at least one component.
pub open spec fn spec_first_component(seg: SegmentView, n: int) -> Option<Seq<char>> {
    match spec_field(seg, n) {
        Some(f) => if f.components.len() > 0 {
            Some(f.components[0].value)
        } else {
            None
        },
        None => None,
    }
}

/// The raw value of component `k` of field `n` (both 1-based), if present.
pub open spec fn spec_component_at(seg: SegmentView, n: int, k: int) -> Option<Seq<char>> {
    match spec_field(seg, n) {
        Some(f) => if 1 <= k <= f.components.len() {
            Some(f.components[k - 1].value)
        } else {
            None
        },
        None => None,
    }
}

/// The raw text of field `n`, if present.
pub open spec fn spec_raw_field_at(seg: SegmentView, n: int, d: DelimitersView) -> Option<
    Seq<char>,
> {
    match spec_field(seg, n) {
        Some(f) => Some(spec_field_raw(f, d)),
        None => None,
    }
}

/// The first component of field `n` where it is present and
/// non-empty: the reading used for required fields, which treats an
/// empty value as missing.
pub open spec fn spec_required_first_component(seg: SegmentView, n: int) -> Option<Seq<char>> {
    match spec_first_component(seg, n) {
        Some(v) => if v.len() > 0 {
            Some(v)
        } else {
            None
        },
        None => None,
    }
}

impl Segment {
    /// Field `n` under 1-based numbering, if present.
    pub fn field_at<'a>(&'a self, n: usize) -> (res: Option<&'a Field>)
        requires
            n >= 1,
        ensures
            opt_view(res) == spec_field(self@, n as int),
    {
        if n <= self.fields.len() {
            Some(&self.fields[n - 1])
        } else {
            None
        }
    }

    /// The first component's value of field `n`, if present.
    pub fn first_component_at(&self, n: usize) -> (res: Option<String>)
        requires
            n >= 1,
        ensures
            opt_view(res) == spec_first_component(self@, n as int),
    {
        match self.field_at(n) {
            Some(f) => {
                if f.components.len() > 0 {
                    Some(f.components[0].value.clone())
                } else {
                    None
                }
            },
            None => None,
        }
    }

    /// The value of component `k` of field `n` (both 1-based), if present.
    pub fn component_at(&self, n: usize, k: usize) -> (res: Option<String>)
        requires
            n >= 1,
            k >= 1,
        ensures
            opt_view(res) == spec_component_at(self@, n as int, k as int),
    {
        match self.field_at(n) {
            Some(f) => {
                if k <= f.components.len() {
                    Some(f.components[k - 1].value.clone())
                } else {
                    None
                }
            },
            None => None,
        }
    }

    /// The raw text of field `n` under the default delimiters, if present.
    pub fn raw_field_at(&self, n: usize) -> (res: Option<String>)
        requires
            n >= 1,
        ensures
            opt_view(res) == spec_raw_field_at(self@, n as int, default_delimiters()),
    {
        let delimiters = Delimiters::default();
        match self.field_at(n) {
            Some(f) => Some(f.raw_value(&delimiters)),
            None => None,
        }
    }

    /// The first component of field `n` where present and non-empty.
    pub fn required_first_component(&self, n: usize) -> (res: Option<String>)
        requires
            n >= 1,
        ensures
            opt_view(res) == spec_required_first_component(self@, n as int),
    {
        match self.first_component_at(n) {
            Some(v) => {
                if v.as_str().is_empty() {
                    None
                } else {
                    Some(v)
                }
            },
            None => None,
        }
    }
}

/// The first segment carrying `name`, if any.
pub open spec fn spec_find_segment(segs: Seq<SegmentView>, name: Seq<char>) -> Option<SegmentView>
    decreases segs.len(),
{
    if segs.len() == 0 {
        None
    } else if segs[0].name == name {
        Some(segs[0])
    } else {
        spec_find_segment(segs.drop_first(), name)
    }
}

/// Every segment carrying `name`, in document order.
pub open spec fn spec_segments_named(segs: Seq<SegmentView>, name: Seq<char>) -> Seq<SegmentView> {
    segs.filter(|s: SegmentView| s.name == name)
}

/// The invariant of every parsed message: headed by MSH, with a
/// non-empty message type and version.
pub open spec fn spec_message_wf(m: MessageView) -> bool {
    &&& m.segments.len() >= 1
    &&& m.segments[0].name == "MSH"@
    &&& m.message_type.len() > 0
    &&& m.version.len() > 0
}

impl Message {
    /// The first segment named `name`, if any.
    pub fn get_segment<'a>(&'a self, name: &str) -> (res: Option<&'a Segment>)
        ensures
            match res {
                Some(seg) => spec_find_segment(self@.segments, name@) == Some(seg@),
                None => spec_find_segment(self@.segments, name@) is None,
            },
    {
        let n = self.segments.len();
        let mut i: usize = 0;
        proof {
            assert(self@.segments.skip(0) =~= self@.segments);
        }
        while i < n
            invariant
                i <= n,
                n == self.segments.len(),
                spec_find_segment(self@.segments, name@) == spec_find_segment(
                    self@.segments.skip(i as int),
                    name@,
                ),
            decreases n - i,
        {
            if str_eq(self.segments[i].name.as_str(), name) {
                proof {
                    assert(self@.segments.skip(i as int)[0] == self@.segments[i as int]);
                }
                return Some(&self.segments[i]);
            }
            proof {
                assert(self@.segments.skip(i as int)[0] == self@.segments[i as int]);
                assert(self@.segments.skip(i as int).drop_first() =~= self@.segments.skip(
                    i as int + 1,
                ));
            }
            i = i + 1;
        }
        proof {
            assert(self@.segments.skip(n as int) =~= Seq::<SegmentView>::empty());
        }
        None
    }

    /// Every segment named `name`, in document order.
    pub fn get_segments<'a>(&'a self, name: &str) -> (res: Vec<&'a Segment>)
        ensures
            res.deep_view() == spec_segments_named(self@.segments, name@),
    {
        let n = self.segments.len();
        let mut res: Vec<&'a Segment> = Vec::new();
        let mut i: usize = 0;
        while i < n
            invariant
                i <= n,
                n == self.segments.len(),
                res.deep_view() == spec_segments_named(self@.segments.take(i as int), name@),
            decreases n - i,
        {
            let ghost pred = |s: SegmentView| s.name == name@;
            let ghost prefix = self@.segments.take(i as int);
            proof {
                assert(self@.segments.take(i as int + 1).drop_last() =~= prefix);
                assert(self@.segments.take(i as int + 1).last() == self@.segments[i as int]);
                reveal_with_fuel(Seq::filter, 2);
            }
            if str_eq(self.segments[i].name.as_str(), name) {
                res.push(&self.segments[i]);
                proof {
                    assert(res.deep_view() =~= prefix.filter(pred).push(self@.segments[i as int]));
                }
            }
            proof {
                assert(res.deep_view() =~= self@.segments.take(i as int + 1).filter(pred));
            }
            i = i + 1;
        }
        proof {
            assert(self@.segments.take(n as int) =~= self@.segments);
        }
        res
    }

    /// Whether the message type begins with `ADT`.
    pub fn is_adt(&self) -> (r: bool)
        ensures
            r == starts_with(self@.message_type, "ADT"@),
    {
        starts_with_str(self.message_type.as_str(), "ADT")
    }

    /// Whether the message type begins with `ORU`.
    pub fn is_oru(&self) -> (r: bool)
        ensures
            r == starts_with(self@.message_type, "ORU"@),
    {
        starts_with_str(self.message_type.as_str(), "ORU")
    }

    /// Whether the message type begins with `RDE`.
    pub fn is_rde(&self) -> (r: bool)
        ensures
            r == starts_with(self@.message_type, "RDE"@),
    {
        starts_with_str(self.message_type.as_str(), "RDE")
    }
}

} // verus!
