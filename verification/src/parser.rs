//! The HL7 payload parser.
//!
//! A payload is split into segment strings on the separator that
//! appears first (CRLF, CR, or LF), trailing empty segments are
//! discarded, and each segment string is decomposed on the field,
//! repetition, component and subcomponent delimiters. The header
//! segment MSH is special: the field delimiter itself is its field 1
//! and the encoding characters are kept raw as its field 2, so that
//! MSH.9 (the message type) and MSH.12 (the version) sit at fields
//! 9 and 12 under one uniform numbering. The spec functions here are
//! the reference reading of that format; every executable function
//! is proved to compute them.

use vstd::prelude::*;
use vstd::string::*;

use crate::model::{
    default_delimiters, opt_view, res_view, spec_field_raw, spec_message_wf, Component,
    ComponentView, Delimiters, DelimitersView, Field, FieldView, HL7Error, Hl7ErrorView, Message,
    MessageView, Segment, SegmentView,
};
use crate::model::clone_components;
use crate::text::{
    free_of, join_with, lemma_join_split_on, lemma_split_on_join, lemma_split_on_len,
    lemma_split_on_no_delim, split_on, split_on_pair, split_str, split_str_pair,
    str_contains_char, str_eq,
};

verus! {

/// A segment boundary character.
pub open spec fn is_break(c: char) -> bool {
    c == '\r' || c == '\n'
}

/// Index of the first segment boundary character in `s`, if any.
pub open spec fn first_break(s: Seq<char>) -> Option<int>
    decreases s.len(),
{
    if s.len() == 0 {
        None
    } else if is_break(s[0]) {
        Some(0int)
    } else {
        match first_break(s.drop_first()) {
            None => None,
            Some(i) => Some(i + 1),
        }
    }
}

pub proof fn lemma_first_break(s: Seq<char>)
    ensures
        match first_break(s) {
            None => forall|j: int| 0 <= j < s.len() ==> !is_break(#[trigger] s[j]),
            Some(i) => 0 <= i < s.len() && is_break(s[i]) && (forall|j: int|
                0 <= j < i ==> !is_break(#[trigger] s[j])),
        },
    decreases s.len(),
{
    if s.len() == 0 {
    } else if is_break(s[0]) {
    } else {
        lemma_first_break(s.drop_first());
        match first_break(s.drop_first()) {
            None => {
                assert forall|j: int| 0 <= j < s.len() implies !is_break(#[trigger] s[j]) by {
                    if j > 0 {
                        assert(s.drop_first()[j - 1] == s[j]);
                    }
                }
            },
            Some(i) => {
                assert(s.drop_first()[i] == s[i + 1]);
                assert forall|j: int| 0 <= j < i + 1 implies !is_break(#[trigger] s[j]) by {
                    if j > 0 {
                        assert(s.drop_first()[j - 1] == s[j]);
                    }
                }
            },
        }
    }
}

pub proof fn lemma_first_break_at(s: Seq<char>, i: int)
    requires
        0 <= i < s.len(),
        is_break(s[i]),
        forall|j: int| 0 <= j < i ==> !is_break(#[trigger] s[j]),
    ensures
        first_break(s) == Some(i),
    decreases i,
{
    if i > 0 {
        assert(s.drop_first()[i - 1] == s[i]);
        assert forall|j: int| 0 <= j < i - 1 implies !is_break(#[trigger] s.drop_first()[j]) by {
            assert(s.drop_first()[j] == s[j + 1]);
        }
        lemma_first_break_at(s.drop_first(), i - 1);
    }
}

/// The segment separator of a payload: whichever of CRLF, CR or LF
/// appears first. A payload without any boundary is one segment, so
/// the choice there is immaterial.
pub ghost enum Separator {
    CrLf,
    Cr,
    Lf,
}

pub open spec fn spec_separator(s: Seq<char>) -> Separator {
    match first_break(s) {
        None => Separator::Cr,
        Some(i) => {
            if s[i] == '\r' {
                if i + 1 < s.len() && s[i + 1] == '\n' {
                    Separator::CrLf
                } else {
                    Separator::Cr
                }
            } else {
                Separator::Lf
            }
        },
    }
}

/// The payload split on its segment separator, trailing empties kept.
pub open spec fn spec_raw_segments(s: Seq<char>) -> Seq<Seq<char>> {
    match spec_separator(s) {
        Separator::CrLf => split_on_pair(s, '\r', '\n'),
        Separator::Cr => split_on(s, '\r'),
        Separator::Lf => split_on(s, '\n'),
    }
}

/// Discards empty trailing segment strings.
pub open spec fn drop_trailing_empty(parts: Seq<Seq<char>>) -> Seq<Seq<char>>
    decreases parts.len(),
{
    if parts.len() > 0 && parts.last().len() == 0 {
        drop_trailing_empty(parts.drop_last())
    } else {
        parts
    }
}

/// The segment strings of a payload.
pub open spec fn spec_segment_tokens(s: Seq<char>) -> Seq<Seq<char>> {
    drop_trailing_empty(spec_raw_segments(s))
}

/// A parsed component: the raw value, with subcomponents exactly when
/// the value holds the subcomponent delimiter.
pub open spec fn spec_parse_component(v: Seq<char>, d: DelimitersView) -> ComponentView {
    ComponentView {
        value: v,
        subcomponents: if !free_of(v, d.subcomponent) {
            split_on(v, d.subcomponent)
        } else {
            Seq::empty()
        },
    }
}

/// One repetition: the repetition text split on the component delimiter.
pub open spec fn spec_parse_components(r: Seq<char>, d: DelimitersView) -> Seq<ComponentView> {
    split_on(r, d.component).map_values(|c: Seq<char>| spec_parse_component(c, d))
}

/// A parsed field: split into repetitions first, each repetition into
/// components; the field's own component list is the first repetition's.
pub open spec fn spec_parse_field(f: Seq<char>, d: DelimitersView) -> FieldView {
    let reps = split_on(f, d.repetition).map_values(|r: Seq<char>| spec_parse_components(r, d));
    FieldView { components: reps[0], repetitions: reps }
}

pub open spec fn spec_parse_fields(parts: Seq<Seq<char>>, d: DelimitersView) -> Seq<FieldView> {
    parts.map_values(|f: Seq<char>| spec_parse_field(f, d))
}

/// A component kept raw, not sub-parsed.
pub open spec fn spec_raw_component(v: Seq<char>) -> ComponentView {
    ComponentView { value: v, subcomponents: Seq::empty() }
}

/// A field kept raw, not sub-parsed.
pub open spec fn spec_raw_field(v: Seq<char>) -> FieldView {
    FieldView {
        components: seq![spec_raw_component(v)],
        repetitions: seq![seq![spec_raw_component(v)]],
    }
}

/// The fields of an MSH segment, from its field-delimited tokens: the
/// field delimiter itself is field 1, the encoding characters (the
/// token after the name) are field 2 and stay raw, and the rest are
/// parsed as usual, so that MSH.N is the field at index N - 1.
pub open spec fn spec_msh_fields(parts: Seq<Seq<char>>, d: DelimitersView) -> Seq<FieldView> {
    Seq::new(
        parts.len(),
        |i: int|
            if i == 0 {
                spec_raw_field(seq![d.field])
            } else if i == 1 {
                spec_raw_field(parts[1])
            } else {
                spec_parse_field(parts[i], d)
            },
    )
}

/// A parsed segment: the first field-delimited token is the name; MSH
/// gets its special field numbering, every other segment's fields are
/// the remaining tokens in order.
pub open spec fn spec_parse_segment(t: Seq<char>, d: DelimitersView) -> SegmentView {
    let parts = split_on(t, d.field);
    let name = parts[0];
    if name == "MSH"@ {
        SegmentView { name, fields: spec_msh_fields(parts, d) }
    } else {
        SegmentView { name, fields: spec_parse_fields(parts.drop_first(), d) }
    }
}

pub open spec fn spec_parse_segments(toks: Seq<Seq<char>>, d: DelimitersView) -> Seq<SegmentView> {
    toks.map_values(|t: Seq<char>| spec_parse_segment(t, d))
}

/// The raw value of MSH.9 where it is present and non-empty.
pub open spec fn spec_extract_message_type(seg: SegmentView, d: DelimitersView) -> Option<
    Seq<char>,
> {
    if seg.fields.len() > 8 {
        let raw = spec_field_raw(seg.fields[8], d);
        if raw.len() > 0 {
            Some(raw)
        } else {
            None
        }
    } else {
        None
    }
}

/// The raw value of MSH.12 where it is present and non-empty.
pub open spec fn spec_extract_version(seg: SegmentView, d: DelimitersView) -> Option<Seq<char>> {
    if seg.fields.len() > 11 {
        let raw = spec_field_raw(seg.fields[11], d);
        if raw.len() > 0 {
            Some(raw)
        } else {
            None
        }
    } else {
        None
    }
}

/// What parsing a payload returns: the parsed message, or the first
/// failure among: no segment strings at all; a first segment that is
/// not MSH; a missing or empty message type; a missing or empty
/// version.
pub open spec fn spec_parse(s: Seq<char>) -> Result<MessageView, Hl7ErrorView> {
    let dd = default_delimiters();
    let toks = spec_segment_tokens(s);
    if toks.len() == 0 {
        Err(Hl7ErrorView::InvalidStructure("Empty message"@))
    } else {
        let segs = spec_parse_segments(toks, dd);
        if segs[0].name != "MSH"@ {
            Err(Hl7ErrorView::InvalidStructure("First segment must be MSH"@))
        } else {
            match spec_extract_message_type(segs[0], dd) {
                None => Err(Hl7ErrorView::MissingField("Message type (MSH.9)"@)),
                Some(mt) => match spec_extract_version(segs[0], dd) {
                    None => Err(Hl7ErrorView::MissingField("Version (MSH.12)"@)),
                    Some(ver) => Ok(
                        MessageView { segments: segs, message_type: mt, version: ver },
                    ),
                },
            }
        }
    }
}

/// Parses one component string.
pub fn parse_component(input: &str, delimiters: &Delimiters) -> (c: Component)
    ensures
        c@ == spec_parse_component(input@, delimiters@),
{
    let subcomponents: Vec<String> = if str_contains_char(input, delimiters.subcomponent) {
        split_str(input, delimiters.subcomponent)
    } else {
        Vec::new()
    };
    let c = Component { value: input.to_owned(), subcomponents };
    proof {
        assert(c@ =~~= spec_parse_component(input@, delimiters@));
    }
    c
}

/// Parses one field string into repetitions and components.
pub fn parse_field(input: &str, delimiters: &Delimiters) -> (f: Field)
    ensures
        f@ == spec_parse_field(input@, delimiters@),
{
    let rep_strs = split_str(input, delimiters.repetition);
    proof {
        lemma_split_on_len(input@, delimiters@.repetition);
    }
    let ghost reps_spec = split_on(input@, delimiters@.repetition).map_values(
        |r: Seq<char>| spec_parse_components(r, delimiters@),
    );
    let mut repetitions: Vec<Vec<Component>> = Vec::new();
    let mut i: usize = 0;
    while i < rep_strs.len()
        invariant
            i <= rep_strs.len(),
            rep_strs.deep_view() == split_on(input@, delimiters@.repetition),
            reps_spec == split_on(input@, delimiters@.repetition).map_values(
                |r: Seq<char>| spec_parse_components(r, delimiters@),
            ),
            repetitions.deep_view() =~= reps_spec.take(i as int),
        decreases rep_strs.len() - i,
    {
        let comp_strs = split_str(rep_strs[i].as_str(), delimiters.component);
        let ghost comps_spec = spec_parse_components(rep_strs.deep_view()[i as int], delimiters@);
        let mut comps: Vec<Component> = Vec::new();
        let mut j: usize = 0;
        while j < comp_strs.len()
            invariant
                j <= comp_strs.len(),
                i < rep_strs.len(),
                comp_strs.deep_view() == split_on(rep_strs.deep_view()[i as int], delimiters@.component),
                comps_spec == spec_parse_components(rep_strs.deep_view()[i as int], delimiters@),
                comps.deep_view() =~= comps_spec.take(j as int),
            decreases comp_strs.len() - j,
        {
            proof {
                assert(comps_spec.take(j as int).len() == j);
                assert(comps.deep_view().len() == j);
                assert(comps@.len() == j);
            }
            comps.push(parse_component(comp_strs[j].as_str(), delimiters));
            proof {
                assert(comps.deep_view() =~~= comps_spec.take(j as int + 1));
            }
            j = j + 1;
        }
        proof {
            assert(comps_spec.take(comp_strs.len() as int) =~= comps_spec);
            assert(reps_spec.take(i as int).len() == i);
            assert(repetitions.deep_view().len() == i);
            assert(repetitions@.len() == i);
        }
        repetitions.push(comps);
        proof {
            assert(repetitions.deep_view() =~~= reps_spec.take(i as int + 1));
        }
        i = i + 1;
    }
    proof {
        assert(reps_spec.take(rep_strs.len() as int) =~= reps_spec);
        assert(repetitions.deep_view().len() >= 1);
        assert(repetitions@.len() >= 1);
    }
    let components = clone_components(&repetitions[0]);
    let f = Field { components, repetitions };
    proof {
        assert(f@ =~~= spec_parse_field(input@, delimiters@));
    }
    f
}

/// A field holding one raw, unparsed component.
fn raw_field(value: String) -> (f: Field)
    ensures
        f@ == spec_raw_field(value@),
{
    let ghost v = value@;
    let c = Component { value, subcomponents: Vec::new() };
    let c2 = c.clone();
    let mut components: Vec<Component> = Vec::new();
    components.push(c);
    let mut rep: Vec<Component> = Vec::new();
    rep.push(c2);
    let mut repetitions: Vec<Vec<Component>> = Vec::new();
    repetitions.push(rep);
    let f = Field { components, repetitions };
    proof {
        assert(f@ =~~= spec_raw_field(v));
    }
    f
}

/// Parses one segment string. The first field-delimited token is the
/// segment's name; an MSH segment keeps its first two fields raw under
/// the header numbering, every other segment parses each token after
/// the name as one field.
pub fn parse_segment(input: &str, delimiters: &Delimiters) -> (res: Result<Segment, HL7Error>)
    ensures
        res matches Ok(seg) && seg@ == spec_parse_segment(input@, delimiters@),
{
    let parts = split_str(input, delimiters.field);
    proof {
        lemma_split_on_len(input@, delimiters@.field);
        assert(parts.deep_view().len() >= 1);
        assert(parts@.len() >= 1);
    }
    let name = parts[0].clone();
    let mut fields: Vec<Field> = Vec::new();
    if str_eq(name.as_str(), "MSH") {
        let ghost fields_spec = spec_msh_fields(parts.deep_view(), delimiters@);
        fields.push(raw_field(char_to_string_field(delimiters)));
        proof {
            assert(fields.deep_view() =~~= fields_spec.take(1));
        }
        let mut i: usize = 1;
        while i < parts.len()
            invariant
                1 <= i <= parts.len(),
                parts.deep_view() == split_on(input@, delimiters@.field),
                fields_spec == spec_msh_fields(parts.deep_view(), delimiters@),
                fields.deep_view() =~= fields_spec.take(i as int),
            decreases parts.len() - i,
        {
            proof {
                assert(fields_spec.take(i as int).len() == i);
                assert(fields.deep_view().len() == i);
                assert(fields@.len() == i);
            }
            if i == 1 {
                fields.push(raw_field(parts[1].clone()));
            } else {
                fields.push(parse_field(parts[i].as_str(), delimiters));
            }
            proof {
                assert(fields.deep_view() =~~= fields_spec.take(i as int + 1));
            }
            i = i + 1;
        }
        proof {
            assert(fields_spec.take(parts.len() as int) =~= fields_spec);
        }
    } else {
        let ghost fields_spec = spec_parse_fields(
            split_on(input@, delimiters@.field).drop_first(),
            delimiters@,
        );
        let mut i: usize = 1;
        while i < parts.len()
            invariant
                1 <= i <= parts.len(),
                parts.deep_view() == split_on(input@, delimiters@.field),
                fields_spec == spec_parse_fields(
                    split_on(input@, delimiters@.field).drop_first(),
                    delimiters@,
                ),
                fields.deep_view() =~= fields_spec.take(i as int - 1),
            decreases parts.len() - i,
        {
            proof {
                assert(fields_spec.take(i as int - 1).len() == i - 1);
                assert(fields.deep_view().len() == i - 1);
                assert(fields@.len() == i - 1);
                assert(parts.deep_view().drop_first()[i as int - 1] == parts.deep_view()[i as int]);
            }
            fields.push(parse_field(parts[i].as_str(), delimiters));
            proof {
                assert(fields.deep_view() =~~= fields_spec.take(i as int));
            }
            i = i + 1;
        }
        proof {
            assert(fields_spec.take(parts.len() as int - 1) =~= fields_spec);
        }
    }
    let seg = Segment { name, fields };
    proof {
        assert(seg@ =~~= spec_parse_segment(input@, delimiters@));
    }
    Ok(seg)
}

/// The field delimiter as a one-character string.
fn char_to_string_field(delimiters: &Delimiters) -> (s: String)
    ensures
        s@ == seq![delimiters@.field],
{
    crate::text::char_to_string(delimiters.field)
}

/// The raw value of MSH.9 from a parsed header segment, where it is
/// present and non-empty.
pub fn extract_message_type(msh: &Segment) -> (res: Option<String>)
    ensures
        opt_view(res) == spec_extract_message_type(msh@, default_delimiters()),
{
    let delimiters = Delimiters::default();
    if msh.fields.len() > 8 {
        let raw = msh.fields[8].raw_value(&delimiters);
        if raw.as_str().is_empty() {
            None
        } else {
            Some(raw)
        }
    } else {
        None
    }
}

/// The raw value of MSH.12 from a parsed header segment, where it is
/// present and non-empty.
pub fn extract_version(msh: &Segment) -> (res: Option<String>)
    ensures
        opt_view(res) == spec_extract_version(msh@, default_delimiters()),
{
    let delimiters = Delimiters::default();
    if msh.fields.len() > 11 {
        let raw = msh.fields[11].raw_value(&delimiters);
        if raw.as_str().is_empty() {
            None
        } else {
            Some(raw)
        }
    } else {
        None
    }
}

/// The first segment-boundary character of `s`, if any.
pub(crate) fn find_first_break(s: &str) -> (r: Option<usize>)
    ensures
        match r {
            Some(i) => first_break(s@) == Some(i as int),
            None => first_break(s@) is None,
        },
{
    let n = s.unicode_len();
    let mut i: usize = 0;
    while i < n
        invariant
            i <= n,
            n as nat == s@.len(),
            forall|j: int| 0 <= j < i ==> !is_break(#[trigger] s@[j]),
        decreases n - i,
    {
        let c = s.get_char(i);
        if c == '\r' || c == '\n' {
            proof {
                lemma_first_break_at(s@, i as int);
            }
            return Some(i);
        }
        i = i + 1;
    }
    proof {
        lemma_first_break(s@);
        match first_break(s@) {
            Some(k) => {
                assert(is_break(s@[k]));
            },
            None => {},
        }
    }
    None
}

/// Splits a payload into its segment strings: on whichever of CRLF,
/// CR or LF appears first, then drops empty trailing segments.
fn split_segments(input: &str) -> (tokens: Vec<String>)
    ensures
        tokens.deep_view() == spec_segment_tokens(input@),
{
    let brk = find_first_break(input);
    let mut tokens: Vec<String> = match brk {
        None => {
            proof {
                assert(spec_separator(input@) == Separator::Cr);
            }
            split_str(input, '\r')
        },
        Some(i) => {
            proof {
                lemma_first_break(input@);
            }
            let c = input.get_char(i);
            if c == '\r' {
                let n = input.unicode_len();
                if i + 1 < n && input.get_char(i + 1) == '\n' {
                    proof {
                        assert(spec_separator(input@) == Separator::CrLf);
                    }
                    split_str_pair(input, '\r', '\n')
                } else {
                    proof {
                        assert(spec_separator(input@) == Separator::Cr);
                    }
                    split_str(input, '\r')
                }
            } else {
                proof {
                    assert(spec_separator(input@) == Separator::Lf);
                }
                split_str(input, '\n')
            }
        },
    };
    proof {
        assert(tokens.deep_view() == spec_raw_segments(input@));
    }
    while tokens.len() > 0 && tokens[tokens.len() - 1].as_str().is_empty()
        invariant
            drop_trailing_empty(tokens.deep_view()) == spec_segment_tokens(input@),
        decreases tokens.len(),
    {
        let ghost before = tokens.deep_view();
        proof {
            assert(before.last() == tokens@[tokens@.len() - 1]@);
        }
        tokens.pop();
        proof {
            assert(tokens.deep_view() =~~= before.drop_last());
        }
    }
    proof {
        if tokens.len() > 0 {
            assert(tokens.deep_view().last() == tokens@[tokens@.len() - 1]@);
        }
        assert(drop_trailing_empty(tokens.deep_view()) == tokens.deep_view());
    }
    tokens
}

impl Message {
    /// Parses an HL7 payload into a message tree, extracting the
    /// message type (MSH.9) and version (MSH.12). Returns the parsed
    /// message exactly when `spec_parse` does, and the same error
    /// otherwise; every parsed message satisfies `spec_message_wf`.
    pub fn parse(input: &str) -> (res: Result<Message, HL7Error>)
        ensures
            res_view(res) == spec_parse(input@),
            res matches Ok(m) ==> spec_message_wf(m@),
    {
        let delimiters = Delimiters::default();
        let tokens = split_segments(input);
        let ghost toks = spec_segment_tokens(input@);
        if tokens.len() == 0 {
            return Err(HL7Error::InvalidStructure(String::from_str("Empty message")));
        }
        let ghost segs_spec = spec_parse_segments(toks, default_delimiters());
        let mut segments: Vec<Segment> = Vec::new();
        let mut i: usize = 0;
        while i < tokens.len()
            invariant
                i <= tokens.len(),
                tokens.deep_view() == toks,
                segs_spec == spec_parse_segments(toks, default_delimiters()),
                delimiters@ == default_delimiters(),
                segments.deep_view() =~= segs_spec.take(i as int),
            decreases tokens.len() - i,
        {
            proof {
                assert(segs_spec.take(i as int).len() == i);
                assert(segments.deep_view().len() == i);
                assert(segments@.len() == i);
            }
            match parse_segment(tokens[i].as_str(), &delimiters) {
                Ok(seg) => {
                    segments.push(seg);
                },
                Err(e) => {
                    return Err(e);
                },
            }
            proof {
                assert(segments.deep_view() =~~= segs_spec.take(i as int + 1));
            }
            i = i + 1;
        }
        proof {
            assert(segs_spec.take(tokens.len() as int) =~= segs_spec);
            assert(segments.deep_view().len() >= 1);
            assert(segments@.len() >= 1);
            assert(segments.deep_view()[0] == segs_spec[0]);
        }
        if !str_eq(segments[0].name.as_str(), "MSH") {
            return Err(HL7Error::InvalidStructure(String::from_str("First segment must be MSH")));
        }
        let message_type = match extract_message_type(&segments[0]) {
            Some(mt) => mt,
            None => {
                return Err(HL7Error::MissingField(String::from_str("Message type (MSH.9)")));
            },
        };
        let version = match extract_version(&segments[0]) {
            Some(v) => v,
            None => {
                return Err(HL7Error::MissingField(String::from_str("Version (MSH.12)")));
            },
        };
        let m = Message { segments, message_type, version };
        proof {
            assert(m@.segments == segs_spec);
            assert(res_view(Result::<Message, HL7Error>::Ok(m)) == spec_parse(input@));
        }
        Ok(m)
    }
}

/// The invariant of every field the parser builds: at least one
/// repetition, and the field's component list is the first one's.
pub open spec fn spec_field_wf(f: FieldView) -> bool {
    f.repetitions.len() >= 1 && f.components == f.repetitions[0]
}

/// Parsing establishes the field invariant, for parsed and for raw
/// fields alike.
pub proof fn lemma_parse_field_wf(t: Seq<char>, d: DelimitersView)
    ensures
        spec_field_wf(spec_parse_field(t, d)),
        spec_field_wf(spec_raw_field(t)),
{
    lemma_split_on_len(t, d.repetition);
}

/// Every field of a segment satisfies the field invariant.
pub open spec fn spec_segment_fields_wf(seg: SegmentView) -> bool {
    forall|i: int| 0 <= i < seg.fields.len() ==> spec_field_wf(#[trigger] seg.fields[i])
}

/// Parsing establishes the field invariant across a whole segment.
pub proof fn lemma_parse_segment_wf(t: Seq<char>, d: DelimitersView)
    ensures
        spec_segment_fields_wf(spec_parse_segment(t, d)),
{
    let parts = split_on(t, d.field);
    let seg = spec_parse_segment(t, d);
    assert forall|i: int| 0 <= i < seg.fields.len() implies spec_field_wf(
        #[trigger] seg.fields[i],
    ) by {
        if parts[0] == "MSH"@ {
            if i == 0 {
                lemma_parse_field_wf(seq![d.field], d);
            } else if i == 1 {
                lemma_parse_field_wf(parts[1], d);
            } else {
                lemma_parse_field_wf(parts[i], d);
            }
        } else {
            lemma_parse_field_wf(parts.drop_first()[i], d);
        }
    }
}

/// Reassembling a parsed field restores its text: the raw value of a
/// parsed field is exactly the field string it was parsed from, so
/// the raw value of MSH.9 of a parsed header is the ninth
/// field-delimited token of the header string.
pub proof fn lemma_parse_field_raw(t: Seq<char>, d: DelimitersView)
    ensures
        spec_field_raw(spec_parse_field(t, d), d) == t,
{
    let reps = split_on(t, d.repetition);
    let f = spec_parse_field(t, d);
    assert forall|i: int| 0 <= i < f.repetitions.len() implies crate::model::spec_rep_raw(
        #[trigger] f.repetitions[i],
        d,
    ) == reps[i] by {
        assert(crate::model::spec_component_values(spec_parse_components(reps[i], d)) =~= split_on(
            reps[i],
            d.component,
        ));
        lemma_join_split_on(reps[i], d.component);
    }
    assert(f.repetitions.map_values(|r: Seq<ComponentView>| crate::model::spec_rep_raw(r, d)) =~=
    reps);
    lemma_join_split_on(t, d.repetition);
}

/// A join on one separator holds no other character than its parts do.
pub proof fn lemma_join_free(parts: Seq<Seq<char>>, d: char, c: char)
    requires
        c != d,
        forall|i: int| 0 <= i < parts.len() ==> free_of(#[trigger] parts[i], c),
    ensures
        free_of(join_with(parts, d), c),
    decreases parts.len(),
{
    if parts.len() <= 1 {
    } else {
        let a = parts[0];
        let b = join_with(parts.drop_first(), d);
        assert forall|i: int| 0 <= i < parts.drop_first().len() implies free_of(
            #[trigger] parts.drop_first()[i],
            c,
        ) by {
            assert(parts.drop_first()[i] == parts[i + 1]);
        }
        lemma_join_free(parts.drop_first(), d, c);
        let s = join_with(parts, d);
        assert(s == a + seq![d] + b);
        assert forall|k: int| 0 <= k < s.len() implies s[k] != c by {
            if k < a.len() {
                assert(s[k] == a[k]);
            } else if k == a.len() {
                assert(s[k] == d);
            } else {
                assert(s[k] == b[k - a.len() - 1]);
            }
        }
    }
}

/// The segment strings of a payload assembled from boundary-free
/// segment strings with either CR or LF are those strings, with
/// trailing empties dropped.
pub proof fn lemma_tokens_of_join(segs: Seq<Seq<char>>, d: char)
    requires
        d == '\r' || d == '\n',
        segs.len() >= 1,
        forall|i: int| 0 <= i < segs.len() ==> free_of(#[trigger] segs[i], '\r'),
        forall|i: int| 0 <= i < segs.len() ==> free_of(#[trigger] segs[i], '\n'),
    ensures
        spec_segment_tokens(join_with(segs, d)) == drop_trailing_empty(segs),
{
    let s = join_with(segs, d);
    let other: char = if d == '\r' {
        '\n'
    } else {
        '\r'
    };
    lemma_join_free(segs, d, other);
    if segs.len() == 1 {
        assert(s == segs[0]);
        lemma_first_break(s);
        match first_break(s) {
            Some(i) => {
                assert(is_break(s[i]));
                assert(s[i] != '\r' && s[i] != '\n');
            },
            None => {},
        }
        assert(spec_separator(s) == Separator::Cr);
        lemma_split_on_no_delim(s, '\r');
        assert(spec_raw_segments(s) =~~= segs);
    } else {
        let a = segs[0];
        let b = join_with(segs.drop_first(), d);
        assert(s == a + seq![d] + b);
        let i = a.len() as int;
        assert(s[i] == d);
        assert forall|j: int| 0 <= j < i implies !is_break(#[trigger] s[j]) by {
            assert(s[j] == a[j]);
        }
        lemma_first_break_at(s, i);
        if d == '\r' {
            assert(spec_separator(s) == Separator::Cr);
            lemma_split_on_join(segs, '\r');
        } else {
            assert(spec_separator(s) == Separator::Lf);
            lemma_split_on_join(segs, '\n');
        }
    }
}

/// Parsing a payload whose segment strings are joined with CR yields
/// exactly what parsing the same strings joined with LF yields, for
/// segment strings free of both boundary characters.
pub proof fn lemma_parse_cr_lf_agree(segs: Seq<Seq<char>>)
    requires
        segs.len() >= 1,
        forall|i: int| 0 <= i < segs.len() ==> free_of(#[trigger] segs[i], '\r'),
        forall|i: int| 0 <= i < segs.len() ==> free_of(#[trigger] segs[i], '\n'),
    ensures
        spec_parse(join_with(segs, '\r')) == spec_parse(join_with(segs, '\n')),
{
    lemma_tokens_of_join(segs, '\r');
    lemma_tokens_of_join(segs, '\n');
}

/// Every message the parser yields is headed by an MSH segment and
/// carries a non-empty message type and a non-empty version, and
/// every field of every segment in it satisfies the field invariant.
pub proof fn lemma_parse_wf(s: Seq<char>)
    ensures
        match spec_parse(s) {
            Ok(m) => spec_message_wf(m) && forall|i: int|
                0 <= i < m.segments.len() ==> spec_segment_fields_wf(#[trigger] m.segments[i]),
            Err(_) => true,
        },
{
    match spec_parse(s) {
        Ok(m) => {
            let toks = spec_segment_tokens(s);
            let segs = spec_parse_segments(toks, default_delimiters());
            assert(m.segments == segs);
            assert(segs.len() == toks.len());
            assert(m.segments[0].name == "MSH"@);
            assert forall|i: int| 0 <= i < m.segments.len() implies spec_segment_fields_wf(
                #[trigger] m.segments[i],
            ) by {
                lemma_parse_segment_wf(toks[i], default_delimiters());
            }
        },
        Err(_) => {},
    }
}

/// The message type is extracted positionally: for a header whose
/// first field-delimited token is `MSH`, it is the ninth token
/// whenever that token is present and non-empty, and absent
/// otherwise. The version behaves the same way at the twelfth token.
pub proof fn lemma_extract_positional(t: Seq<char>)
    requires
        split_on(t, default_delimiters().field)[0] == "MSH"@,
    ensures
        ({
            let toks = split_on(t, default_delimiters().field);
            let seg = spec_parse_segment(t, default_delimiters());
            &&& spec_extract_message_type(seg, default_delimiters()) == (if toks.len() > 8
                && toks[8].len() > 0 {
                Some(toks[8])
            } else {
                None
            })
            &&& spec_extract_version(seg, default_delimiters()) == (if toks.len() > 11
                && toks[11].len() > 0 {
                Some(toks[11])
            } else {
                None
            })
        }),
{
    let dd = default_delimiters();
    let toks = split_on(t, dd.field);
    let seg = spec_parse_segment(t, dd);
    assert(seg.fields.len() == toks.len());
    if toks.len() > 8 {
        lemma_parse_field_raw(toks[8], dd);
        assert(seg.fields[8] == spec_parse_field(toks[8], dd));
    }
    if toks.len() > 11 {
        lemma_parse_field_raw(toks[11], dd);
        assert(seg.fields[11] == spec_parse_field(toks[11], dd));
    }
}

} // verus!
