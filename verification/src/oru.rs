//! The ORU (observation result) projection.
//!
//! An ORU message yields the patient id from PID.3 and one
//! observation per OBX segment, in document order: the test id from
//! OBX.3 (required and non-empty), the test name from the second
//! component of OBX.3, and the value, units, reference range and
//! abnormal flags from OBX.5 through OBX.8 (all optional). A missing
//! test id in any OBX segment fails the whole projection.

use vstd::prelude::*;
use vstd::string::*;

use crate::model::{
    opt_view, res_view, spec_component_at, spec_find_segment, spec_first_component,
    spec_required_first_component, spec_segments_named, HL7Error, Hl7ErrorView, Message,
    MessageView, Segment, SegmentView,
};
use crate::text::starts_with;

verus! {

/// Spec-level image of `Observation`.
pub ghost struct ObservationView {
    pub test_id: Seq<char>,
    pub test_name: Option<Seq<char>>,
    pub value: Option<Seq<char>>,
    pub units: Option<Seq<char>>,
    pub reference_range: Option<Seq<char>>,
    pub abnormal_flags: Option<Seq<char>>,
}

/// One observation, read off one OBX segment.
#[derive(Debug)]
pub struct Observation {
    pub test_id: String,
    pub test_name: Option<String>,
    pub value: Option<String>,
    pub units: Option<String>,
    pub reference_range: Option<String>,
    pub abnormal_flags: Option<String>,
}

impl View for Observation {
    type V = ObservationView;

    open spec fn view(&self) -> ObservationView {
        ObservationView {
            test_id: self.test_id@,
            test_name: opt_view(self.test_name),
            value: opt_view(self.value),
            units: opt_view(self.units),
            reference_range: opt_view(self.reference_range),
            abnormal_flags: opt_view(self.abnormal_flags),
        }
    }
}

impl DeepView for Observation {
    type V = ObservationView;

    open spec fn deep_view(&self) -> ObservationView {
        self.view()
    }
}

/// Spec-level image of `OruMessage`.
pub ghost struct OruMessageView {
    pub message_type: Seq<char>,
    pub patient_id: Seq<char>,
    pub observations: Seq<ObservationView>,
}

/// The fields an ORU projection extracts from an observation-result message.
#[derive(Debug)]
pub struct OruMessage {
    pub message_type: String,
    pub patient_id: String,
    pub observations: Vec<Observation>,
}

impl View for OruMessage {
    type V = OruMessageView;

    open spec fn view(&self) -> OruMessageView {
        OruMessageView {
            message_type: self.message_type@,
            patient_id: self.patient_id@,
            observations: self.observations.deep_view(),
        }
    }
}

/// One OBX segment's observation: the test id must be present and
/// non-empty, everything else is optional.
pub open spec fn spec_observation_of(seg: SegmentView) -> Result<ObservationView, Hl7ErrorView> {
    match spec_required_first_component(seg, 3) {
        None => Err(Hl7ErrorView::MissingField("Test ID (OBX.3)"@)),
        Some(test_id) => Ok(
            ObservationView {
                test_id,
                test_name: spec_component_at(seg, 3, 2),
                value: spec_first_component(seg, 5),
                units: spec_first_component(seg, 6),
                reference_range: spec_first_component(seg, 7),
                abnormal_flags: spec_first_component(seg, 8),
            },
        ),
    }
}

/// The observations of a list of OBX segments, or the first failure.
pub open spec fn spec_observations(segs: Seq<SegmentView>) -> Result<
    Seq<ObservationView>,
    Hl7ErrorView,
>
    decreases segs.len(),
{
    if segs.len() == 0 {
        Ok(Seq::empty())
    } else {
        match spec_observation_of(segs[0]) {
            Err(e) => Err(e),
            Ok(o) => match spec_observations(segs.drop_first()) {
                Err(e) => Err(e),
                Ok(rest) => Ok(seq![o] + rest),
            },
        }
    }
}

/// Reading one more OBX segment extends the observations, or fails
/// where that segment does.
pub proof fn lemma_observations_push(segs: Seq<SegmentView>, seg: SegmentView)
    ensures
        spec_observations(segs.push(seg)) == match spec_observations(segs) {
            Err(e) => Err::<Seq<ObservationView>, Hl7ErrorView>(e),
            Ok(obs) => match spec_observation_of(seg) {
                Err(e) => Err(e),
                Ok(o) => Ok(obs.push(o)),
            },
        },
    decreases segs.len(),
{
    let p = segs.push(seg);
    if segs.len() == 0 {
        assert(p[0] == seg);
        assert(p.drop_first() =~= Seq::<SegmentView>::empty());
        assert(spec_observations(Seq::<SegmentView>::empty()) == Ok::<
            Seq<ObservationView>,
            Hl7ErrorView,
        >(Seq::empty()));
        match spec_observation_of(seg) {
            Err(_) => {},
            Ok(o) => {
                assert(seq![o] + Seq::<ObservationView>::empty() =~= Seq::<
                    ObservationView,
                >::empty().push(o));
            },
        }
    } else {
        assert(p[0] == segs[0]);
        assert(p.drop_first() =~= segs.drop_first().push(seg));
        lemma_observations_push(segs.drop_first(), seg);
        match spec_observation_of(segs[0]) {
            Err(_) => {},
            Ok(o) => {
                match spec_observations(segs.drop_first()) {
                    Err(_) => {},
                    Ok(rest) => {
                        match spec_observation_of(seg) {
                            Err(_) => {},
                            Ok(o2) => {
                                assert(seq![o] + rest.push(o2) =~= (seq![o] + rest).push(o2));
                            },
                        }
                    },
                }
            },
        }
    }
}

/// A failing prefix decides the whole list.
pub proof fn lemma_observations_err_prefix(x: Seq<SegmentView>, y: Seq<SegmentView>)
    requires
        spec_observations(x) is Err,
    ensures
        spec_observations(x + y) == spec_observations(x),
    decreases x.len(),
{
    let s = x + y;
    assert(x.len() > 0);
    assert(s[0] == x[0]);
    match spec_observation_of(x[0]) {
        Err(_) => {},
        Ok(_) => {
            assert(s.drop_first() =~= x.drop_first() + y);
            lemma_observations_err_prefix(x.drop_first(), y);
        },
    }
}

/// The ORU projection of a message: rejected unless the message type
/// begins with `ORU`; the PID segment and a non-empty PID.3 are
/// required; then one observation per OBX segment.
pub open spec fn spec_oru_from(m: MessageView) -> Result<OruMessageView, Hl7ErrorView> {
    if !starts_with(m.message_type, "ORU"@) {
        Err(Hl7ErrorView::InvalidStructure("Not an ORU message"@))
    } else {
        match spec_find_segment(m.segments, "PID"@) {
            None => Err(Hl7ErrorView::MissingField("PID segment"@)),
            Some(pid) => match spec_required_first_component(pid, 3) {
                None => Err(Hl7ErrorView::MissingField("Patient ID (PID.3)"@)),
                Some(patient_id) => match spec_observations(
                    spec_segments_named(m.segments, "OBX"@),
                ) {
                    Err(e) => Err(e),
                    Ok(observations) => Ok(
                        OruMessageView {
                            message_type: m.message_type,
                            patient_id,
                            observations,
                        },
                    ),
                },
            },
        }
    }
}

/// One observation from one OBX segment, exactly as
/// `spec_observation_of` describes.
fn observation_of(seg: &Segment) -> (res: Result<Observation, HL7Error>)
    ensures
        res_view(res) == spec_observation_of(seg@),
{
    let test_id = match seg.required_first_component(3) {
        Some(v) => v,
        None => {
            return Err(HL7Error::MissingField(String::from_str("Test ID (OBX.3)")));
        },
    };
    Ok(
        Observation {
            test_id,
            test_name: seg.component_at(3, 2),
            value: seg.first_component_at(5),
            units: seg.first_component_at(6),
            reference_range: seg.first_component_at(7),
            abnormal_flags: seg.first_component_at(8),
        },
    )
}

impl OruMessage {
    /// Projects a parsed message onto the ORU reading, exactly as
    /// `spec_oru_from` describes.
    pub fn from_hl7(message: &Message) -> (res: Result<OruMessage, HL7Error>)
        ensures
            res_view(res) == spec_oru_from(message@),
    {
        if !message.is_oru() {
            return Err(HL7Error::InvalidStructure(String::from_str("Not an ORU message")));
        }
        let pid = match message.get_segment("PID") {
            Some(pid) => pid,
            None => {
                return Err(HL7Error::MissingField(String::from_str("PID segment")));
            },
        };
        let patient_id = match pid.required_first_component(3) {
            Some(v) => v,
            None => {
                return Err(HL7Error::MissingField(String::from_str("Patient ID (PID.3)")));
            },
        };
        let obx_segments = message.get_segments("OBX");
        let ghost obxs = spec_segments_named(message@.segments, "OBX"@);
        let mut observations: Vec<Observation> = Vec::new();
        proof {
            assert(obxs.take(0) =~= Seq::<SegmentView>::empty());
            assert(observations.deep_view() =~= Seq::<ObservationView>::empty());
            assert(spec_observations(Seq::<SegmentView>::empty()) == Ok::<
                Seq<ObservationView>,
                Hl7ErrorView,
            >(Seq::empty()));
        }
        let mut i: usize = 0;
        while i < obx_segments.len()
            invariant
                i <= obx_segments.len(),
                obx_segments.deep_view() == obxs,
                obxs == spec_segments_named(message@.segments, "OBX"@),
                starts_with(message@.message_type, "ORU"@),
                spec_find_segment(message@.segments, "PID"@) == Some(pid@),
                spec_required_first_component(pid@, 3) == Some(patient_id@),
                spec_observations(obxs.take(i as int)) == Ok::<_, Hl7ErrorView>(
                    observations.deep_view(),
                ),
            decreases obx_segments.len() - i,
        {
            let ghost before = observations.deep_view();
            proof {
                lemma_observations_len(obxs.take(i as int));
                assert(before.len() == i);
                assert(observations@.len() == i);
                assert(obx_segments.deep_view()[i as int] == obxs[i as int]);
                assert(obxs.take(i as int).push(obxs[i as int]) =~= obxs.take(i as int + 1));
                lemma_observations_push(obxs.take(i as int), obxs[i as int]);
            }
            match observation_of(obx_segments[i]) {
                Ok(o) => {
                    let ghost ov = o@;
                    observations.push(o);
                    proof {
                        assert(observations.deep_view() =~= before.push(ov));
                        assert(spec_observations(obxs.take(i as int + 1)) == Ok::<
                            _,
                            Hl7ErrorView,
                        >(observations.deep_view()));
                    }
                },
                Err(e) => {
                    proof {
                        assert(obxs.take(i as int + 1) + obxs.skip(i as int + 1) =~= obxs);
                        lemma_observations_err_prefix(
                            obxs.take(i as int + 1),
                            obxs.skip(i as int + 1),
                        );
                    }
                    return Err(e);
                },
            }
            i = i + 1;
        }
        proof {
            assert(obxs.take(obx_segments.len() as int) =~= obxs);
        }
        Ok(OruMessage { message_type: message.message_type.clone(), patient_id, observations })
    }
}

/// A successful reading yields one observation per segment.
pub proof fn lemma_observations_len(segs: Seq<SegmentView>)
    ensures
        match spec_observations(segs) {
            Ok(obs) => obs.len() == segs.len(),
            Err(_) => true,
        },
    decreases segs.len(),
{
    if segs.len() > 0 {
        lemma_observations_len(segs.drop_first());
    }
}

} // verus!
