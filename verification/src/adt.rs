//! The ADT (admit / discharge / transfer) projection.
//!
//! An ADT message yields the trigger event from the message type and
//! the patient's identity from the first PID segment: the patient id
//! from PID.3 (required and non-empty), the name composite from PID.5
//! kept verbatim, the date of birth from PID.7 and the gender from
//! PID.8 (all three optional).

use vstd::prelude::*;
use vstd::string::*;

use crate::model::{
    default_delimiters, opt_view, res_view, spec_find_segment, spec_first_component,
    spec_raw_field_at, spec_required_first_component, HL7Error, Hl7ErrorView, Message, MessageView,
};
use crate::text::{find_char, first_index, starts_with};

verus! {

/// Spec-level image of `AdtMessage`.
pub ghost struct AdtMessageView {
    pub message_type: Seq<char>,
    pub patient_id: Seq<char>,
    pub patient_name: Option<Seq<char>>,
    pub date_of_birth: Option<Seq<char>>,
    pub gender: Option<Seq<char>>,
    pub event_type: Seq<char>,
}

/// The fields an ADT projection extracts from a patient admission message.
#[derive(Debug)]
pub struct AdtMessage {
    pub message_type: String,
    pub patient_id: String,
    pub patient_name: Option<String>,
    pub date_of_birth: Option<String>,
    pub gender: Option<String>,
    pub event_type: String,
}

impl View for AdtMessage {
    type V = AdtMessageView;

    open spec fn view(&self) -> AdtMessageView {
        AdtMessageView {
            message_type: self.message_type@,
            patient_id: self.patient_id@,
            patient_name: opt_view(self.patient_name),
            date_of_birth: opt_view(self.date_of_birth),
            gender: opt_view(self.gender),
            event_type: self.event_type@,
        }
    }
}

/// The trigger event: everything after the first `^` of the message
/// type, or `UNKNOWN` where the type has no `^`.
pub open spec fn spec_event_type(mt: Seq<char>) -> Seq<char> {
    match first_index(mt, '^') {
        None => "UNKNOWN"@,
        Some(i) => mt.skip(i + 1),
    }
}

/// The ADT projection of a message: rejected unless the message type
/// begins with `ADT`; the PID segment and a non-empty PID.3 are
/// required; PID.5 (verbatim), PID.7 and PID.8 are optional.
pub open spec fn spec_adt_from(m: MessageView) -> Result<AdtMessageView, Hl7ErrorView> {
    if !starts_with(m.message_type, "ADT"@) {
        Err(Hl7ErrorView::InvalidStructure("Not an ADT message"@))
    } else {
        match spec_find_segment(m.segments, "PID"@) {
            None => Err(Hl7ErrorView::MissingField("PID segment"@)),
            Some(pid) => match spec_required_first_component(pid, 3) {
                None => Err(Hl7ErrorView::MissingField("Patient ID (PID.3)"@)),
                Some(patient_id) => Ok(
                    AdtMessageView {
                        message_type: m.message_type,
                        patient_id,
                        patient_name: spec_raw_field_at(pid, 5, default_delimiters()),
                        date_of_birth: spec_first_component(pid, 7),
                        gender: spec_first_component(pid, 8),
                        event_type: spec_event_type(m.message_type),
                    },
                ),
            },
        }
    }
}

/// Everything after the first `^`, or `UNKNOWN` without one.
fn event_type_of(mt: &str) -> (r: String)
    ensures
        r@ == spec_event_type(mt@),
{
    match find_char(mt, '^') {
        None => String::from_str("UNKNOWN"),
        Some(i) => {
            let n = mt.unicode_len();
            proof {
                crate::text::lemma_first_index(mt@, '^');
            }
            let r = mt.substring_char(i + 1, n).to_owned();
            proof {
                assert(r@ =~= mt@.skip(i as int + 1));
            }
            r
        },
    }
}

impl AdtMessage {
    /// Projects a parsed message onto the ADT reading, exactly as
    /// `spec_adt_from` describes.
    pub fn from_hl7(message: &Message) -> (res: Result<AdtMessage, HL7Error>)
        ensures
            res_view(res) == spec_adt_from(message@),
    {
        if !message.is_adt() {
            return Err(HL7Error::InvalidStructure(String::from_str("Not an ADT message")));
        }
        let pid = match message.get_segment("PID") {
            Some(pid) => pid,
            None => {
                return Err(HL7Error::MissingField(String::from_str("PID segment")));
            },
        };
        let patient_id = match pid.required_first_component(3) {
            Some(v) => v,
            None => {
                return Err(HL7Error::MissingField(String::from_str("Patient ID (PID.3)")));
            },
        };
        let adt = AdtMessage {
            message_type: message.message_type.clone(),
            patient_id,
            patient_name: pid.raw_field_at(5),
            date_of_birth: pid.first_component_at(7),
            gender: pid.first_component_at(8),
            event_type: event_type_of(message.message_type.as_str()),
        };
        Ok(adt)
    }
}

} // verus!
