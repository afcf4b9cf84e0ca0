//! The RDE (pharmacy encoded order) projection.
//!
//! An RDE message yields the patient id from PID.3, the order control
//! and order number from the first ORC segment (both optional), and
//! one medication order per RXE segment, in document order. Each
//! order gets a synthetic id `RX` followed by its 1-based position;
//! the medication code and name come from the first and second
//! component of RXE.2, the give code (`UNKNOWN` when the code is
//! absent or empty), the strength is RXE.3 with the units of RXE.4
//! appended, and form, frequency, dosage/quantity and the start and
//! stop dates come from RXE.5, RXE.6, RXE.10, RXE.20 and RXE.21. The
//! route is the first component of RXR.1 of the RXR segment paired
//! with the order by position.

use vstd::prelude::*;
use vstd::string::*;

use crate::model::{
    opt_view, res_view, spec_component_at, spec_find_segment, spec_first_component,
    spec_required_first_component, spec_segments_named, HL7Error, Hl7ErrorView, Message,
    MessageView, Segment, SegmentView,
};
use crate::text::{decimal_digits, starts_with, u64_to_string};

verus! {

/// Spec-level image of `MedicationOrder`.
#[verifier::ext_equal]
pub ghost struct MedicationOrderView {
    pub rx_id: Seq<char>,
    pub medication_id: Seq<char>,
    pub medication_name: Option<Seq<char>>,
    pub strength: Option<Seq<char>>,
    pub form: Option<Seq<char>>,
    pub dosage: Option<Seq<char>>,
    pub frequency: Option<Seq<char>>,
    pub quantity: Option<Seq<char>>,
    pub route: Option<Seq<char>>,
    pub start_date: Option<Seq<char>>,
    pub stop_date: Option<Seq<char>>,
}

/// One medication order, read off one RXE segment and its paired RXR.
#[derive(Debug)]
pub struct MedicationOrder {
    pub rx_id: String,
    pub medication_id: String,
    pub medication_name: Option<String>,
    pub strength: Option<String>,
    pub form: Option<String>,
    pub dosage: Option<String>,
    pub frequency: Option<String>,
    pub quantity: Option<String>,
    pub route: Option<String>,
    pub start_date: Option<String>,
    pub stop_date: Option<String>,
}

impl View for MedicationOrder {
    type V = MedicationOrderView;

    open spec fn view(&self) -> MedicationOrderView {
        MedicationOrderView {
            rx_id: self.rx_id@,
            medication_id: self.medication_id@,
            medication_name: opt_view(self.medication_name),
            strength: opt_view(self.strength),
            form: opt_view(self.form),
            dosage: opt_view(self.dosage),
            frequency: opt_view(self.frequency),
            quantity: opt_view(self.quantity),
            route: opt_view(self.route),
            start_date: opt_view(self.start_date),
            stop_date: opt_view(self.stop_date),
        }
    }
}

impl DeepView for MedicationOrder {
    type V = MedicationOrderView;

    open spec fn deep_view(&self) -> MedicationOrderView {
        self.view()
    }
}

/// Spec-level image of `RdeMessage`.
#[verifier::ext_equal]
pub ghost struct RdeMessageView {
    pub message_type: Seq<char>,
    pub patient_id: Seq<char>,
    pub order_control: Option<Seq<char>>,
    pub order_number: Option<Seq<char>>,
    pub medication_orders: Seq<MedicationOrderView>,
}

/// The fields an RDE projection extracts from a pharmacy order message.
#[derive(Debug)]
pub struct RdeMessage {
    pub message_type: String,
    pub patient_id: String,
    pub order_control: Option<String>,
    pub order_number: Option<String>,
    pub medication_orders: Vec<MedicationOrder>,
}

impl View for RdeMessage {
    type V = RdeMessageView;

    open spec fn view(&self) -> RdeMessageView {
        RdeMessageView {
            message_type: self.message_type@,
            patient_id: self.patient_id@,
            order_control: opt_view(self.order_control),
            order_number: opt_view(self.order_number),
            medication_orders: self.medication_orders.deep_view(),
        }
    }
}

/// The medication code: the first component of RXE.2, the give code,
/// or `UNKNOWN` where that is absent or empty.
pub open spec fn spec_medication_id(rxe: SegmentView) -> Seq<char> {
    match spec_required_first_component(rxe, 2) {
        Some(v) => v,
        None => "UNKNOWN"@,
    }
}

/// The strength: RXE.3 with the units of RXE.4 appended, absent when
/// RXE.3 is.
pub open spec fn spec_strength(rxe: SegmentView) -> Option<Seq<char>> {
    match spec_first_component(rxe, 3) {
        None => None,
        Some(v3) => Some(
            v3 + match spec_first_component(rxe, 4) {
                Some(v4) => v4,
                None => Seq::empty(),
            },
        ),
    }
}

/// The order read off the RXE segment at position `idx` (0-based),
/// with its route taken from RXR.1 of the RXR segment at the same
/// position.
pub open spec fn spec_medication_order(
    rxe: SegmentView,
    rxrs: Seq<SegmentView>,
    idx: int,
) -> MedicationOrderView {
    MedicationOrderView {
        rx_id: "RX"@ + decimal_digits((idx + 1) as nat),
        medication_id: spec_medication_id(rxe),
        medication_name: spec_component_at(rxe, 2, 2),
        strength: spec_strength(rxe),
        form: spec_first_component(rxe, 5),
        dosage: spec_first_component(rxe, 10),
        frequency: spec_first_component(rxe, 6),
        quantity: spec_first_component(rxe, 10),
        route: if 0 <= idx < rxrs.len() {
            spec_first_component(rxrs[idx], 1)
        } else {
            None
        },
        start_date: spec_first_component(rxe, 20),
        stop_date: spec_first_component(rxe, 21),
    }
}

/// One order per RXE segment, paired with the RXR list by position.
pub open spec fn spec_medication_orders(
    rxes: Seq<SegmentView>,
    rxrs: Seq<SegmentView>,
) -> Seq<MedicationOrderView> {
    Seq::new(rxes.len(), |i: int| spec_medication_order(rxes[i], rxrs, i))
}

/// The RDE projection of a message: rejected unless the message type
/// begins with `RDE`; the PID segment and a non-empty PID.3 are
/// required; ORC and every per-order field are optional.
pub open spec fn spec_rde_from(m: MessageView) -> Result<RdeMessageView, Hl7ErrorView> {
    if !starts_with(m.message_type, "RDE"@) {
        Err(Hl7ErrorView::InvalidStructure("Not an RDE message"@))
    } else {
        match spec_find_segment(m.segments, "PID"@) {
            None => Err(Hl7ErrorView::MissingField("PID segment"@)),
            Some(pid) => match spec_required_first_component(pid, 3) {
                None => Err(Hl7ErrorView::MissingField("Patient ID (PID.3)"@)),
                Some(patient_id) => {
                    let orc = spec_find_segment(m.segments, "ORC"@);
                    Ok(
                        RdeMessageView {
                            message_type: m.message_type,
                            patient_id,
                            order_control: match orc {
                                Some(o) => spec_first_component(o, 1),
                                None => None,
                            },
                            order_number: match orc {
                                Some(o) => spec_first_component(o, 2),
                                None => None,
                            },
                            medication_orders: spec_medication_orders(
                                spec_segments_named(m.segments, "RXE"@),
                                spec_segments_named(m.segments, "RXR"@),
                            ),
                        },
                    )
                },
            },
        }
    }
}

/// The strength of one RXE segment, as `spec_strength` describes.
fn strength_of(rxe: &Segment) -> (res: Option<String>)
    ensures
        opt_view(res) == spec_strength(rxe@),
{
    match rxe.first_component_at(3) {
        None => None,
        Some(v3) => {
            let units = match rxe.first_component_at(4) {
                Some(v4) => v4,
                None => String::new(),
            };
            Some(v3.concat(units.as_str()))
        },
    }
}

impl RdeMessage {
    /// Projects a parsed message onto the RDE reading, exactly as
    /// `spec_rde_from` describes.
    pub fn from_hl7(message: &Message) -> (res: Result<RdeMessage, HL7Error>)
        ensures
            res_view(res) == spec_rde_from(message@),
    {
        if !message.is_rde() {
            return Err(HL7Error::InvalidStructure(String::from_str("Not an RDE message")));
        }
        let pid = match message.get_segment("PID") {
            Some(pid) => pid,
            None => {
                return Err(HL7Error::MissingField(String::from_str("PID segment")));
            },
        };
        let patient_id = match pid.required_first_component(3) {
            Some(v) => v,
            None => {
                return Err(HL7Error::MissingField(String::from_str("Patient ID (PID.3)")));
            },
        };
        let orc = message.get_segment("ORC");
        let order_control = match orc {
            Some(o) => o.first_component_at(1),
            None => None,
        };
        let order_number = match orc {
            Some(o) => o.first_component_at(2),
            None => None,
        };
        let rxe_segments = message.get_segments("RXE");
        let rxr_segments = message.get_segments("RXR");
        let ghost rxes = spec_segments_named(message@.segments, "RXE"@);
        let ghost rxrs = spec_segments_named(message@.segments, "RXR"@);
        let ghost target = spec_medication_orders(rxes, rxrs);
        let mut medication_orders: Vec<MedicationOrder> = Vec::new();
        let mut i: usize = 0;
        while i < rxe_segments.len()
            invariant
                i <= rxe_segments.len(),
                rxe_segments.deep_view() == rxes,
                rxr_segments.deep_view() == rxrs,
                target == spec_medication_orders(rxes, rxrs),
                medication_orders.deep_view() =~= target.take(i as int),
            decreases rxe_segments.len() - i,
        {
            let rxe = rxe_segments[i];
            proof {
                assert(rxe_segments.deep_view()[i as int] == rxes[i as int]);
            }
            let seqno = i + 1;
            let rx_id = String::from_str("RX").concat(u64_to_string(seqno as u64).as_str());
            let medication_id = match rxe.required_first_component(2) {
                Some(v) => v,
                None => String::from_str("UNKNOWN"),
            };
            let route = if i < rxr_segments.len() {
                proof {
                    assert(rxr_segments.deep_view()[i as int] == rxrs[i as int]);
                }
                rxr_segments[i].first_component_at(1)
            } else {
                None
            };
            let order = MedicationOrder {
                rx_id,
                medication_id,
                medication_name: rxe.component_at(2, 2),
                strength: strength_of(rxe),
                form: rxe.first_component_at(5),
                dosage: rxe.first_component_at(10),
                frequency: rxe.first_component_at(6),
                quantity: rxe.first_component_at(10),
                route,
                start_date: rxe.first_component_at(20),
                stop_date: rxe.first_component_at(21),
            };
            proof {
                assert(order@ =~~= spec_medication_order(rxes[i as int], rxrs, i as int));
                assert(target.take(i as int).len() == i);
                assert(medication_orders.deep_view().len() == i);
                assert(medication_orders@.len() == i);
            }
            medication_orders.push(order);
            proof {
                assert(medication_orders.deep_view() =~~= target.take(i as int + 1));
            }
            i = i + 1;
        }
        proof {
            assert(target.take(rxe_segments.len() as int) =~= target);
        }
        Ok(
            RdeMessage {
                message_type: message.message_type.clone(),
                patient_id,
                order_control,
                order_number,
                medication_orders,
            },
        )
    }
}

} // verus!
