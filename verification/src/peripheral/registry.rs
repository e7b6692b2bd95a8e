//! What all peripherals have in common, and which of them answers a binding.

use vstd::prelude::*;
use crate::text;
use crate::text::{push_nat, push_text, split};

verus! {

/// Number of metric channels of a peripheral.
pub const PERIPHERAL_METRIC_COUNT: usize = 8;

/// The names of the timing and health metrics every peripheral publishes.
pub open spec fn metric_texts() -> Seq<Seq<char>> {
    seq![
        "cycle_time_ns"@,
        "cycle_time_margin_ns"@,
        "raw_timing_delta_ns"@,
        "filtered_timing_delta_ns"@,
        "requested_period_delta_ns"@,
        "requested_phase_delta_ns"@,
        "loss_of_contact_counter"@,
        "cycle_lag_count"@,
    ]
}

/// The names of the timing and health metrics every peripheral publishes.
pub fn metric_names() -> (v: Vec<String>)
    ensures
        text::texts(v@) == metric_texts(),
        v@.len() == PERIPHERAL_METRIC_COUNT,
{
    let mut v: Vec<String> = Vec::new();
    push_text(&mut v, "cycle_time_ns");
    push_text(&mut v, "cycle_time_margin_ns");
    push_text(&mut v, "raw_timing_delta_ns");
    push_text(&mut v, "filtered_timing_delta_ns");
    push_text(&mut v, "requested_period_delta_ns");
    push_text(&mut v, "requested_phase_delta_ns");
    push_text(&mut v, "loss_of_contact_counter");
    push_text(&mut v, "cycle_lag_count");
    assert(text::texts(v@) =~= metric_texts());
    assert(text::texts(v@).len() == v@.len());
    v
}

/// The declared unit of each metric: none.
pub fn metric_units() -> (v: Vec<Option<String>>)
    ensures
        v@.len() == PERIPHERAL_METRIC_COUNT,
        forall|i: int| 0 <= i < v@.len() ==> (#[trigger] v@[i]) is None,
{
    let mut v: Vec<Option<String>> = Vec::new();
    let mut i: usize = 0;
    while i < PERIPHERAL_METRIC_COUNT
        invariant
            i <= PERIPHERAL_METRIC_COUNT,
            v@.len() == i,
            forall|k: int| 0 <= k < v@.len() ==> (#[trigger] v@[k]) is None,
        decreases PERIPHERAL_METRIC_COUNT - i,
    {
        v.push(None);
        i = i + 1;
    }
    v
}

/// The last part of the path of a type.
pub fn kind(path: &str) -> (s: String)
    ensures
        s@ == text::split_text(path@, ':').last(),
{
    let parts = split(path, ':');
    proof {
        text::lemma_split_len(path@, ':');
        assert(text::texts(parts@).len() == parts@.len());
        assert(text::texts(parts@).last() == parts@.last()@);
    }
    parts[parts.len() - 1].as_str().to_owned()
}

/// The answer to a configuration.
#[derive(Debug)]
pub enum Acknowledgement {
    Ack,
    /// Any other answer, by its name.
    Nak(String),
}

/// Accepts the answer to a configuration.
pub fn parse_configuring(answer: Acknowledgement) -> (r: Result<(), String>)
    ensures
        match answer {
            Acknowledgement::Ack => r is Ok,
            Acknowledgement::Nak(name) => r == Err::<(), String>(name),
        },
{
    match answer {
        Acknowledgement::Ack => Ok(()),
        Acknowledgement::Nak(name) => Err(name),
    }
}

/// Device models that are built in.
#[derive(Debug, Clone, Copy, PartialEq, Eq, Structural)]
pub enum Model {
    AnalogIRev2,
    AnalogIRev3,
    AnalogIRev4,
    DeimosDaqRev5,
    DeimosDaqRev6,
    DeimosDaqRev7,
}

/// The model numbers of the device models that are built in.
#[derive(Debug, Clone, Copy, PartialEq, Eq, Structural)]
pub struct ModelNumbers {
    pub analog_i_rev_2: u64,
    pub analog_i_rev_3: u64,
    pub analog_i_rev_4: u64,
    pub deimos_daq_rev5: u64,
    pub deimos_daq_rev6: u64,
    pub deimos_daq_rev7: u64,
}

impl ModelNumbers {
    /// The built-in model with a number.
    pub open spec fn model(self, m: u64) -> Option<Model> {
        if m == self.analog_i_rev_2 {
            Some(Model::AnalogIRev2)
        } else if m == self.analog_i_rev_3 {
            Some(Model::AnalogIRev3)
        } else if m == self.analog_i_rev_4 {
            Some(Model::AnalogIRev4)
        } else if m == self.deimos_daq_rev5 {
            Some(Model::DeimosDaqRev5)
        } else if m == self.deimos_daq_rev6 {
            Some(Model::DeimosDaqRev6)
        } else if m == self.deimos_daq_rev7 {
            Some(Model::DeimosDaqRev7)
        } else {
            None
        }
    }

    /// Finds the built-in model with a number.
    pub fn find(self, m: u64) -> (r: Option<Model>)
        ensures
            r == self.model(m),
    {
        if m == self.analog_i_rev_2 {
            Some(Model::AnalogIRev2)
        } else if m == self.analog_i_rev_3 {
            Some(Model::AnalogIRev3)
        } else if m == self.analog_i_rev_4 {
            Some(Model::AnalogIRev4)
        } else if m == self.deimos_daq_rev5 {
            Some(Model::DeimosDaqRev5)
        } else if m == self.deimos_daq_rev6 {
            Some(Model::DeimosDaqRev6)
        } else if m == self.deimos_daq_rev7 {
            Some(Model::DeimosDaqRev7)
        } else {
            None
        }
    }
}

/// Who makes the peripheral of a binding.
#[derive(Debug, Clone, Copy, PartialEq, Eq, Structural)]
pub enum Binding {
    /// The plugin for the model number.
    Plugin,
    /// A built-in model, with the serial number of the binding.
    BuiltIn(Model),
}

/// Parses a binding response to the corresponding peripheral type based on its
/// model number. A plugin for the number, where there is one, comes before the
/// built-in models. `plugins` are the model numbers with a plugin.
pub fn parse_binding(m: u64, plugins: Option<&[u64]>, numbers: ModelNumbers) -> (r: Result<
    Binding,
    String,
>)
    ensures
        match r {
            Ok(Binding::Plugin) => plugins matches Some(p) && p@.contains(m),
            Ok(Binding::BuiltIn(model)) => !(plugins matches Some(p) && p@.contains(m))
                && numbers.model(m) == Some(model),
            Err(e) => !(plugins matches Some(p) && p@.contains(m)) && numbers.model(m) is None && e@
                == "Unrecognized model number "@ + text::nat_text(m as nat),
        },
{
    if let Some(p) = plugins {
        let mut i: usize = 0;
        while i < p.len()
            invariant
                i <= p@.len(),
                plugins == Some(p),
                forall|k: int| 0 <= k < i ==> #[trigger] p@[k] != m,
            decreases p@.len() - i,
        {
            if p[i] == m {
                assert(p@[i as int] == m);
                return Ok(Binding::Plugin);
            }
            i = i + 1;
        }
        assert(!p@.contains(m));
    }
    match numbers.find(m) {
        Some(model) => Ok(Binding::BuiltIn(model)),
        None => {
            let mut e = "Unrecognized model number ".to_owned();
            push_nat(&mut e, m as u128);
            Err(e)
        },
    }
}

/// Each model is found by its own number where no two models share one, and no other
/// number is that of a model.
pub proof fn law_models_are_found_by_their_numbers(n: ModelNumbers, m: u64)
    ensures
        ({
            let numbers = seq![
                n.analog_i_rev_2,
                n.analog_i_rev_3,
                n.analog_i_rev_4,
                n.deimos_daq_rev5,
                n.deimos_daq_rev6,
                n.deimos_daq_rev7,
            ];
            &&& n.model(m) is Some <==> numbers.contains(m)
            &&& numbers.no_duplicates() ==> {
                &&& n.model(m) == Some(Model::AnalogIRev2) <==> m == n.analog_i_rev_2
                &&& n.model(m) == Some(Model::AnalogIRev3) <==> m == n.analog_i_rev_3
                &&& n.model(m) == Some(Model::AnalogIRev4) <==> m == n.analog_i_rev_4
                &&& n.model(m) == Some(Model::DeimosDaqRev5) <==> m == n.deimos_daq_rev5
                &&& n.model(m) == Some(Model::DeimosDaqRev6) <==> m == n.deimos_daq_rev6
                &&& n.model(m) == Some(Model::DeimosDaqRev7) <==> m == n.deimos_daq_rev7
            }
        }),
{
    let numbers = seq![
        n.analog_i_rev_2,
        n.analog_i_rev_3,
        n.analog_i_rev_4,
        n.deimos_daq_rev5,
        n.deimos_daq_rev6,
        n.deimos_daq_rev7,
    ];
    assert(numbers[0] == n.analog_i_rev_2);
    assert(numbers[1] == n.analog_i_rev_3);
    assert(numbers[2] == n.analog_i_rev_4);
    assert(numbers[3] == n.deimos_daq_rev5);
    assert(numbers[4] == n.deimos_daq_rev6);
    assert(numbers[5] == n.deimos_daq_rev7);
}

} // verus!
