//! The analog inputs that the procedure calibrates, and how each is labelled.

use vstd::prelude::*;
use crate::text;
use crate::text::same_text;

verus! {

/// What a channel measures, which decides how it is calibrated.
#[derive(Clone, Copy, Debug, PartialEq, Eq, Structural)]
pub enum CalibrationKind {
    Current4To20,
    Rtd,
    Thermocouple,
    Voltage,
}

/// One calibrated input.
#[derive(Clone, Copy, Debug)]
pub struct CalibrationChannel {
    pub label: &'static str,
    pub analog_input_name: &'static str,
    pub signal_name: &'static str,
    pub slug: &'static str,
    pub kind: CalibrationKind,
}

/// All channels, in the order in which they are calibrated.
pub open spec fn channel_table() -> Seq<CalibrationChannel> {
    seq![
        CalibrationChannel {
            label: "4-20 mA channel 0 (ain3)",
            analog_input_name: "ain3",
            signal_name: "p1_4_20_mA_0_A.y",
            slug: "4_20_mA_0",
            kind: CalibrationKind::Current4To20,
        },
        CalibrationChannel {
            label: "4-20 mA channel 1 (ain4)",
            analog_input_name: "ain4",
            signal_name: "p1_4_20_mA_1_A.y",
            slug: "4_20_mA_1",
            kind: CalibrationKind::Current4To20,
        },
        CalibrationChannel {
            label: "4-20 mA channel 2 (ain5)",
            analog_input_name: "ain5",
            signal_name: "p1_4_20_mA_2_A.y",
            slug: "4_20_mA_2",
            kind: CalibrationKind::Current4To20,
        },
        CalibrationChannel {
            label: "4-20 mA channel 3 (ain6)",
            analog_input_name: "ain6",
            signal_name: "p1_4_20_mA_3_A.y",
            slug: "4_20_mA_3",
            kind: CalibrationKind::Current4To20,
        },
        CalibrationChannel {
            label: "RTD channel 0 (ain7)",
            analog_input_name: "ain7",
            signal_name: "p1_rtd_0.temperature_K",
            slug: "rtd_0",
            kind: CalibrationKind::Rtd,
        },
        CalibrationChannel {
            label: "RTD channel 1 (ain8)",
            analog_input_name: "ain8",
            signal_name: "p1_rtd_1.temperature_K",
            slug: "rtd_1",
            kind: CalibrationKind::Rtd,
        },
        CalibrationChannel {
            label: "RTD channel 2 (ain9)",
            analog_input_name: "ain9",
            signal_name: "p1_rtd_2.temperature_K",
            slug: "rtd_2",
            kind: CalibrationKind::Rtd,
        },
        CalibrationChannel {
            label: "Thermocouple channel 0 (ain10)",
            analog_input_name: "ain10",
            signal_name: "p1_tc_0.temperature_K",
            slug: "tc_0",
            kind: CalibrationKind::Thermocouple,
        },
        CalibrationChannel {
            label: "Thermocouple channel 1 (ain11)",
            analog_input_name: "ain11",
            signal_name: "p1_tc_1.temperature_K",
            slug: "tc_1",
            kind: CalibrationKind::Thermocouple,
        },
        CalibrationChannel {
            label: "0-2.5 V channel 0 (ain12)",
            analog_input_name: "ain12",
            signal_name: "p1_0_2V5_0.y",
            slug: "0_2V5_0",
            kind: CalibrationKind::Voltage,
        },
        CalibrationChannel {
            label: "0-2.5 V channel 1 (ain15)",
            analog_input_name: "ain15",
            signal_name: "p1_0_2V5_1.y",
            slug: "0_2V5_1",
            kind: CalibrationKind::Voltage,
        },
        CalibrationChannel {
            label: "0-15 V channel 0 (ain16)",
            analog_input_name: "ain16",
            signal_name: "p1_0_15V_0.y",
            slug: "0_15V_0",
            kind: CalibrationKind::Voltage,
        },
        CalibrationChannel {
            label: "0-15 V channel 1 (ain17)",
            analog_input_name: "ain17",
            signal_name: "p1_0_15V_1.y",
            slug: "0_15V_1",
            kind: CalibrationKind::Voltage,
        },
        CalibrationChannel {
            label: "x26 voltage channel 0 (ain18)",
            analog_input_name: "ain18",
            signal_name: "p1_x26_0.y",
            slug: "x26_0",
            kind: CalibrationKind::Voltage,
        },
        CalibrationChannel {
            label: "x26 voltage channel 1 (ain19)",
            analog_input_name: "ain19",
            signal_name: "p1_x26_1.y",
            slug: "x26_1",
            kind: CalibrationKind::Voltage,
        },
    ]
}

/// All channels, in the order in which they are calibrated.
pub fn all_calibration_channels() -> (v: Vec<CalibrationChannel>)
    ensures
        v@ == channel_table(),
{
    let v = vec![
        CalibrationChannel {
            label: "4-20 mA channel 0 (ain3)",
            analog_input_name: "ain3",
            signal_name: "p1_4_20_mA_0_A.y",
            slug: "4_20_mA_0",
            kind: CalibrationKind::Current4To20,
        },
        CalibrationChannel {
            label: "4-20 mA channel 1 (ain4)",
            analog_input_name: "ain4",
            signal_name: "p1_4_20_mA_1_A.y",
            slug: "4_20_mA_1",
            kind: CalibrationKind::Current4To20,
        },
        CalibrationChannel {
            label: "4-20 mA channel 2 (ain5)",
            analog_input_name: "ain5",
            signal_name: "p1_4_20_mA_2_A.y",
            slug: "4_20_mA_2",
            kind: CalibrationKind::Current4To20,
        },
        CalibrationChannel {
            label: "4-20 mA channel 3 (ain6)",
            analog_input_name: "ain6",
            signal_name: "p1_4_20_mA_3_A.y",
            slug: "4_20_mA_3",
            kind: CalibrationKind::Current4To20,
        },
        CalibrationChannel {
            label: "RTD channel 0 (ain7)",
            analog_input_name: "ain7",
            signal_name: "p1_rtd_0.temperature_K",
            slug: "rtd_0",
            kind: CalibrationKind::Rtd,
        },
        CalibrationChannel {
            label: "RTD channel 1 (ain8)",
            analog_input_name: "ain8",
            signal_name: "p1_rtd_1.temperature_K",
            slug: "rtd_1",
            kind: CalibrationKind::Rtd,
        },
        CalibrationChannel {
            label: "RTD channel 2 (ain9)",
            analog_input_name: "ain9",
            signal_name: "p1_rtd_2.temperature_K",
            slug: "rtd_2",
            kind: CalibrationKind::Rtd,
        },
        CalibrationChannel {
            label: "Thermocouple channel 0 (ain10)",
            analog_input_name: "ain10",
            signal_name: "p1_tc_0.temperature_K",
            slug: "tc_0",
            kind: CalibrationKind::Thermocouple,
        },
        CalibrationChannel {
            label: "Thermocouple channel 1 (ain11)",
            analog_input_name: "ain11",
            signal_name: "p1_tc_1.temperature_K",
            slug: "tc_1",
            kind: CalibrationKind::Thermocouple,
        },
        CalibrationChannel {
            label: "0-2.5 V channel 0 (ain12)",
            analog_input_name: "ain12",
            signal_name: "p1_0_2V5_0.y",
            slug: "0_2V5_0",
            kind: CalibrationKind::Voltage,
        },
        CalibrationChannel {
            label: "0-2.5 V channel 1 (ain15)",
            analog_input_name: "ain15",
            signal_name: "p1_0_2V5_1.y",
            slug: "0_2V5_1",
            kind: CalibrationKind::Voltage,
        },
        CalibrationChannel {
            label: "0-15 V channel 0 (ain16)",
            analog_input_name: "ain16",
            signal_name: "p1_0_15V_0.y",
            slug: "0_15V_0",
            kind: CalibrationKind::Voltage,
        },
        CalibrationChannel {
            label: "0-15 V channel 1 (ain17)",
            analog_input_name: "ain17",
            signal_name: "p1_0_15V_1.y",
            slug: "0_15V_1",
            kind: CalibrationKind::Voltage,
        },
        CalibrationChannel {
            label: "x26 voltage channel 0 (ain18)",
            analog_input_name: "ain18",
            signal_name: "p1_x26_0.y",
            slug: "x26_0",
            kind: CalibrationKind::Voltage,
        },
        CalibrationChannel {
            label: "x26 voltage channel 1 (ain19)",
            analog_input_name: "ain19",
            signal_name: "p1_x26_1.y",
            slug: "x26_1",
            kind: CalibrationKind::Voltage,
        },
    ];
    assert(v@ =~= channel_table());
    v
}

/// The first channel with the given signal name among the first `n`.
pub open spec fn channel_named(signal_name: Seq<char>, n: nat) -> Option<CalibrationChannel>
    decreases n,
{
    if n == 0 {
        None
    } else if channel_named(signal_name, (n - 1) as nat) is Some {
        channel_named(signal_name, (n - 1) as nat)
    } else if channel_table()[n - 1].signal_name@ == signal_name {
        Some(channel_table()[n - 1])
    } else {
        None
    }
}

/// The channel that a signal name belongs to.
pub fn channel_for_signal_name(signal_name: &str) -> (r: Option<CalibrationChannel>)
    ensures
        r == channel_named(signal_name@, channel_table().len()),
{
    let channels = all_calibration_channels();
    let mut found: Option<CalibrationChannel> = None;
    let mut i: usize = 0;
    while i < channels.len()
        invariant
            channels@ == channel_table(),
            i <= channels@.len(),
            found == channel_named(signal_name@, i as nat),
        decreases channels@.len() - i,
    {
        if found.is_none() && same_text(channels[i].signal_name, signal_name) {
            found = Some(channels[i]);
        }
        i = i + 1;
    }
    found
}

/// The unit on both sides of the fit.
pub open spec fn fit_units_of(kind: CalibrationKind) -> Seq<char> {
    match kind {
        CalibrationKind::Current4To20 => "V"@,
        CalibrationKind::Rtd => "V"@,
        CalibrationKind::Thermocouple => "V"@,
        CalibrationKind::Voltage => "V"@,
    }
}

/// Heading of the fit.
pub open spec fn fit_heading_of(kind: CalibrationKind) -> Seq<char> {
    match kind {
        CalibrationKind::Current4To20 => "Voltage fit"@,
        CalibrationKind::Rtd => "Voltage fit"@,
        CalibrationKind::Thermocouple => "Thermocouple voltage fit"@,
        CalibrationKind::Voltage => "Voltage fit"@,
    }
}

/// Axis label of the measured values.
pub open spec fn value_axis_label_of(kind: CalibrationKind) -> Seq<char> {
    match kind {
        CalibrationKind::Current4To20 => "Current (mA)"@,
        CalibrationKind::Rtd => "Temperature (K)"@,
        CalibrationKind::Thermocouple => "Adjusted temperature (K)"@,
        CalibrationKind::Voltage => "Voltage (V)"@,
    }
}

/// Axis label of the reference values.
pub open spec fn reference_axis_label_of(kind: CalibrationKind) -> Seq<char> {
    match kind {
        CalibrationKind::Current4To20 => "Reference current (mA)"@,
        CalibrationKind::Rtd => "Reference temperature (K)"@,
        CalibrationKind::Thermocouple => "Reference temperature (K)"@,
        CalibrationKind::Voltage => "Reference voltage (V)"@,
    }
}

/// Title of the error plot.
pub open spec fn error_plot_title_of(kind: CalibrationKind) -> Seq<char> {
    match kind {
        CalibrationKind::Current4To20 => "Current error vs reference"@,
        CalibrationKind::Rtd => "Temperature error vs reference"@,
        CalibrationKind::Thermocouple => "Thermocouple temperature error vs reference"@,
        CalibrationKind::Voltage => "Voltage error vs reference"@,
    }
}

/// Axis label of the error.
pub open spec fn error_axis_label_of(kind: CalibrationKind) -> Seq<char> {
    match kind {
        CalibrationKind::Current4To20 => "Error (mA)"@,
        CalibrationKind::Rtd => "Error (K)"@,
        CalibrationKind::Thermocouple => "Error (K)"@,
        CalibrationKind::Voltage => "Error (V)"@,
    }
}

/// Label of the accuracy band in the error plot.
pub open spec fn error_accuracy_label_of(kind: CalibrationKind) -> Seq<char> {
    match kind {
        CalibrationKind::Current4To20 => "Fluke 707 accuracy range"@,
        CalibrationKind::Rtd => "VA720 accuracy range"@,
        CalibrationKind::Thermocouple => "VA710 approximate accuracy range"@,
        CalibrationKind::Voltage => "Fluke 707 voltage accuracy range"@,
    }
}

/// Title of the fit plot.
pub open spec fn fit_plot_title_of(kind: CalibrationKind) -> Seq<char> {
    match kind {
        CalibrationKind::Current4To20 => "Expected voltage vs measured voltage"@,
        CalibrationKind::Rtd => "Corrected RTD voltage vs measured voltage"@,
        CalibrationKind::Thermocouple => "Corrected thermocouple voltage vs measured voltage"@,
        CalibrationKind::Voltage => "Expected voltage vs measured voltage"@,
    }
}

/// Horizontal axis label of the fit plot.
pub open spec fn fit_x_axis_label_of(kind: CalibrationKind) -> Seq<char> {
    match kind {
        CalibrationKind::Current4To20 => "Measured voltage (V)"@,
        CalibrationKind::Rtd => "Measured RTD voltage (V)"@,
        CalibrationKind::Thermocouple => "Measured thermocouple voltage (V)"@,
        CalibrationKind::Voltage => "Measured voltage (V)"@,
    }
}

/// Vertical axis label of the fit plot.
pub open spec fn fit_y_axis_label_of(kind: CalibrationKind) -> Seq<char> {
    match kind {
        CalibrationKind::Current4To20 => "Expected voltage (V)"@,
        CalibrationKind::Rtd => "Corrected RTD voltage (V)"@,
        CalibrationKind::Thermocouple => "Corrected thermocouple voltage (V)"@,
        CalibrationKind::Voltage => "Expected voltage (V)"@,
    }
}

/// Title of the residual plot.
pub open spec fn residual_plot_title_of(kind: CalibrationKind) -> Seq<char> {
    match kind {
        CalibrationKind::Current4To20 => "Residual after voltage fit, expressed as current"@,
        CalibrationKind::Rtd => "Residual temperature error after voltage fit propagation"@,
        CalibrationKind::Thermocouple => "Residual temperature error after voltage fit propagation"@,
        CalibrationKind::Voltage => "Residual after voltage fit"@,
    }
}

/// Axis label of the residual.
pub open spec fn residual_axis_label_of(kind: CalibrationKind) -> Seq<char> {
    match kind {
        CalibrationKind::Current4To20 => "Estimated current residual (uA)"@,
        CalibrationKind::Rtd => "Temperature residual (K)"@,
        CalibrationKind::Thermocouple => "Temperature residual (K)"@,
        CalibrationKind::Voltage => "Voltage residual (V)"@,
    }
}

/// Label of the accuracy band in the residual plot.
pub open spec fn residual_accuracy_label_of(kind: CalibrationKind) -> Seq<char> {
    match kind {
        CalibrationKind::Current4To20 => "Fluke 707 accuracy range"@,
        CalibrationKind::Rtd => "VA720 accuracy range"@,
        CalibrationKind::Thermocouple => "VA710 approximate accuracy range"@,
        CalibrationKind::Voltage => "Fluke 707 voltage accuracy range"@,
    }
}

/// Horizontal axis label of the residual plot: that of the reference values.
pub open spec fn residual_x_axis_label_of(kind: CalibrationKind) -> Seq<char> {
    reference_axis_label_of(kind)
}

impl CalibrationChannel {
    /// Longest duration of one recording.
    pub fn capture_seconds(self) -> (r: u64)
        ensures
            r == match self.kind {
                CalibrationKind::Current4To20 => 90,
                CalibrationKind::Rtd => 240,
                CalibrationKind::Thermocouple => 240,
                CalibrationKind::Voltage => 300int,
            },
    {
        match self.kind {
            CalibrationKind::Current4To20 => 90,
            CalibrationKind::Rtd => 240,
            CalibrationKind::Thermocouple => 240,
            CalibrationKind::Voltage => 300,
        }
    }

    /// The unit on both sides of the fit.
    pub fn fit_units(self) -> (r: &'static str)
        ensures
            r@ == fit_units_of(self.kind),
    {
        match self.kind {
            CalibrationKind::Current4To20 => "V",
            CalibrationKind::Rtd => "V",
            CalibrationKind::Thermocouple => "V",
            CalibrationKind::Voltage => "V",
        }
    }

    /// Heading of the fit.
    pub fn fit_heading(self) -> (r: &'static str)
        ensures
            r@ == fit_heading_of(self.kind),
    {
        match self.kind {
            CalibrationKind::Current4To20 => "Voltage fit",
            CalibrationKind::Rtd => "Voltage fit",
            CalibrationKind::Thermocouple => "Thermocouple voltage fit",
            CalibrationKind::Voltage => "Voltage fit",
        }
    }

    /// Axis label of the measured values.
    pub fn value_axis_label(self) -> (r: &'static str)
        ensures
            r@ == value_axis_label_of(self.kind),
    {
        match self.kind {
            CalibrationKind::Current4To20 => "Current (mA)",
            CalibrationKind::Rtd => "Temperature (K)",
            CalibrationKind::Thermocouple => "Adjusted temperature (K)",
            CalibrationKind::Voltage => "Voltage (V)",
        }
    }

    /// Axis label of the reference values.
    pub fn reference_axis_label(self) -> (r: &'static str)
        ensures
            r@ == reference_axis_label_of(self.kind),
    {
        match self.kind {
            CalibrationKind::Current4To20 => "Reference current (mA)",
            CalibrationKind::Rtd => "Reference temperature (K)",
            CalibrationKind::Thermocouple => "Reference temperature (K)",
            CalibrationKind::Voltage => "Reference voltage (V)",
        }
    }

    /// Title of the error plot.
    pub fn error_plot_title(self) -> (r: &'static str)
        ensures
            r@ == error_plot_title_of(self.kind),
    {
        match self.kind {
            CalibrationKind::Current4To20 => "Current error vs reference",
            CalibrationKind::Rtd => "Temperature error vs reference",
            CalibrationKind::Thermocouple => "Thermocouple temperature error vs reference",
            CalibrationKind::Voltage => "Voltage error vs reference",
        }
    }

    /// Axis label of the error.
    pub fn error_axis_label(self) -> (r: &'static str)
        ensures
            r@ == error_axis_label_of(self.kind),
    {
        match self.kind {
            CalibrationKind::Current4To20 => "Error (mA)",
            CalibrationKind::Rtd => "Error (K)",
            CalibrationKind::Thermocouple => "Error (K)",
            CalibrationKind::Voltage => "Error (V)",
        }
    }

    /// Label of the accuracy band in the error plot.
    pub fn error_accuracy_label(self) -> (r: &'static str)
        ensures
            r@ == error_accuracy_label_of(self.kind),
    {
        match self.kind {
            CalibrationKind::Current4To20 => "Fluke 707 accuracy range",
            CalibrationKind::Rtd => "VA720 accuracy range",
            CalibrationKind::Thermocouple => "VA710 approximate accuracy range",
            CalibrationKind::Voltage => "Fluke 707 voltage accuracy range",
        }
    }

    /// Title of the fit plot.
    pub fn fit_plot_title(self) -> (r: &'static str)
        ensures
            r@ == fit_plot_title_of(self.kind),
    {
        match self.kind {
            CalibrationKind::Current4To20 => "Expected voltage vs measured voltage",
            CalibrationKind::Rtd => "Corrected RTD voltage vs measured voltage",
            CalibrationKind::Thermocouple => "Corrected thermocouple voltage vs measured voltage",
            CalibrationKind::Voltage => "Expected voltage vs measured voltage",
        }
    }

    /// Horizontal axis label of the fit plot.
    pub fn fit_x_axis_label(self) -> (r: &'static str)
        ensures
            r@ == fit_x_axis_label_of(self.kind),
    {
        match self.kind {
            CalibrationKind::Current4To20 => "Measured voltage (V)",
            CalibrationKind::Rtd => "Measured RTD voltage (V)",
            CalibrationKind::Thermocouple => "Measured thermocouple voltage (V)",
            CalibrationKind::Voltage => "Measured voltage (V)",
        }
    }

    /// Vertical axis label of the fit plot.
    pub fn fit_y_axis_label(self) -> (r: &'static str)
        ensures
            r@ == fit_y_axis_label_of(self.kind),
    {
        match self.kind {
            CalibrationKind::Current4To20 => "Expected voltage (V)",
            CalibrationKind::Rtd => "Corrected RTD voltage (V)",
            CalibrationKind::Thermocouple => "Corrected thermocouple voltage (V)",
            CalibrationKind::Voltage => "Expected voltage (V)",
        }
    }

    /// Title of the residual plot.
    pub fn residual_plot_title(self) -> (r: &'static str)
        ensures
            r@ == residual_plot_title_of(self.kind),
    {
        match self.kind {
            CalibrationKind::Current4To20 => "Residual after voltage fit, expressed as current",
            CalibrationKind::Rtd => "Residual temperature error after voltage fit propagation",
            CalibrationKind::Thermocouple => "Residual temperature error after voltage fit propagation",
            CalibrationKind::Voltage => "Residual after voltage fit",
        }
    }

    /// Axis label of the residual.
    pub fn residual_axis_label(self) -> (r: &'static str)
        ensures
            r@ == residual_axis_label_of(self.kind),
    {
        match self.kind {
            CalibrationKind::Current4To20 => "Estimated current residual (uA)",
            CalibrationKind::Rtd => "Temperature residual (K)",
            CalibrationKind::Thermocouple => "Temperature residual (K)",
            CalibrationKind::Voltage => "Voltage residual (V)",
        }
    }

    /// Label of the accuracy band in the residual plot.
    pub fn residual_accuracy_label(self) -> (r: &'static str)
        ensures
            r@ == residual_accuracy_label_of(self.kind),
    {
        match self.kind {
            CalibrationKind::Current4To20 => "Fluke 707 accuracy range",
            CalibrationKind::Rtd => "VA720 accuracy range",
            CalibrationKind::Thermocouple => "VA710 approximate accuracy range",
            CalibrationKind::Voltage => "Fluke 707 voltage accuracy range",
        }
    }

    /// Horizontal axis label of the residual plot: that of the reference values.
    pub fn residual_x_axis_label(self) -> (r: &'static str)
        ensures
            r@ == residual_x_axis_label_of(self.kind),
    {
        self.reference_axis_label()
    }

    /// The voltage signal of a thermocouple channel.
    pub open spec fn voltage_signal(self) -> Option<Seq<char>> {
        if self.slug@ == "tc_0"@ {
            Some("p1_tc_0_V.y"@)
        } else if self.slug@ == "tc_1"@ {
            Some("p1_tc_1_V.y"@)
        } else {
            None
        }
    }

    /// The voltage signal of a thermocouple channel.
    pub fn tc_voltage_signal_name(self) -> (r: Option<&'static str>)
        ensures
            match r {
                Some(name) => self.voltage_signal() == Some(name@),
                None => self.voltage_signal() is None,
            },
    {
        if same_text(self.slug, "tc_0") {
            Some("p1_tc_0_V.y")
        } else if same_text(self.slug, "tc_1") {
            Some("p1_tc_1_V.y")
        } else {
            None
        }
    }

    /// The signal that a calibration applies to: the voltage signal of a
    /// thermocouple channel, else the channel's own.
    pub fn calibration_signal_name(self) -> (r: &'static str)
        ensures
            r@ == match self.voltage_signal() {
                Some(name) => name,
                None => self.signal_name@,
            },
    {
        match self.tc_voltage_signal_name() {
            Some(name) => name,
            None => self.signal_name,
        }
    }
}

/// No two channels share a signal name.
pub proof fn law_signal_names_differ(i: int, j: int)
    requires
        0 <= i < j < channel_table().len(),
    ensures
        channel_table()[i].signal_name@ != channel_table()[j].signal_name@,
{
    reveal_strlit("p1_4_20_mA_0_A.y");
    reveal_strlit("p1_4_20_mA_1_A.y");
    reveal_strlit("p1_4_20_mA_2_A.y");
    reveal_strlit("p1_4_20_mA_3_A.y");
    reveal_strlit("p1_rtd_0.temperature_K");
    reveal_strlit("p1_rtd_1.temperature_K");
    reveal_strlit("p1_rtd_2.temperature_K");
    reveal_strlit("p1_tc_0.temperature_K");
    reveal_strlit("p1_tc_1.temperature_K");
    reveal_strlit("p1_0_2V5_0.y");
    reveal_strlit("p1_0_2V5_1.y");
    reveal_strlit("p1_0_15V_0.y");
    reveal_strlit("p1_0_15V_1.y");
    reveal_strlit("p1_x26_0.y");
    reveal_strlit("p1_x26_1.y");
    assert("p1_4_20_mA_0_A.y"@.len() == 16 && "p1_4_20_mA_0_A.y"@[3] == '4' && "p1_4_20_mA_0_A.y"@[5] == '2' && "p1_4_20_mA_0_A.y"@[11] == '0');
    assert("p1_4_20_mA_1_A.y"@.len() == 16 && "p1_4_20_mA_1_A.y"@[3] == '4' && "p1_4_20_mA_1_A.y"@[5] == '2' && "p1_4_20_mA_1_A.y"@[11] == '1');
    assert("p1_4_20_mA_2_A.y"@.len() == 16 && "p1_4_20_mA_2_A.y"@[3] == '4' && "p1_4_20_mA_2_A.y"@[5] == '2' && "p1_4_20_mA_2_A.y"@[11] == '2');
    assert("p1_4_20_mA_3_A.y"@.len() == 16 && "p1_4_20_mA_3_A.y"@[3] == '4' && "p1_4_20_mA_3_A.y"@[5] == '2' && "p1_4_20_mA_3_A.y"@[11] == '3');
    assert("p1_rtd_0.temperature_K"@.len() == 22 && "p1_rtd_0.temperature_K"@[3] == 'r' && "p1_rtd_0.temperature_K"@[5] == 'd' && "p1_rtd_0.temperature_K"@[7] == '0');
    assert("p1_rtd_1.temperature_K"@.len() == 22 && "p1_rtd_1.temperature_K"@[3] == 'r' && "p1_rtd_1.temperature_K"@[5] == 'd' && "p1_rtd_1.temperature_K"@[7] == '1');
    assert("p1_rtd_2.temperature_K"@.len() == 22 && "p1_rtd_2.temperature_K"@[3] == 'r' && "p1_rtd_2.temperature_K"@[5] == 'd' && "p1_rtd_2.temperature_K"@[7] == '2');
    assert("p1_tc_0.temperature_K"@.len() == 21 && "p1_tc_0.temperature_K"@[3] == 't' && "p1_tc_0.temperature_K"@[5] == '_' && "p1_tc_0.temperature_K"@[6] == '0');
    assert("p1_tc_1.temperature_K"@.len() == 21 && "p1_tc_1.temperature_K"@[3] == 't' && "p1_tc_1.temperature_K"@[5] == '_' && "p1_tc_1.temperature_K"@[6] == '1');
    assert("p1_0_2V5_0.y"@.len() == 12 && "p1_0_2V5_0.y"@[3] == '0' && "p1_0_2V5_0.y"@[5] == '2' && "p1_0_2V5_0.y"@[9] == '0');
    assert("p1_0_2V5_1.y"@.len() == 12 && "p1_0_2V5_1.y"@[3] == '0' && "p1_0_2V5_1.y"@[5] == '2' && "p1_0_2V5_1.y"@[9] == '1');
    assert("p1_0_15V_0.y"@.len() == 12 && "p1_0_15V_0.y"@[3] == '0' && "p1_0_15V_0.y"@[5] == '1' && "p1_0_15V_0.y"@[9] == '0');
    assert("p1_0_15V_1.y"@.len() == 12 && "p1_0_15V_1.y"@[3] == '0' && "p1_0_15V_1.y"@[5] == '1' && "p1_0_15V_1.y"@[9] == '1');
    assert("p1_x26_0.y"@.len() == 10 && "p1_x26_0.y"@[3] == 'x' && "p1_x26_0.y"@[5] == '6' && "p1_x26_0.y"@[7] == '0');
    assert("p1_x26_1.y"@.len() == 10 && "p1_x26_1.y"@[3] == 'x' && "p1_x26_1.y"@[5] == '6' && "p1_x26_1.y"@[7] == '1');
}

/// Every channel is found again by its signal name.
pub proof fn law_channel_is_found_by_its_signal_name(i: int)
    requires
        0 <= i < channel_table().len(),
    ensures
        channel_named(channel_table()[i].signal_name@, channel_table().len()) == Some(
            channel_table()[i],
        ),
{
    lemma_channel_found(i, channel_table().len());
}

proof fn lemma_channel_found(i: int, n: nat)
    requires
        0 <= i < channel_table().len(),
        n <= channel_table().len(),
    ensures
        channel_named(channel_table()[i].signal_name@, n) == if i < n {
            Some(channel_table()[i])
        } else {
            None
        },
    decreases n,
{
    if n > 0 {
        lemma_channel_found(i, (n - 1) as nat);
        if n - 1 < i {
            law_signal_names_differ(n - 1, i);
        } else if i < n - 1 {
            law_signal_names_differ(i, n - 1);
        }
    }
}

/// The channels are on the inputs 3 to 12 and 15 to 19, in order, and the label of each
/// names its input.
pub proof fn law_channels_are_on_their_inputs(i: int)
    requires
        0 <= i < 15,
    ensures
        ({
            let channel = channel_table()[i];
            let input = if i < 10 {
                3 + i
            } else {
                5 + i
            };
            &&& channel_table().len() == 15
            &&& channel.analog_input_name@ == "ain"@ + text::nat_text(input as nat)
            &&& text::ends_with(channel.label@, " ("@ + channel.analog_input_name@ + ")"@)
        }),
{
    if i == 0 {
        lemma_input_0();
    }
    if i == 1 {
        lemma_input_1();
    }
    if i == 2 {
        lemma_input_2();
    }
    if i == 3 {
        lemma_input_3();
    }
    if i == 4 {
        lemma_input_4();
    }
    if i == 5 {
        lemma_input_5();
    }
    if i == 6 {
        lemma_input_6();
    }
    if i == 7 {
        lemma_input_7();
    }
    if i == 8 {
        lemma_input_8();
    }
    if i == 9 {
        lemma_input_9();
    }
    if i == 10 {
        lemma_input_10();
    }
    if i == 11 {
        lemma_input_11();
    }
    if i == 12 {
        lemma_input_12();
    }
    if i == 13 {
        lemma_input_13();
    }
    if i == 14 {
        lemma_input_14();
    }
}

proof fn lemma_input_0()
    ensures
        "ain3"@ == "ain"@ + text::nat_text(3),
        text::ends_with("4-20 mA channel 0 (ain3)"@, " ("@ + "ain3"@ + ")"@),
{
    reveal_strlit("ain3");
    reveal_strlit("4-20 mA channel 0 (ain3)");
    reveal_strlit("ain");
    reveal_strlit(" (");
    reveal_strlit(")");
    reveal_with_fuel(text::nat_text, 2);
    assert("ain3"@ =~= "ain"@ + text::nat_text(3));
    assert("4-20 mA channel 0 (ain3)"@.skip(17) =~= " ("@ + "ain3"@ + ")"@);
}

proof fn lemma_input_1()
    ensures
        "ain4"@ == "ain"@ + text::nat_text(4),
        text::ends_with("4-20 mA channel 1 (ain4)"@, " ("@ + "ain4"@ + ")"@),
{
    reveal_strlit("ain4");
    reveal_strlit("4-20 mA channel 1 (ain4)");
    reveal_strlit("ain");
    reveal_strlit(" (");
    reveal_strlit(")");
    reveal_with_fuel(text::nat_text, 2);
    assert("ain4"@ =~= "ain"@ + text::nat_text(4));
    assert("4-20 mA channel 1 (ain4)"@.skip(17) =~= " ("@ + "ain4"@ + ")"@);
}

proof fn lemma_input_2()
    ensures
        "ain5"@ == "ain"@ + text::nat_text(5),
        text::ends_with("4-20 mA channel 2 (ain5)"@, " ("@ + "ain5"@ + ")"@),
{
    reveal_strlit("ain5");
    reveal_strlit("4-20 mA channel 2 (ain5)");
    reveal_strlit("ain");
    reveal_strlit(" (");
    reveal_strlit(")");
    reveal_with_fuel(text::nat_text, 2);
    assert("ain5"@ =~= "ain"@ + text::nat_text(5));
    assert("4-20 mA channel 2 (ain5)"@.skip(17) =~= " ("@ + "ain5"@ + ")"@);
}

proof fn lemma_input_3()
    ensures
        "ain6"@ == "ain"@ + text::nat_text(6),
        text::ends_with("4-20 mA channel 3 (ain6)"@, " ("@ + "ain6"@ + ")"@),
{
    reveal_strlit("ain6");
    reveal_strlit("4-20 mA channel 3 (ain6)");
    reveal_strlit("ain");
    reveal_strlit(" (");
    reveal_strlit(")");
    reveal_with_fuel(text::nat_text, 2);
    assert("ain6"@ =~= "ain"@ + text::nat_text(6));
    assert("4-20 mA channel 3 (ain6)"@.skip(17) =~= " ("@ + "ain6"@ + ")"@);
}

proof fn lemma_input_4()
    ensures
        "ain7"@ == "ain"@ + text::nat_text(7),
        text::ends_with("RTD channel 0 (ain7)"@, " ("@ + "ain7"@ + ")"@),
{
    reveal_strlit("ain7");
    reveal_strlit("RTD channel 0 (ain7)");
    reveal_strlit("ain");
    reveal_strlit(" (");
    reveal_strlit(")");
    reveal_with_fuel(text::nat_text, 2);
    assert("ain7"@ =~= "ain"@ + text::nat_text(7));
    assert("RTD channel 0 (ain7)"@.skip(13) =~= " ("@ + "ain7"@ + ")"@);
}

proof fn lemma_input_5()
    ensures
        "ain8"@ == "ain"@ + text::nat_text(8),
        text::ends_with("RTD channel 1 (ain8)"@, " ("@ + "ain8"@ + ")"@),
{
    reveal_strlit("ain8");
    reveal_strlit("RTD channel 1 (ain8)");
    reveal_strlit("ain");
    reveal_strlit(" (");
    reveal_strlit(")");
    reveal_with_fuel(text::nat_text, 2);
    assert("ain8"@ =~= "ain"@ + text::nat_text(8));
    assert("RTD channel 1 (ain8)"@.skip(13) =~= " ("@ + "ain8"@ + ")"@);
}

proof fn lemma_input_6()
    ensures
        "ain9"@ == "ain"@ + text::nat_text(9),
        text::ends_with("RTD channel 2 (ain9)"@, " ("@ + "ain9"@ + ")"@),
{
    reveal_strlit("ain9");
    reveal_strlit("RTD channel 2 (ain9)");
    reveal_strlit("ain");
    reveal_strlit(" (");
    reveal_strlit(")");
    reveal_with_fuel(text::nat_text, 2);
    assert("ain9"@ =~= "ain"@ + text::nat_text(9));
    assert("RTD channel 2 (ain9)"@.skip(13) =~= " ("@ + "ain9"@ + ")"@);
}

proof fn lemma_input_7()
    ensures
        "ain10"@ == "ain"@ + text::nat_text(10),
        text::ends_with("Thermocouple channel 0 (ain10)"@, " ("@ + "ain10"@ + ")"@),
{
    reveal_strlit("ain10");
    reveal_strlit("Thermocouple channel 0 (ain10)");
    reveal_strlit("ain");
    reveal_strlit(" (");
    reveal_strlit(")");
    reveal_with_fuel(text::nat_text, 2);
    assert("ain10"@ =~= "ain"@ + text::nat_text(10));
    assert("Thermocouple channel 0 (ain10)"@.skip(22) =~= " ("@ + "ain10"@ + ")"@);
}

proof fn lemma_input_8()
    ensures
        "ain11"@ == "ain"@ + text::nat_text(11),
        text::ends_with("Thermocouple channel 1 (ain11)"@, " ("@ + "ain11"@ + ")"@),
{
    reveal_strlit("ain11");
    reveal_strlit("Thermocouple channel 1 (ain11)");
    reveal_strlit("ain");
    reveal_strlit(" (");
    reveal_strlit(")");
    reveal_with_fuel(text::nat_text, 2);
    assert("ain11"@ =~= "ain"@ + text::nat_text(11));
    assert("Thermocouple channel 1 (ain11)"@.skip(22) =~= " ("@ + "ain11"@ + ")"@);
}

proof fn lemma_input_9()
    ensures
        "ain12"@ == "ain"@ + text::nat_text(12),
        text::ends_with("0-2.5 V channel 0 (ain12)"@, " ("@ + "ain12"@ + ")"@),
{
    reveal_strlit("ain12");
    reveal_strlit("0-2.5 V channel 0 (ain12)");
    reveal_strlit("ain");
    reveal_strlit(" (");
    reveal_strlit(")");
    reveal_with_fuel(text::nat_text, 2);
    assert("ain12"@ =~= "ain"@ + text::nat_text(12));
    assert("0-2.5 V channel 0 (ain12)"@.skip(17) =~= " ("@ + "ain12"@ + ")"@);
}

proof fn lemma_input_10()
    ensures
        "ain15"@ == "ain"@ + text::nat_text(15),
        text::ends_with("0-2.5 V channel 1 (ain15)"@, " ("@ + "ain15"@ + ")"@),
{
    reveal_strlit("ain15");
    reveal_strlit("0-2.5 V channel 1 (ain15)");
    reveal_strlit("ain");
    reveal_strlit(" (");
    reveal_strlit(")");
    reveal_with_fuel(text::nat_text, 2);
    assert("ain15"@ =~= "ain"@ + text::nat_text(15));
    assert("0-2.5 V channel 1 (ain15)"@.skip(17) =~= " ("@ + "ain15"@ + ")"@);
}

proof fn lemma_input_11()
    ensures
        "ain16"@ == "ain"@ + text::nat_text(16),
        text::ends_with("0-15 V channel 0 (ain16)"@, " ("@ + "ain16"@ + ")"@),
{
    reveal_strlit("ain16");
    reveal_strlit("0-15 V channel 0 (ain16)");
    reveal_strlit("ain");
    reveal_strlit(" (");
    reveal_strlit(")");
    reveal_with_fuel(text::nat_text, 2);
    assert("ain16"@ =~= "ain"@ + text::nat_text(16));
    assert("0-15 V channel 0 (ain16)"@.skip(16) =~= " ("@ + "ain16"@ + ")"@);
}

proof fn lemma_input_12()
    ensures
        "ain17"@ == "ain"@ + text::nat_text(17),
        text::ends_with("0-15 V channel 1 (ain17)"@, " ("@ + "ain17"@ + ")"@),
{
    reveal_strlit("ain17");
    reveal_strlit("0-15 V channel 1 (ain17)");
    reveal_strlit("ain");
    reveal_strlit(" (");
    reveal_strlit(")");
    reveal_with_fuel(text::nat_text, 2);
    assert("ain17"@ =~= "ain"@ + text::nat_text(17));
    assert("0-15 V channel 1 (ain17)"@.skip(16) =~= " ("@ + "ain17"@ + ")"@);
}

proof fn lemma_input_13()
    ensures
        "ain18"@ == "ain"@ + text::nat_text(18),
        text::ends_with("x26 voltage channel 0 (ain18)"@, " ("@ + "ain18"@ + ")"@),
{
    reveal_strlit("ain18");
    reveal_strlit("x26 voltage channel 0 (ain18)");
    reveal_strlit("ain");
    reveal_strlit(" (");
    reveal_strlit(")");
    reveal_with_fuel(text::nat_text, 2);
    assert("ain18"@ =~= "ain"@ + text::nat_text(18));
    assert("x26 voltage channel 0 (ain18)"@.skip(21) =~= " ("@ + "ain18"@ + ")"@);
}

proof fn lemma_input_14()
    ensures
        "ain19"@ == "ain"@ + text::nat_text(19),
        text::ends_with("x26 voltage channel 1 (ain19)"@, " ("@ + "ain19"@ + ")"@),
{
    reveal_strlit("ain19");
    reveal_strlit("x26 voltage channel 1 (ain19)");
    reveal_strlit("ain");
    reveal_strlit(" (");
    reveal_strlit(")");
    reveal_with_fuel(text::nat_text, 2);
    assert("ain19"@ =~= "ain"@ + text::nat_text(19));
    assert("x26 voltage channel 1 (ain19)"@.skip(21) =~= " ("@ + "ain19"@ + ")"@);
}

/// The signal of a channel is named for its slug, which ends in the number of the
/// channel among those of its family. Currents come first, then RTDs, thermocouples
/// and three families of voltages.
pub proof fn law_signals_are_named_for_their_channels(i: int)
    requires
        0 <= i < 15,
    ensures
        ({
            let channel = channel_table()[i];
            &&& i < 4 ==> channel.kind == CalibrationKind::Current4To20 && channel.slug@
                == "4_20_mA_"@ + text::nat_text(i as nat) && channel.signal_name@ == "p1_"@
                + channel.slug@ + "_A.y"@
            &&& 4 <= i < 7 ==> channel.kind == CalibrationKind::Rtd && channel.slug@ == "rtd_"@
                + text::nat_text((i - 4) as nat) && channel.signal_name@ == "p1_"@ + channel.slug@
                + ".temperature_K"@
            &&& 7 <= i < 9 ==> channel.kind == CalibrationKind::Thermocouple && channel.slug@
                == "tc_"@ + text::nat_text((i - 7) as nat) && channel.signal_name@ == "p1_"@
                + channel.slug@ + ".temperature_K"@
            &&& 9 <= i ==> channel.kind == CalibrationKind::Voltage && channel.slug@ == (if i < 11 {
                "0_2V5_"@
            } else if i < 13 {
                "0_15V_"@
            } else {
                "x26_"@
            }) + text::nat_text(((i - 9) % 2) as nat) && channel.signal_name@ == "p1_"@
                + channel.slug@ + ".y"@
        }),
{
    if i == 0 {
        lemma_signal_0();
    }
    if i == 1 {
        lemma_signal_1();
    }
    if i == 2 {
        lemma_signal_2();
    }
    if i == 3 {
        lemma_signal_3();
    }
    if i == 4 {
        lemma_signal_4();
    }
    if i == 5 {
        lemma_signal_5();
    }
    if i == 6 {
        lemma_signal_6();
    }
    if i == 7 {
        lemma_signal_7();
    }
    if i == 8 {
        lemma_signal_8();
    }
    if i == 9 {
        lemma_signal_9();
    }
    if i == 10 {
        lemma_signal_10();
    }
    if i == 11 {
        lemma_signal_11();
    }
    if i == 12 {
        lemma_signal_12();
    }
    if i == 13 {
        lemma_signal_13();
    }
    if i == 14 {
        lemma_signal_14();
    }
}

proof fn lemma_signal_0()
    ensures
        "4_20_mA_0"@ == "4_20_mA_"@ + text::nat_text(0),
        "p1_4_20_mA_0_A.y"@ == "p1_"@ + "4_20_mA_0"@ + "_A.y"@,
{
    reveal_strlit("4_20_mA_0");
    reveal_strlit("4_20_mA_");
    reveal_strlit("p1_4_20_mA_0_A.y");
    reveal_strlit("p1_");
    reveal_strlit("_A.y");
    assert("4_20_mA_0"@ =~= "4_20_mA_"@ + text::nat_text(0));
    assert("p1_4_20_mA_0_A.y"@ =~= "p1_"@ + "4_20_mA_0"@ + "_A.y"@);
}

proof fn lemma_signal_1()
    ensures
        "4_20_mA_1"@ == "4_20_mA_"@ + text::nat_text(1),
        "p1_4_20_mA_1_A.y"@ == "p1_"@ + "4_20_mA_1"@ + "_A.y"@,
{
    reveal_strlit("4_20_mA_1");
    reveal_strlit("4_20_mA_");
    reveal_strlit("p1_4_20_mA_1_A.y");
    reveal_strlit("p1_");
    reveal_strlit("_A.y");
    assert("4_20_mA_1"@ =~= "4_20_mA_"@ + text::nat_text(1));
    assert("p1_4_20_mA_1_A.y"@ =~= "p1_"@ + "4_20_mA_1"@ + "_A.y"@);
}

proof fn lemma_signal_2()
    ensures
        "4_20_mA_2"@ == "4_20_mA_"@ + text::nat_text(2),
        "p1_4_20_mA_2_A.y"@ == "p1_"@ + "4_20_mA_2"@ + "_A.y"@,
{
    reveal_strlit("4_20_mA_2");
    reveal_strlit("4_20_mA_");
    reveal_strlit("p1_4_20_mA_2_A.y");
    reveal_strlit("p1_");
    reveal_strlit("_A.y");
    assert("4_20_mA_2"@ =~= "4_20_mA_"@ + text::nat_text(2));
    assert("p1_4_20_mA_2_A.y"@ =~= "p1_"@ + "4_20_mA_2"@ + "_A.y"@);
}

proof fn lemma_signal_3()
    ensures
        "4_20_mA_3"@ == "4_20_mA_"@ + text::nat_text(3),
        "p1_4_20_mA_3_A.y"@ == "p1_"@ + "4_20_mA_3"@ + "_A.y"@,
{
    reveal_strlit("4_20_mA_3");
    reveal_strlit("4_20_mA_");
    reveal_strlit("p1_4_20_mA_3_A.y");
    reveal_strlit("p1_");
    reveal_strlit("_A.y");
    assert("4_20_mA_3"@ =~= "4_20_mA_"@ + text::nat_text(3));
    assert("p1_4_20_mA_3_A.y"@ =~= "p1_"@ + "4_20_mA_3"@ + "_A.y"@);
}

proof fn lemma_signal_4()
    ensures
        "rtd_0"@ == "rtd_"@ + text::nat_text(0),
        "p1_rtd_0.temperature_K"@ == "p1_"@ + "rtd_0"@ + ".temperature_K"@,
{
    reveal_strlit("rtd_0");
    reveal_strlit("rtd_");
    reveal_strlit("p1_rtd_0.temperature_K");
    reveal_strlit("p1_");
    reveal_strlit(".temperature_K");
    assert("rtd_0"@ =~= "rtd_"@ + text::nat_text(0));
    assert("p1_rtd_0.temperature_K"@ =~= "p1_"@ + "rtd_0"@ + ".temperature_K"@);
}

proof fn lemma_signal_5()
    ensures
        "rtd_1"@ == "rtd_"@ + text::nat_text(1),
        "p1_rtd_1.temperature_K"@ == "p1_"@ + "rtd_1"@ + ".temperature_K"@,
{
    reveal_strlit("rtd_1");
    reveal_strlit("rtd_");
    reveal_strlit("p1_rtd_1.temperature_K");
    reveal_strlit("p1_");
    reveal_strlit(".temperature_K");
    assert("rtd_1"@ =~= "rtd_"@ + text::nat_text(1));
    assert("p1_rtd_1.temperature_K"@ =~= "p1_"@ + "rtd_1"@ + ".temperature_K"@);
}

proof fn lemma_signal_6()
    ensures
        "rtd_2"@ == "rtd_"@ + text::nat_text(2),
        "p1_rtd_2.temperature_K"@ == "p1_"@ + "rtd_2"@ + ".temperature_K"@,
{
    reveal_strlit("rtd_2");
    reveal_strlit("rtd_");
    reveal_strlit("p1_rtd_2.temperature_K");
    reveal_strlit("p1_");
    reveal_strlit(".temperature_K");
    assert("rtd_2"@ =~= "rtd_"@ + text::nat_text(2));
    assert("p1_rtd_2.temperature_K"@ =~= "p1_"@ + "rtd_2"@ + ".temperature_K"@);
}

proof fn lemma_signal_7()
    ensures
        "tc_0"@ == "tc_"@ + text::nat_text(0),
        "p1_tc_0.temperature_K"@ == "p1_"@ + "tc_0"@ + ".temperature_K"@,
{
    reveal_strlit("tc_0");
    reveal_strlit("tc_");
    reveal_strlit("p1_tc_0.temperature_K");
    reveal_strlit("p1_");
    reveal_strlit(".temperature_K");
    assert("tc_0"@ =~= "tc_"@ + text::nat_text(0));
    assert("p1_tc_0.temperature_K"@ =~= "p1_"@ + "tc_0"@ + ".temperature_K"@);
}

proof fn lemma_signal_8()
    ensures
        "tc_1"@ == "tc_"@ + text::nat_text(1),
        "p1_tc_1.temperature_K"@ == "p1_"@ + "tc_1"@ + ".temperature_K"@,
{
    reveal_strlit("tc_1");
    reveal_strlit("tc_");
    reveal_strlit("p1_tc_1.temperature_K");
    reveal_strlit("p1_");
    reveal_strlit(".temperature_K");
    assert("tc_1"@ =~= "tc_"@ + text::nat_text(1));
    assert("p1_tc_1.temperature_K"@ =~= "p1_"@ + "tc_1"@ + ".temperature_K"@);
}

proof fn lemma_signal_9()
    ensures
        "0_2V5_0"@ == "0_2V5_"@ + text::nat_text(0),
        "p1_0_2V5_0.y"@ == "p1_"@ + "0_2V5_0"@ + ".y"@,
{
    reveal_strlit("0_2V5_0");
    reveal_strlit("0_2V5_");
    reveal_strlit("p1_0_2V5_0.y");
    reveal_strlit("p1_");
    reveal_strlit(".y");
    assert("0_2V5_0"@ =~= "0_2V5_"@ + text::nat_text(0));
    assert("p1_0_2V5_0.y"@ =~= "p1_"@ + "0_2V5_0"@ + ".y"@);
}

proof fn lemma_signal_10()
    ensures
        "0_2V5_1"@ == "0_2V5_"@ + text::nat_text(1),
        "p1_0_2V5_1.y"@ == "p1_"@ + "0_2V5_1"@ + ".y"@,
{
    reveal_strlit("0_2V5_1");
    reveal_strlit("0_2V5_");
    reveal_strlit("p1_0_2V5_1.y");
    reveal_strlit("p1_");
    reveal_strlit(".y");
    assert("0_2V5_1"@ =~= "0_2V5_"@ + text::nat_text(1));
    assert("p1_0_2V5_1.y"@ =~= "p1_"@ + "0_2V5_1"@ + ".y"@);
}

proof fn lemma_signal_11()
    ensures
        "0_15V_0"@ == "0_15V_"@ + text::nat_text(0),
        "p1_0_15V_0.y"@ == "p1_"@ + "0_15V_0"@ + ".y"@,
{
    reveal_strlit("0_15V_0");
    reveal_strlit("0_15V_");
    reveal_strlit("p1_0_15V_0.y");
    reveal_strlit("p1_");
    reveal_strlit(".y");
    assert("0_15V_0"@ =~= "0_15V_"@ + text::nat_text(0));
    assert("p1_0_15V_0.y"@ =~= "p1_"@ + "0_15V_0"@ + ".y"@);
}

proof fn lemma_signal_12()
    ensures
        "0_15V_1"@ == "0_15V_"@ + text::nat_text(1),
        "p1_0_15V_1.y"@ == "p1_"@ + "0_15V_1"@ + ".y"@,
{
    reveal_strlit("0_15V_1");
    reveal_strlit("0_15V_");
    reveal_strlit("p1_0_15V_1.y");
    reveal_strlit("p1_");
    reveal_strlit(".y");
    assert("0_15V_1"@ =~= "0_15V_"@ + text::nat_text(1));
    assert("p1_0_15V_1.y"@ =~= "p1_"@ + "0_15V_1"@ + ".y"@);
}

proof fn lemma_signal_13()
    ensures
        "x26_0"@ == "x26_"@ + text::nat_text(0),
        "p1_x26_0.y"@ == "p1_"@ + "x26_0"@ + ".y"@,
{
    reveal_strlit("x26_0");
    reveal_strlit("x26_");
    reveal_strlit("p1_x26_0.y");
    reveal_strlit("p1_");
    reveal_strlit(".y");
    assert("x26_0"@ =~= "x26_"@ + text::nat_text(0));
    assert("p1_x26_0.y"@ =~= "p1_"@ + "x26_0"@ + ".y"@);
}

proof fn lemma_signal_14()
    ensures
        "x26_1"@ == "x26_"@ + text::nat_text(1),
        "p1_x26_1.y"@ == "p1_"@ + "x26_1"@ + ".y"@,
{
    reveal_strlit("x26_1");
    reveal_strlit("x26_");
    reveal_strlit("p1_x26_1.y");
    reveal_strlit("p1_");
    reveal_strlit(".y");
    assert("x26_1"@ =~= "x26_"@ + text::nat_text(1));
    assert("p1_x26_1.y"@ =~= "p1_"@ + "x26_1"@ + ".y"@);
}

/// The axes of a channel show one unit: milliampere, kelvin or volt for the values,
/// the references and their errors, and volt on both sides of the fit. Only the
/// residuals of currents are shown in another unit, in microampere.
pub proof fn law_axes_show_one_unit(kind: CalibrationKind)
    ensures
        ({
            let unit = match kind {
                CalibrationKind::Current4To20 => "(mA)"@,
                CalibrationKind::Rtd => "(K)"@,
                CalibrationKind::Thermocouple => "(K)"@,
                CalibrationKind::Voltage => "(V)"@,
            };
            &&& text::ends_with(value_axis_label_of(kind), unit)
            &&& text::ends_with(reference_axis_label_of(kind), unit)
            &&& text::ends_with(error_axis_label_of(kind), unit)
            &&& text::ends_with(fit_x_axis_label_of(kind), "(V)"@)
            &&& text::ends_with(fit_y_axis_label_of(kind), "(V)"@)
            &&& text::ends_with(
                residual_axis_label_of(kind),
                if kind == CalibrationKind::Current4To20 {
                    "(uA)"@
                } else {
                    unit
                },
            )
            &&& fit_units_of(kind) == "V"@
        }),
{
    reveal_strlit("(K)");
    reveal_strlit("(V)");
    reveal_strlit("(mA)");
    reveal_strlit("(uA)");
    match kind {
        CalibrationKind::Current4To20 => {
            reveal_strlit("Current (mA)");
            assert("Current (mA)"@.skip(8) =~= "(mA)"@);
            reveal_strlit("Reference current (mA)");
            assert("Reference current (mA)"@.skip(18) =~= "(mA)"@);
            reveal_strlit("Error (mA)");
            assert("Error (mA)"@.skip(6) =~= "(mA)"@);
            reveal_strlit("Measured voltage (V)");
            assert("Measured voltage (V)"@.skip(17) =~= "(V)"@);
            reveal_strlit("Expected voltage (V)");
            assert("Expected voltage (V)"@.skip(17) =~= "(V)"@);
            reveal_strlit("Estimated current residual (uA)");
            assert("Estimated current residual (uA)"@.skip(27) =~= "(uA)"@);
        },
        CalibrationKind::Rtd => {
            reveal_strlit("Temperature (K)");
            assert("Temperature (K)"@.skip(12) =~= "(K)"@);
            reveal_strlit("Reference temperature (K)");
            assert("Reference temperature (K)"@.skip(22) =~= "(K)"@);
            reveal_strlit("Error (K)");
            assert("Error (K)"@.skip(6) =~= "(K)"@);
            reveal_strlit("Measured RTD voltage (V)");
            assert("Measured RTD voltage (V)"@.skip(21) =~= "(V)"@);
            reveal_strlit("Corrected RTD voltage (V)");
            assert("Corrected RTD voltage (V)"@.skip(22) =~= "(V)"@);
            reveal_strlit("Temperature residual (K)");
            assert("Temperature residual (K)"@.skip(21) =~= "(K)"@);
        },
        CalibrationKind::Thermocouple => {
            reveal_strlit("Adjusted temperature (K)");
            assert("Adjusted temperature (K)"@.skip(21) =~= "(K)"@);
            reveal_strlit("Reference temperature (K)");
            assert("Reference temperature (K)"@.skip(22) =~= "(K)"@);
            reveal_strlit("Error (K)");
            assert("Error (K)"@.skip(6) =~= "(K)"@);
            reveal_strlit("Measured thermocouple voltage (V)");
            assert("Measured thermocouple voltage (V)"@.skip(30) =~= "(V)"@);
            reveal_strlit("Corrected thermocouple voltage (V)");
            assert("Corrected thermocouple voltage (V)"@.skip(31) =~= "(V)"@);
            reveal_strlit("Temperature residual (K)");
            assert("Temperature residual (K)"@.skip(21) =~= "(K)"@);
        },
        CalibrationKind::Voltage => {
            reveal_strlit("Voltage (V)");
            assert("Voltage (V)"@.skip(8) =~= "(V)"@);
            reveal_strlit("Reference voltage (V)");
            assert("Reference voltage (V)"@.skip(18) =~= "(V)"@);
            reveal_strlit("Error (V)");
            assert("Error (V)"@.skip(6) =~= "(V)"@);
            reveal_strlit("Measured voltage (V)");
            assert("Measured voltage (V)"@.skip(17) =~= "(V)"@);
            reveal_strlit("Expected voltage (V)");
            assert("Expected voltage (V)"@.skip(17) =~= "(V)"@);
            reveal_strlit("Voltage residual (V)");
            assert("Voltage residual (V)"@.skip(17) =~= "(V)"@);
        },
    }
}

/// The voltage signal of a thermocouple channel is named for the channel's slug. Other
/// channels have none.
pub proof fn law_voltage_signals_are_named_for_their_channels(i: int)
    requires
        0 <= i < channel_table().len(),
    ensures
        ({
            let channel = channel_table()[i];
            &&& channel.voltage_signal() is Some <==> channel.kind == CalibrationKind::Thermocouple
            &&& channel.voltage_signal() matches Some(name) ==> name == "p1_"@ + channel.slug@
                + "_V.y"@
        }),
{
    reveal_strlit("p1_");
    reveal_strlit("_V.y");
    reveal_strlit("p1_tc_0_V.y");
    reveal_strlit("p1_tc_1_V.y");
    reveal_strlit("tc_0");
    reveal_strlit("tc_1");
    assert("p1_tc_0_V.y"@ =~= "p1_"@ + "tc_0"@ + "_V.y"@);
    assert("p1_tc_1_V.y"@ =~= "p1_"@ + "tc_1"@ + "_V.y"@);
    law_signals_are_named_for_their_channels(i);
    let channel = channel_table()[i];
    reveal_strlit("4_20_mA_");
    reveal_strlit("rtd_");
    reveal_strlit("0_2V5_");
    reveal_strlit("0_15V_");
    reveal_strlit("x26_");
    if channel.kind != CalibrationKind::Thermocouple {
        assert(channel.slug@[0] != 't');
        assert("tc_0"@[0] == 't' && "tc_1"@[0] == 't');
    }
}

} // verus!
