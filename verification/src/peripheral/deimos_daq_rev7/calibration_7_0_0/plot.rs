//! The HTML page with the plots of a calibration run.

use vstd::prelude::*;
use crate::json;
use crate::json::json_quoted;
use crate::text;
use crate::text::{html_escape, push_nat};
use super::capture::MODEL_NAME;
use super::channels;
use super::channels::{CalibrationChannel, CalibrationKind};

verus! {

/// The colours of a plot page.
#[derive(Debug, Clone, Copy, PartialEq, Eq, Structural)]
pub enum PlotTheme {
    Light,
    Dark,
}

impl PlotTheme {
    /// The theme in file names.
    pub open spec fn file_suffix_text(self) -> Seq<char> {
        match self {
            PlotTheme::Light => "light"@,
            PlotTheme::Dark => "dark"@,
        }
    }

    /// The theme in file names.
    pub fn file_suffix(self) -> (r: &'static str)
        ensures
            r@ == self.file_suffix_text(),
    {
        match self {
            PlotTheme::Light => "light",
            PlotTheme::Dark => "dark",
        }
    }

    /// Background of the page.
    pub open spec fn page_background_text(self) -> Seq<char> {
        match self {
            PlotTheme::Light => "radial-gradient(circle at top left, rgba(130, 50, 186, 0.16), transparent 32%), linear-gradient(180deg, #ffffff 0%, #f6f7fb 100%)"@,
            PlotTheme::Dark => "radial-gradient(circle at top left, rgba(172, 55, 255, 0.24), transparent 30%), linear-gradient(180deg, #242833 0%, #1e2129 100%)"@,
        }
    }

    /// Background of the page.
    pub fn page_background(self) -> (r: &'static str)
        ensures
            r@ == self.page_background_text(),
    {
        match self {
            PlotTheme::Light => "radial-gradient(circle at top left, rgba(130, 50, 186, 0.16), transparent 32%), linear-gradient(180deg, #ffffff 0%, #f6f7fb 100%)",
            PlotTheme::Dark => "radial-gradient(circle at top left, rgba(172, 55, 255, 0.24), transparent 30%), linear-gradient(180deg, #242833 0%, #1e2129 100%)",
        }
    }

    /// Background of the plots.
    pub open spec fn plot_background_text(self) -> Seq<char> {
        match self {
            PlotTheme::Light => "#ffffff"@,
            PlotTheme::Dark => "#2b2f3a"@,
        }
    }

    /// Background of the plots.
    pub fn plot_background(self) -> (r: &'static str)
        ensures
            r@ == self.plot_background_text(),
    {
        match self {
            PlotTheme::Light => "#ffffff",
            PlotTheme::Dark => "#2b2f3a",
        }
    }

    /// Colour of the text.
    pub open spec fn text_color_text(self) -> Seq<char> {
        match self {
            PlotTheme::Light => "#171922"@,
            PlotTheme::Dark => "#f2f0f6"@,
        }
    }

    /// Colour of the text.
    pub fn text_color(self) -> (r: &'static str)
        ensures
            r@ == self.text_color_text(),
    {
        match self {
            PlotTheme::Light => "#171922",
            PlotTheme::Dark => "#f2f0f6",
        }
    }

    /// Colour of grid lines and axes.
    pub open spec fn grid_color_text(self) -> Seq<char> {
        match self {
            PlotTheme::Light => "#d8deea"@,
            PlotTheme::Dark => "#47404f"@,
        }
    }

    /// Colour of grid lines and axes.
    pub fn grid_color(self) -> (r: &'static str)
        ensures
            r@ == self.grid_color_text(),
    {
        match self {
            PlotTheme::Light => "#d8deea",
            PlotTheme::Dark => "#47404f",
        }
    }

    /// Colour of traces.
    pub open spec fn trace_color_text(self) -> Seq<char> {
        match self {
            PlotTheme::Light => "#000000"@,
            PlotTheme::Dark => "#f2f0f6"@,
        }
    }

    /// Colour of traces.
    pub fn trace_color(self) -> (r: &'static str)
        ensures
            r@ == self.trace_color_text(),
    {
        match self {
            PlotTheme::Light => "#000000",
            PlotTheme::Dark => "#f2f0f6",
        }
    }

    /// Fill of the box plots.
    pub open spec fn box_fill_color_text(self) -> Seq<char> {
        match self {
            PlotTheme::Light => "rgba(0, 0, 0, 0.08)"@,
            PlotTheme::Dark => "rgba(242, 240, 246, 0.10)"@,
        }
    }

    /// Fill of the box plots.
    pub fn box_fill_color(self) -> (r: &'static str)
        ensures
            r@ == self.box_fill_color_text(),
    {
        match self {
            PlotTheme::Light => "rgba(0, 0, 0, 0.08)",
            PlotTheme::Dark => "rgba(242, 240, 246, 0.10)",
        }
    }

    /// Fill of the accepted regions.
    pub open spec fn accepted_fill_color_text(self) -> Seq<char> {
        match self {
            PlotTheme::Light => "rgba(130, 50, 186, 0.11)"@,
            PlotTheme::Dark => "rgba(172, 55, 255, 0.18)"@,
        }
    }

    /// Fill of the accepted regions.
    pub fn accepted_fill_color(self) -> (r: &'static str)
        ensures
            r@ == self.accepted_fill_color_text(),
    {
        match self {
            PlotTheme::Light => "rgba(130, 50, 186, 0.11)",
            PlotTheme::Dark => "rgba(172, 55, 255, 0.18)",
        }
    }

    /// Fill of the accuracy bands.
    pub open spec fn accuracy_fill_color_text(self) -> Seq<char> {
        match self {
            PlotTheme::Light => "rgba(130, 50, 186, 0.14)"@,
            PlotTheme::Dark => "rgba(172, 55, 255, 0.20)"@,
        }
    }

    /// Fill of the accuracy bands.
    pub fn accuracy_fill_color(self) -> (r: &'static str)
        ensures
            r@ == self.accuracy_fill_color_text(),
    {
        match self {
            PlotTheme::Light => "rgba(130, 50, 186, 0.14)",
            PlotTheme::Dark => "rgba(172, 55, 255, 0.20)",
        }
    }
}

/// The plotted series, each as JSON text.
#[derive(Debug)]
pub struct PlotData {
    pub raw_time_s: String,
    pub raw_measured_ma: String,
    pub accepted_reference_display: String,
    pub reference_step_time_s: String,
    pub reference_step_ma: String,
    pub error_plot_y: String,
    pub error_accuracy_x: String,
    pub error_accuracy_y: String,
    pub error_y_axis_range: String,
    pub accepted_shapes: String,
    pub fit_measured_x: String,
    pub fit_expected_y: String,
    pub fit_line_x: String,
    pub fit_line_y: String,
    pub residual_accuracy_x: String,
    pub residual_accuracy_y: String,
    pub residual_y_axis_range: String,
    pub fit_residual_reference: String,
    pub fit_residual_y: String,
}

/// An optional text.
pub open spec fn option_text(s: Option<&str>) -> Option<Seq<char>> {
    match s {
        Some(s) => Some(s@),
        None => None,
    }
}

/// The note on the cold junction, where there is one.
pub open spec fn note_text(label: Option<Seq<char>>) -> Seq<char> {
    match label {
        Some(label) => "<p class=\"plot-note\">"@ + text::html_text(label) + "</p>"@,
        None => Seq::empty(),
    }
}

fn cold_junction_note(label: Option<&str>) -> (s: String)
    ensures
        s@ == note_text(option_text(label)),
{
    match label {
        Some(label) => {
            let mut s = "<p class=\"plot-note\">".to_owned();
            s.push_str(html_escape(label).as_str());
            s.push_str("</p>");
            s
        },
        None => String::new(),
    }
}

/// Name of the residual trace.
pub open spec fn residual_trace(kind: CalibrationKind) -> Seq<char> {
    match kind {
        CalibrationKind::Current4To20 => "Fit residual as current"@,
        CalibrationKind::Rtd => "Propagated temperature residual"@,
        CalibrationKind::Thermocouple => "Propagated temperature residual"@,
        CalibrationKind::Voltage => "Voltage fit residual"@,
    }
}

/// Name of the residual trace.
pub fn residual_trace_name(kind: CalibrationKind) -> (r: &'static str)
    ensures
        r@ == residual_trace(kind),
{
    match kind {
        CalibrationKind::Current4To20 => "Fit residual as current",
        CalibrationKind::Rtd => "Propagated temperature residual",
        CalibrationKind::Thermocouple => "Propagated temperature residual",
        CalibrationKind::Voltage => "Voltage fit residual",
    }
}

pub const PAGE_HEAD_1: &'static str = r#"<!doctype html>
<html lang="en">
<head>
    <meta charset="utf-8" />
    <title>"#;

pub const PAGE_HEAD_2: &'static str = r#"</title>
    <script src="https://cdn.plot.ly/plotly-3.0.1.min.js"></script>
    <style>
        html, body {
            margin: 0;
            background: "#;

pub const PAGE_HEAD_3: &'static str = ";
            color: ";

pub const PAGE_HEAD_4: &'static str = r#";
            font-family: system-ui, -apple-system, BlinkMacSystemFont, "Segoe UI", sans-serif;
        }
        main {
            box-sizing: border-box;
            width: min(1280px, 100vw);
            margin: 0 auto;
            padding: 20px;
        }
        h1 {
            margin: 0 0 16px;
            font-size: 22px;
            font-weight: 650;
        }
        .plot {
            width: 100%;
            height: 460px;
            margin-bottom: 24px;
        }
        .plot-heading {
            margin: 8px 0 8px;
            font-size: 16px;
            font-weight: 650;
            color: "#;

pub const PAGE_HEAD_5: &'static str = ";
        }
        .plot-note {
            margin: -2px 0 8px;
            font-size: 14px;
            color: ";

pub const PAGE_HEAD_6: &'static str = ";
        }
    </style>
</head>
<body>
<main>
    <h1>";

pub const PAGE_HEAD_7: &'static str = r#"</h1>
    <div id="time-overlay" class="plot"></div>
    <div id="relative-error" class="plot"></div>
    <h2 class="plot-heading">"#;

pub const PAGE_HEAD_8: &'static str = "</h2>
    ";

pub const PAGE_HEAD_9: &'static str = r#"
    <div id="voltage-fit" class="plot"></div>
    <div id="voltage-fit-residual" class="plot"></div>
</main>
<script>
"#;

/// The page up to its script: style sheet, headings and plot areas.
pub open spec fn page_head_text(theme: PlotTheme, title: Seq<char>, fit_label: Seq<char>, cold_junction: Option<Seq<char>>) -> Seq<char> {
    PAGE_HEAD_1@
        + text::html_text(title)
        + PAGE_HEAD_2@
        + theme.page_background_text()
        + PAGE_HEAD_3@
        + theme.text_color_text()
        + PAGE_HEAD_4@
        + theme.text_color_text()
        + PAGE_HEAD_5@
        + theme.text_color_text()
        + PAGE_HEAD_6@
        + text::html_text(title)
        + PAGE_HEAD_7@
        + text::html_text(fit_label)
        + PAGE_HEAD_8@
        + note_text(cold_junction)
        + PAGE_HEAD_9@
}

/// The page up to its script: style sheet, headings and plot areas.
fn page_head(theme: PlotTheme, title: &str, fit_label: &str, cold_junction: Option<&str>) -> (s: String)
    ensures
        s@ == page_head_text(theme, title@, fit_label@, option_text(cold_junction)),
{
    let mut s = PAGE_HEAD_1.to_owned();
    s.push_str(html_escape(title).as_str());
    s.push_str(PAGE_HEAD_2);
    s.push_str(theme.page_background());
    s.push_str(PAGE_HEAD_3);
    s.push_str(theme.text_color());
    s.push_str(PAGE_HEAD_4);
    s.push_str(theme.text_color());
    s.push_str(PAGE_HEAD_5);
    s.push_str(theme.text_color());
    s.push_str(PAGE_HEAD_6);
    s.push_str(html_escape(title).as_str());
    s.push_str(PAGE_HEAD_7);
    s.push_str(html_escape(fit_label).as_str());
    s.push_str(PAGE_HEAD_8);
    s.push_str(cold_junction_note(cold_junction).as_str());
    s.push_str(PAGE_HEAD_9);
    s
}

pub const PLOT_DATA_1: &'static str = "const rawTimeS = ";

pub const PLOT_DATA_2: &'static str = ";
const rawMeasuredMA = ";

pub const PLOT_DATA_3: &'static str = ";
const acceptedReference = ";

pub const PLOT_DATA_4: &'static str = ";
const referenceStepTimeS = ";

pub const PLOT_DATA_5: &'static str = ";
const referenceStepMA = ";

pub const PLOT_DATA_6: &'static str = ";
const errorPlotY = ";

pub const PLOT_DATA_7: &'static str = ";
const errorAccuracyX = ";

pub const PLOT_DATA_8: &'static str = ";
const errorAccuracyY = ";

pub const PLOT_DATA_9: &'static str = ";
const errorYAxisRange = ";

pub const PLOT_DATA_10: &'static str = ";
const acceptedShapes = ";

pub const PLOT_DATA_11: &'static str = ";
const fitMeasuredX = ";

pub const PLOT_DATA_12: &'static str = ";
const fitExpectedY = ";

pub const PLOT_DATA_13: &'static str = ";
const fitLineX = ";

pub const PLOT_DATA_14: &'static str = ";
const fitLineY = ";

pub const PLOT_DATA_15: &'static str = ";
const residualAccuracyX = ";

pub const PLOT_DATA_16: &'static str = ";
const residualAccuracyY = ";

pub const PLOT_DATA_17: &'static str = ";
const residualYAxisRange = ";

pub const PLOT_DATA_18: &'static str = ";
const fitResidualReference = ";

pub const PLOT_DATA_19: &'static str = ";
const fitResidualY = ";

pub const PLOT_DATA_20: &'static str = ";
const voltageFitLabel = ";

pub const PLOT_DATA_21: &'static str = ";
const textColor = ";

pub const PLOT_DATA_22: &'static str = ";
const traceColor = ";

pub const PLOT_DATA_23: &'static str = ";
const plotBackground = ";

pub const PLOT_DATA_24: &'static str = ";
const gridColor = ";

pub const PLOT_DATA_25: &'static str = ";
const boxFillColor = ";

pub const PLOT_DATA_26: &'static str = ";
const accuracyFillColor = ";

pub const PLOT_DATA_27: &'static str = ";

";

/// The data that the plots share.
pub open spec fn plot_data_text(theme: PlotTheme, fit_label: Seq<char>, data: PlotData) -> Seq<char> {
    PLOT_DATA_1@
        + data.raw_time_s@
        + PLOT_DATA_2@
        + data.raw_measured_ma@
        + PLOT_DATA_3@
        + data.accepted_reference_display@
        + PLOT_DATA_4@
        + data.reference_step_time_s@
        + PLOT_DATA_5@
        + data.reference_step_ma@
        + PLOT_DATA_6@
        + data.error_plot_y@
        + PLOT_DATA_7@
        + data.error_accuracy_x@
        + PLOT_DATA_8@
        + data.error_accuracy_y@
        + PLOT_DATA_9@
        + data.error_y_axis_range@
        + PLOT_DATA_10@
        + data.accepted_shapes@
        + PLOT_DATA_11@
        + data.fit_measured_x@
        + PLOT_DATA_12@
        + data.fit_expected_y@
        + PLOT_DATA_13@
        + data.fit_line_x@
        + PLOT_DATA_14@
        + data.fit_line_y@
        + PLOT_DATA_15@
        + data.residual_accuracy_x@
        + PLOT_DATA_16@
        + data.residual_accuracy_y@
        + PLOT_DATA_17@
        + data.residual_y_axis_range@
        + PLOT_DATA_18@
        + data.fit_residual_reference@
        + PLOT_DATA_19@
        + data.fit_residual_y@
        + PLOT_DATA_20@
        + json::json_text(fit_label)
        + PLOT_DATA_21@
        + json::json_text(theme.text_color_text())
        + PLOT_DATA_22@
        + json::json_text(theme.trace_color_text())
        + PLOT_DATA_23@
        + json::json_text(theme.plot_background_text())
        + PLOT_DATA_24@
        + json::json_text(theme.grid_color_text())
        + PLOT_DATA_25@
        + json::json_text(theme.box_fill_color_text())
        + PLOT_DATA_26@
        + json::json_text(theme.accuracy_fill_color_text())
        + PLOT_DATA_27@
}

/// The data that the plots share.
fn plot_data(theme: PlotTheme, fit_label: &str, data: &PlotData) -> (s: String)
    ensures
        s@ == plot_data_text(theme, fit_label@, *data),
{
    let mut s = PLOT_DATA_1.to_owned();
    s.push_str(data.raw_time_s.as_str());
    s.push_str(PLOT_DATA_2);
    s.push_str(data.raw_measured_ma.as_str());
    s.push_str(PLOT_DATA_3);
    s.push_str(data.accepted_reference_display.as_str());
    s.push_str(PLOT_DATA_4);
    s.push_str(data.reference_step_time_s.as_str());
    s.push_str(PLOT_DATA_5);
    s.push_str(data.reference_step_ma.as_str());
    s.push_str(PLOT_DATA_6);
    s.push_str(data.error_plot_y.as_str());
    s.push_str(PLOT_DATA_7);
    s.push_str(data.error_accuracy_x.as_str());
    s.push_str(PLOT_DATA_8);
    s.push_str(data.error_accuracy_y.as_str());
    s.push_str(PLOT_DATA_9);
    s.push_str(data.error_y_axis_range.as_str());
    s.push_str(PLOT_DATA_10);
    s.push_str(data.accepted_shapes.as_str());
    s.push_str(PLOT_DATA_11);
    s.push_str(data.fit_measured_x.as_str());
    s.push_str(PLOT_DATA_12);
    s.push_str(data.fit_expected_y.as_str());
    s.push_str(PLOT_DATA_13);
    s.push_str(data.fit_line_x.as_str());
    s.push_str(PLOT_DATA_14);
    s.push_str(data.fit_line_y.as_str());
    s.push_str(PLOT_DATA_15);
    s.push_str(data.residual_accuracy_x.as_str());
    s.push_str(PLOT_DATA_16);
    s.push_str(data.residual_accuracy_y.as_str());
    s.push_str(PLOT_DATA_17);
    s.push_str(data.residual_y_axis_range.as_str());
    s.push_str(PLOT_DATA_18);
    s.push_str(data.fit_residual_reference.as_str());
    s.push_str(PLOT_DATA_19);
    s.push_str(data.fit_residual_y.as_str());
    s.push_str(PLOT_DATA_20);
    s.push_str(json_quoted(fit_label).as_str());
    s.push_str(PLOT_DATA_21);
    s.push_str(json_quoted(theme.text_color()).as_str());
    s.push_str(PLOT_DATA_22);
    s.push_str(json_quoted(theme.trace_color()).as_str());
    s.push_str(PLOT_DATA_23);
    s.push_str(json_quoted(theme.plot_background()).as_str());
    s.push_str(PLOT_DATA_24);
    s.push_str(json_quoted(theme.grid_color()).as_str());
    s.push_str(PLOT_DATA_25);
    s.push_str(json_quoted(theme.box_fill_color()).as_str());
    s.push_str(PLOT_DATA_26);
    s.push_str(json_quoted(theme.accuracy_fill_color()).as_str());
    s.push_str(PLOT_DATA_27);
    s
}

pub const TIME_OVERLAY_PLOT_1: &'static str = r#"const baseLayout = {
    paper_bgcolor: plotBackground,
    plot_bgcolor: plotBackground,
    font: { color: textColor },
    legend: { font: { color: textColor } }
};

function themedLayout(layout) {
    return {
        ...baseLayout,
        ...layout,
        xaxis: {
            gridcolor: gridColor,
            zerolinecolor: gridColor,
            linecolor: gridColor,
            tickcolor: gridColor,
            ...layout.xaxis
        },
        yaxis: {
            gridcolor: gridColor,
            zerolinecolor: gridColor,
            linecolor: gridColor,
            tickcolor: gridColor,
            ...layout.yaxis
        }
    };
}

Plotly.newPlot("time-overlay", [
    {
        x: rawTimeS,
        y: rawMeasuredMA,
        mode: "lines",
        type: "scatter",
        name: "Measured",
        line: { width: 1, color: traceColor }
    },
    {
        x: referenceStepTimeS,
        y: referenceStepMA,
        mode: "lines",
        type: "scatter",
        name: "Detected reference step",
        connectgaps: false,
        line: { width: 2, color: traceColor, dash: "dash" }
    }
], themedLayout({
    title: { text: "Detected steps and accepted calibration regions" },
    xaxis: { title: { text: "Time (s)", standoff: 16 }, automargin: true },
    yaxis: { title: { text: "#;

pub const TIME_OVERLAY_PLOT_2: &'static str = ", standoff: 18 }, automargin: true },
    shapes: acceptedShapes,
    margin: { l: 88, r: 24, t: 64, b: 78 }
}), { responsive: true });

";

/// The common layout and the plot of the recording.
pub open spec fn time_overlay_plot_text(channel: CalibrationChannel) -> Seq<char> {
    TIME_OVERLAY_PLOT_1@
        + json::json_text(channels::value_axis_label_of(channel.kind))
        + TIME_OVERLAY_PLOT_2@
}

/// The common layout and the plot of the recording.
fn time_overlay_plot(channel: CalibrationChannel) -> (s: String)
    ensures
        s@ == time_overlay_plot_text(channel),
{
    let mut s = TIME_OVERLAY_PLOT_1.to_owned();
    s.push_str(json_quoted(channel.value_axis_label()).as_str());
    s.push_str(TIME_OVERLAY_PLOT_2);
    s
}

pub const ERROR_PLOT_1: &'static str = r#"Plotly.newPlot("relative-error", [
    {
        x: errorAccuracyX,
        y: errorAccuracyY,
        mode: "lines",
        type: "scatter",
        fill: "toself",
        name: "#;

pub const ERROR_PLOT_2: &'static str = r#",
        line: { width: 0, color: accuracyFillColor },
        fillcolor: accuracyFillColor,
        hoverinfo: "skip"
    },
    {
        x: acceptedReference,
        y: errorPlotY,
        type: "box",
        name: "Error distribution",
        boxpoints: false,
        boxmean: "sd",
        line: { width: 2, color: traceColor },
        fillcolor: boxFillColor,
        marker: { color: traceColor }
    },
    {
        x: acceptedReference,
        y: errorPlotY,
        mode: "markers",
        type: "scatter",
        name: "Accepted samples",
        marker: { size: 4, color: traceColor }
    }
], themedLayout({
    title: { text: "#;

pub const ERROR_PLOT_3: &'static str = " },
    xaxis: { title: { text: ";

pub const ERROR_PLOT_4: &'static str = ", standoff: 16 }, automargin: true },
    yaxis: { title: { text: ";

pub const ERROR_PLOT_5: &'static str = r#", standoff: 18 }, range: errorYAxisRange, automargin: true },
    boxmode: "group",
    margin: { l: 88, r: 24, t: 64, b: 78 }
}), { responsive: true });

"#;

/// The plot of the errors.
pub open spec fn error_plot_text(channel: CalibrationChannel) -> Seq<char> {
    ERROR_PLOT_1@
        + json::json_text(channels::error_accuracy_label_of(channel.kind))
        + ERROR_PLOT_2@
        + json::json_text(channels::error_plot_title_of(channel.kind))
        + ERROR_PLOT_3@
        + json::json_text(channels::reference_axis_label_of(channel.kind))
        + ERROR_PLOT_4@
        + json::json_text(channels::error_axis_label_of(channel.kind))
        + ERROR_PLOT_5@
}

/// The plot of the errors.
fn error_plot(channel: CalibrationChannel) -> (s: String)
    ensures
        s@ == error_plot_text(channel),
{
    let mut s = ERROR_PLOT_1.to_owned();
    s.push_str(json_quoted(channel.error_accuracy_label()).as_str());
    s.push_str(ERROR_PLOT_2);
    s.push_str(json_quoted(channel.error_plot_title()).as_str());
    s.push_str(ERROR_PLOT_3);
    s.push_str(json_quoted(channel.reference_axis_label()).as_str());
    s.push_str(ERROR_PLOT_4);
    s.push_str(json_quoted(channel.error_axis_label()).as_str());
    s.push_str(ERROR_PLOT_5);
    s
}

pub const FIT_PLOT_1: &'static str = r#"Plotly.newPlot("voltage-fit", [
    {
        x: fitMeasuredX,
        y: fitExpectedY,
        mode: "markers",
        type: "scatter",
        name: "Accepted calibration samples",
        marker: { size: 5, color: traceColor }
    },
    {
        x: fitLineX,
        y: fitLineY,
        mode: "lines",
        type: "scatter",
        name: "Linear fit",
        line: { width: 2, color: traceColor }
    }
], themedLayout({
    title: { text: "#;

pub const FIT_PLOT_2: &'static str = " },
    xaxis: { title: { text: ";

pub const FIT_PLOT_3: &'static str = ", standoff: 16 }, automargin: true },
    yaxis: { title: { text: ";

pub const FIT_PLOT_4: &'static str = ", standoff: 18 }, automargin: true },
    margin: { l: 88, r: 24, t: 100, b: 78 }
}), { responsive: true });

";

/// The plot of the fit.
pub open spec fn fit_plot_text(channel: CalibrationChannel) -> Seq<char> {
    FIT_PLOT_1@
        + json::json_text(channels::fit_plot_title_of(channel.kind))
        + FIT_PLOT_2@
        + json::json_text(channels::fit_x_axis_label_of(channel.kind))
        + FIT_PLOT_3@
        + json::json_text(channels::fit_y_axis_label_of(channel.kind))
        + FIT_PLOT_4@
}

/// The plot of the fit.
fn fit_plot(channel: CalibrationChannel) -> (s: String)
    ensures
        s@ == fit_plot_text(channel),
{
    let mut s = FIT_PLOT_1.to_owned();
    s.push_str(json_quoted(channel.fit_plot_title()).as_str());
    s.push_str(FIT_PLOT_2);
    s.push_str(json_quoted(channel.fit_x_axis_label()).as_str());
    s.push_str(FIT_PLOT_3);
    s.push_str(json_quoted(channel.fit_y_axis_label()).as_str());
    s.push_str(FIT_PLOT_4);
    s
}

pub const RESIDUAL_PLOT_1: &'static str = r#"Plotly.newPlot("voltage-fit-residual", [
    {
        x: residualAccuracyX,
        y: residualAccuracyY,
        mode: "lines",
        type: "scatter",
        fill: "toself",
        name: "#;

pub const RESIDUAL_PLOT_2: &'static str = r#",
        line: { width: 0, color: accuracyFillColor },
        fillcolor: accuracyFillColor,
        hoverinfo: "skip"
    },
    {
        x: fitResidualReference,
        y: fitResidualY,
        type: "box",
        name: "Residual distribution",
        boxpoints: false,
        boxmean: "sd",
        line: { width: 2, color: traceColor },
        fillcolor: boxFillColor,
        marker: { color: traceColor }
    },
    {
        x: fitResidualReference,
        y: fitResidualY,
        mode: "markers",
        type: "scatter",
        name: "#;

pub const RESIDUAL_PLOT_3: &'static str = ",
        marker: { size: 5, color: traceColor }
    }
], themedLayout({
    title: { text: ";

pub const RESIDUAL_PLOT_4: &'static str = " },
    xaxis: { title: { text: ";

pub const RESIDUAL_PLOT_5: &'static str = ", standoff: 16 }, automargin: true },
    yaxis: { title: { text: ";

pub const RESIDUAL_PLOT_6: &'static str = r#", standoff: 18 }, range: residualYAxisRange, automargin: true },
    boxmode: "group",
    margin: { l: 88, r: 24, t: 64, b: 78 }
}), { responsive: true });
</script>
</body>
</html>
"#;

/// The plot of the residuals and the end of the page.
pub open spec fn residual_plot_text(channel: CalibrationChannel) -> Seq<char> {
    RESIDUAL_PLOT_1@
        + json::json_text(channels::residual_accuracy_label_of(channel.kind))
        + RESIDUAL_PLOT_2@
        + json::json_text(residual_trace(channel.kind))
        + RESIDUAL_PLOT_3@
        + json::json_text(channels::residual_plot_title_of(channel.kind))
        + RESIDUAL_PLOT_4@
        + json::json_text(channels::residual_x_axis_label_of(channel.kind))
        + RESIDUAL_PLOT_5@
        + json::json_text(channels::residual_axis_label_of(channel.kind))
        + RESIDUAL_PLOT_6@
}

/// The plot of the residuals and the end of the page.
fn residual_plot(channel: CalibrationChannel) -> (s: String)
    ensures
        s@ == residual_plot_text(channel),
{
    let mut s = RESIDUAL_PLOT_1.to_owned();
    s.push_str(json_quoted(channel.residual_accuracy_label()).as_str());
    s.push_str(RESIDUAL_PLOT_2);
    s.push_str(json_quoted(residual_trace_name(channel.kind)).as_str());
    s.push_str(RESIDUAL_PLOT_3);
    s.push_str(json_quoted(channel.residual_plot_title()).as_str());
    s.push_str(RESIDUAL_PLOT_4);
    s.push_str(json_quoted(channel.residual_x_axis_label()).as_str());
    s.push_str(RESIDUAL_PLOT_5);
    s.push_str(json_quoted(channel.residual_axis_label()).as_str());
    s.push_str(RESIDUAL_PLOT_6);
    s
}

/// The title of a run's page.
pub open spec fn title_text(serial_number: u64, channel: CalibrationChannel) -> Seq<char> {
    MODEL_NAME@ + " SN"@ + text::nat_text(serial_number as nat) + " "@ + channel.slug@
        + " calibration"@
}

/// The title of a run's page.
pub fn plot_title(serial_number: u64, channel: CalibrationChannel) -> (s: String)
    ensures
        s@ == title_text(serial_number, channel),
{
    let mut s = MODEL_NAME.to_owned();
    s.push_str(" SN");
    push_nat(&mut s, serial_number as u128);
    s.push_str(" ");
    s.push_str(channel.slug);
    s.push_str(" calibration");
    s
}

/// The whole page.
pub open spec fn plot_page_text(
    serial_number: u64,
    channel: CalibrationChannel,
    theme: PlotTheme,
    fit_label: Seq<char>,
    cold_junction: Option<Seq<char>>,
    data: PlotData,
) -> Seq<char> {
    page_head_text(theme, title_text(serial_number, channel), fit_label, cold_junction)
        + plot_data_text(theme, fit_label, data) + time_overlay_plot_text(channel)
        + error_plot_text(channel) + fit_plot_text(channel) + residual_plot_text(channel)
}

/// Composes the page with the plots of a run in one theme.
pub fn write_analysis_plot(
    serial_number: u64,
    channel: CalibrationChannel,
    theme: PlotTheme,
    fit_label: &str,
    cold_junction: Option<&str>,
    data: &PlotData,
) -> (s: String)
    ensures
        s@ == plot_page_text(
            serial_number,
            channel,
            theme,
            fit_label@,
            option_text(cold_junction),
            *data,
        ),
{
    let title = plot_title(serial_number, channel);
    let mut s = page_head(theme, title.as_str(), fit_label, cold_junction);
    s.push_str(plot_data(theme, fit_label, data).as_str());
    s.push_str(time_overlay_plot(channel).as_str());
    s.push_str(error_plot(channel).as_str());
    s.push_str(fit_plot(channel).as_str());
    s.push_str(residual_plot(channel).as_str());
    s
}

/// Whether a value stands somewhere in a page, directly behind a name.
pub open spec fn shows(page: Seq<char>, name: Seq<char>, value: Seq<char>) -> bool {
    exists|front: Seq<char>, back: Seq<char>| page == #[trigger] (front + name + value + back)
}

proof fn lemma_shows(
    page: Seq<char>,
    front: Seq<char>,
    space: Seq<char>,
    name: Seq<char>,
    value: Seq<char>,
    back: Seq<char>,
)
    requires
        page == front + (space + name) + value + back,
    ensures
        shows(page, name, value),
{
    assert(page =~= (front + space) + name + value + back);
}

proof fn lemma_axes()
    ensures
        " },\n    xaxis: { title: { text: "@ == " },\n    "@ + "xaxis: { title: { text: "@,
        ", standoff: 16 }, automargin: true },\n    yaxis: { title: { text: "@
            == ", standoff: 16 }, automargin: true },\n    "@ + "yaxis: { title: { text: "@,
{
    reveal_strlit(" },\n    xaxis: { title: { text: ");
    reveal_strlit(" },\n    ");
    reveal_strlit("xaxis: { title: { text: ");
    reveal_strlit(", standoff: 16 }, automargin: true },\n    yaxis: { title: { text: ");
    reveal_strlit(", standoff: 16 }, automargin: true },\n    ");
    reveal_strlit("yaxis: { title: { text: ");
    assert(" },\n    xaxis: { title: { text: "@ =~= " },\n    "@ + "xaxis: { title: { text: "@);
    assert(", standoff: 16 }, automargin: true },\n    yaxis: { title: { text: "@
        =~= ", standoff: 16 }, automargin: true },\n    "@ + "yaxis: { title: { text: "@);
}

/// Each plot names its axes by what it shows: the errors over the references, the
/// fitted voltage over the measured one, and the residuals over the references.
pub proof fn law_plots_name_their_axes(channel: CalibrationChannel)
    ensures
        ({
            let kind = channel.kind;
            let x = "xaxis: { title: { text: "@;
            let y = "yaxis: { title: { text: "@;
            &&& shows(
                error_plot_text(channel),
                x,
                json::json_text(channels::reference_axis_label_of(kind)),
            )
            &&& shows(
                error_plot_text(channel),
                y,
                json::json_text(channels::error_axis_label_of(kind)),
            )
            &&& shows(
                fit_plot_text(channel),
                x,
                json::json_text(channels::fit_x_axis_label_of(kind)),
            )
            &&& shows(
                fit_plot_text(channel),
                y,
                json::json_text(channels::fit_y_axis_label_of(kind)),
            )
            &&& shows(
                residual_plot_text(channel),
                x,
                json::json_text(channels::reference_axis_label_of(kind)),
            )
            &&& shows(
                residual_plot_text(channel),
                y,
                json::json_text(channels::residual_axis_label_of(kind)),
            )
        }),
{
    lemma_axes();
    let kind = channel.kind;
    let sx = " },\n    "@;
    let nx = "xaxis: { title: { text: "@;
    let sy = ", standoff: 16 }, automargin: true },\n    "@;
    let ny = "yaxis: { title: { text: "@;
    let e1 = json::json_text(channels::reference_axis_label_of(kind));
    let e2 = json::json_text(channels::error_axis_label_of(kind));
    let e0 = ERROR_PLOT_1@ + json::json_text(channels::error_accuracy_label_of(kind))
        + ERROR_PLOT_2@ + json::json_text(channels::error_plot_title_of(kind));
    assert(error_plot_text(channel) =~= e0 + ERROR_PLOT_3@ + e1 + (ERROR_PLOT_4@ + e2
        + ERROR_PLOT_5@));
    lemma_shows(error_plot_text(channel), e0, sx, nx, e1, ERROR_PLOT_4@ + e2 + ERROR_PLOT_5@);
    lemma_shows(error_plot_text(channel), e0 + ERROR_PLOT_3@ + e1, sy, ny, e2, ERROR_PLOT_5@);
    let f1 = json::json_text(channels::fit_x_axis_label_of(kind));
    let f2 = json::json_text(channels::fit_y_axis_label_of(kind));
    let f0 = FIT_PLOT_1@ + json::json_text(channels::fit_plot_title_of(kind));
    assert(fit_plot_text(channel) =~= f0 + FIT_PLOT_2@ + f1 + (FIT_PLOT_3@ + f2 + FIT_PLOT_4@));
    lemma_shows(fit_plot_text(channel), f0, sx, nx, f1, FIT_PLOT_3@ + f2 + FIT_PLOT_4@);
    lemma_shows(fit_plot_text(channel), f0 + FIT_PLOT_2@ + f1, sy, ny, f2, FIT_PLOT_4@);
    let r1 = json::json_text(channels::residual_x_axis_label_of(kind));
    let r2 = json::json_text(channels::residual_axis_label_of(kind));
    let r0 = RESIDUAL_PLOT_1@ + json::json_text(channels::residual_accuracy_label_of(kind))
        + RESIDUAL_PLOT_2@ + json::json_text(residual_trace(kind)) + RESIDUAL_PLOT_3@
        + json::json_text(channels::residual_plot_title_of(kind));
    assert(residual_plot_text(channel) =~= r0 + RESIDUAL_PLOT_4@ + r1 + (RESIDUAL_PLOT_5@ + r2
        + RESIDUAL_PLOT_6@));
    lemma_shows(
        residual_plot_text(channel),
        r0,
        sx,
        nx,
        r1,
        RESIDUAL_PLOT_5@ + r2 + RESIDUAL_PLOT_6@,
    );
    lemma_shows(
        residual_plot_text(channel),
        r0 + RESIDUAL_PLOT_4@ + r1,
        sy,
        ny,
        r2,
        RESIDUAL_PLOT_6@,
    );
}

/// Each colour that the plots use is that of the theme.
pub proof fn law_plots_use_the_colours_of_the_theme(
    theme: PlotTheme,
    fit_label: Seq<char>,
    data: PlotData,
)
    ensures
        ({
            let page = plot_data_text(theme, fit_label, data);
            &&& shows(page, "const textColor = "@, json::json_text(theme.text_color_text()))
            &&& shows(page, "const traceColor = "@, json::json_text(theme.trace_color_text()))
            &&& shows(page, "const plotBackground = "@, json::json_text(theme.plot_background_text()))
            &&& shows(page, "const gridColor = "@, json::json_text(theme.grid_color_text()))
            &&& shows(page, "const boxFillColor = "@, json::json_text(theme.box_fill_color_text()))
            &&& shows(page, "const accuracyFillColor = "@, json::json_text(theme.accuracy_fill_color_text()))
            &&& shows(page, "const voltageFitLabel = "@, json::json_text(fit_label))
        }),
{
    let page = plot_data_text(theme, fit_label, data);
    let names = seq![
        "const voltageFitLabel = "@,
        "const textColor = "@,
        "const traceColor = "@,
        "const plotBackground = "@,
        "const gridColor = "@,
        "const boxFillColor = "@,
        "const accuracyFillColor = "@,
    ];
    let values = seq![
        json::json_text(fit_label),
        json::json_text(theme.text_color_text()),
        json::json_text(theme.trace_color_text()),
        json::json_text(theme.plot_background_text()),
        json::json_text(theme.grid_color_text()),
        json::json_text(theme.box_fill_color_text()),
        json::json_text(theme.accuracy_fill_color_text()),
    ];
    let front = plot_data_front(data);
    lemma_constants();
    reveal_with_fuel(constants, 8);
    assert(page == constants(front, names, values, 7) + PLOT_DATA_27@);
    lemma_constant(front, names, values, 7, 0, PLOT_DATA_27@);
    lemma_constant(front, names, values, 7, 1, PLOT_DATA_27@);
    lemma_constant(front, names, values, 7, 2, PLOT_DATA_27@);
    lemma_constant(front, names, values, 7, 3, PLOT_DATA_27@);
    lemma_constant(front, names, values, 7, 4, PLOT_DATA_27@);
    lemma_constant(front, names, values, 7, 5, PLOT_DATA_27@);
    lemma_constant(front, names, values, 7, 6, PLOT_DATA_27@);
}

/// A text followed by the first `n` of some names, each with its value behind it.
spec fn constants(
    front: Seq<char>,
    names: Seq<Seq<char>>,
    values: Seq<Seq<char>>,
    n: nat,
) -> Seq<char>
    decreases n,
{
    if n == 0 {
        front
    } else {
        constants(front, names, values, (n - 1) as nat) + (";\n"@ + names[n - 1]) + values[n - 1]
    }
}

proof fn lemma_constant(
    front: Seq<char>,
    names: Seq<Seq<char>>,
    values: Seq<Seq<char>>,
    n: nat,
    k: int,
    back: Seq<char>,
)
    requires
        0 <= k < n,
    ensures
        shows(constants(front, names, values, n) + back, names[k], values[k]),
    decreases n,
{
    let before = constants(front, names, values, (n - 1) as nat);
    let page = constants(front, names, values, n) + back;
    if k == n - 1 {
        lemma_shows(page, before, ";\n"@, names[k], values[k], back);
    } else {
        let more = (";\n"@ + names[n - 1]) + values[n - 1] + back;
        lemma_constant(front, names, values, (n - 1) as nat, k, more);
        assert(page =~= before + more);
    }
}

proof fn lemma_constants()
    ensures
        PLOT_DATA_20@ == ";\n"@ + "const voltageFitLabel = "@,
        PLOT_DATA_21@ == ";\n"@ + "const textColor = "@,
        PLOT_DATA_22@ == ";\n"@ + "const traceColor = "@,
        PLOT_DATA_23@ == ";\n"@ + "const plotBackground = "@,
        PLOT_DATA_24@ == ";\n"@ + "const gridColor = "@,
        PLOT_DATA_25@ == ";\n"@ + "const boxFillColor = "@,
        PLOT_DATA_26@ == ";\n"@ + "const accuracyFillColor = "@,
{
    reveal_strlit(";\n");
    reveal_strlit("const voltageFitLabel = ");
    reveal_strlit(";\nconst voltageFitLabel = ");
    assert(PLOT_DATA_20@ =~= ";\n"@ + "const voltageFitLabel = "@);
    reveal_strlit("const textColor = ");
    reveal_strlit(";\nconst textColor = ");
    assert(PLOT_DATA_21@ =~= ";\n"@ + "const textColor = "@);
    reveal_strlit("const traceColor = ");
    reveal_strlit(";\nconst traceColor = ");
    assert(PLOT_DATA_22@ =~= ";\n"@ + "const traceColor = "@);
    reveal_strlit("const plotBackground = ");
    reveal_strlit(";\nconst plotBackground = ");
    assert(PLOT_DATA_23@ =~= ";\n"@ + "const plotBackground = "@);
    reveal_strlit("const gridColor = ");
    reveal_strlit(";\nconst gridColor = ");
    assert(PLOT_DATA_24@ =~= ";\n"@ + "const gridColor = "@);
    reveal_strlit("const boxFillColor = ");
    reveal_strlit(";\nconst boxFillColor = ");
    assert(PLOT_DATA_25@ =~= ";\n"@ + "const boxFillColor = "@);
    reveal_strlit("const accuracyFillColor = ");
    reveal_strlit(";\nconst accuracyFillColor = ");
    assert(PLOT_DATA_26@ =~= ";\n"@ + "const accuracyFillColor = "@);
}

/// The data of a page before the label of the fit.
spec fn plot_data_front(data: PlotData) -> Seq<char> {
    PLOT_DATA_1@ + data.raw_time_s@
        + PLOT_DATA_2@ + data.raw_measured_ma@
        + PLOT_DATA_3@ + data.accepted_reference_display@
        + PLOT_DATA_4@ + data.reference_step_time_s@
        + PLOT_DATA_5@ + data.reference_step_ma@
        + PLOT_DATA_6@ + data.error_plot_y@
        + PLOT_DATA_7@ + data.error_accuracy_x@
        + PLOT_DATA_8@ + data.error_accuracy_y@
        + PLOT_DATA_9@ + data.error_y_axis_range@
        + PLOT_DATA_10@ + data.accepted_shapes@
        + PLOT_DATA_11@ + data.fit_measured_x@
        + PLOT_DATA_12@ + data.fit_expected_y@
        + PLOT_DATA_13@ + data.fit_line_x@
        + PLOT_DATA_14@ + data.fit_line_y@
        + PLOT_DATA_15@ + data.residual_accuracy_x@
        + PLOT_DATA_16@ + data.residual_accuracy_y@
        + PLOT_DATA_17@ + data.residual_y_axis_range@
        + PLOT_DATA_18@ + data.fit_residual_reference@
        + PLOT_DATA_19@ + data.fit_residual_y@
}

} // verus!
