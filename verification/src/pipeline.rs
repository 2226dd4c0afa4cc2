//! Which way a file is processed, given what its name, its contents and the
//! settings say.

use vstd::prelude::*;

verus! {

/// The point cloud formats that can be read and written.
#[derive(Clone, Copy, Debug, PartialEq, Eq, Structural)]
pub enum PointCloudFormat {
    /// LAS, and its compressed form LAZ.
    Las,
    /// ASTM E57.
    E57,
}

/// How points are thinned out.
#[derive(Clone, Copy, Debug, PartialEq, Eq, Structural)]
pub enum ThinningMethod {
    /// Every k-th row and every k-th column of the scanner's grid stays, and so do
    /// the grid and the panoramas.
    GridStride,
    /// One point stays in each cube of a three-dimensional grid.
    VoxelGrid,
}

/// The ways in which a file is processed.
#[derive(Clone, Copy, Debug, PartialEq, Eq, Structural)]
pub enum Pipeline {
    /// LAS in, LAS out, point by point.
    LasToLas,
    /// LAS in, one E57 point cloud out.
    LasToE57,
    /// E57 in and out, scan by scan, on the scanner's grid.
    StructuredE57,
    /// E57 in and out, all scans merged into one point cloud.
    UnstructuredE57,
    /// E57 in, LAS out, all scans merged.
    E57ToLas,
}

/// The format in which an input is read.
pub open spec fn read_format(
    detected: Option<PointCloudFormat>,
    opens_as_e57: bool,
) -> PointCloudFormat {
    match detected {
        Some(shown) => shown,
        None => if opens_as_e57 {
            PointCloudFormat::E57
        } else {
            PointCloudFormat::Las
        },
    }
}

/// The format in which an output is written.
pub open spec fn written_format(
    detected: Option<PointCloudFormat>,
    input: PointCloudFormat,
) -> PointCloudFormat {
    match detected {
        Some(shown) => shown,
        None => input,
    }
}

/// The format in which an input is read: the one its name shows, or else E57 if it
/// opens as such, or else LAS.
pub fn input_format(detected: Option<PointCloudFormat>, opens_as_e57: bool) -> (format:
    PointCloudFormat)
    ensures
        format == read_format(detected, opens_as_e57),
        format == match detected {
            Some(shown) => shown,
            None => if opens_as_e57 {
                PointCloudFormat::E57
            } else {
                PointCloudFormat::Las
            },
        },
{
    match detected {
        Some(shown) => shown,
        None => if opens_as_e57 {
            PointCloudFormat::E57
        } else {
            PointCloudFormat::Las
        },
    }
}

/// The format in which an output is written: the one its name shows, or else that of
/// the input.
pub fn output_format(detected: Option<PointCloudFormat>, input: PointCloudFormat) -> (format:
    PointCloudFormat)
    ensures
        format == written_format(detected, input),
        format == match detected {
            Some(shown) => shown,
            None => input,
        },
{
    match detected {
        Some(shown) => shown,
        None => input,
    }
}

/// The pipeline for a pair of formats. Of E57 to E57, the grid is kept exactly where
/// there is one and thinning goes by it.
pub open spec fn pipeline_for(
    input: PointCloudFormat,
    output: PointCloudFormat,
    is_structured: bool,
    method: ThinningMethod,
) -> Pipeline {
    match (input, output) {
        (PointCloudFormat::Las, PointCloudFormat::Las) => Pipeline::LasToLas,
        (PointCloudFormat::Las, PointCloudFormat::E57) => Pipeline::LasToE57,
        (PointCloudFormat::E57, PointCloudFormat::Las) => Pipeline::E57ToLas,
        (PointCloudFormat::E57, PointCloudFormat::E57) => if is_structured && method
            == ThinningMethod::GridStride {
            Pipeline::StructuredE57
        } else {
            Pipeline::UnstructuredE57
        },
    }
}

/// Picks the pipeline. `is_structured` matters for E57 to E57 alone.
pub fn choose_pipeline(
    input: PointCloudFormat,
    output: PointCloudFormat,
    is_structured: bool,
    method: ThinningMethod,
) -> (pipeline: Pipeline)
    ensures
        pipeline == pipeline_for(input, output, is_structured, method),
{
    match (input, output) {
        (PointCloudFormat::Las, PointCloudFormat::Las) => Pipeline::LasToLas,
        (PointCloudFormat::Las, PointCloudFormat::E57) => Pipeline::LasToE57,
        (PointCloudFormat::E57, PointCloudFormat::Las) => Pipeline::E57ToLas,
        (PointCloudFormat::E57, PointCloudFormat::E57) => {
            if is_structured && method == ThinningMethod::GridStride {
                Pipeline::StructuredE57
            } else {
                Pipeline::UnstructuredE57
            }
        },
    }
}

/// The grid is decimated only for a structured E57 file that stays an E57 file, and
/// only where the grid method was asked for.
pub proof fn law_grid_needs_structure(
    input: PointCloudFormat,
    output: PointCloudFormat,
    is_structured: bool,
    method: ThinningMethod,
)
    ensures
        pipeline_for(input, output, is_structured, method) == Pipeline::StructuredE57 <==> (input
            == PointCloudFormat::E57 && output == PointCloudFormat::E57 && is_structured && method
            == ThinningMethod::GridStride),
{
}

/// The pipeline reads the input's format and writes the output's.
pub proof fn law_pipeline_keeps_formats(
    input: PointCloudFormat,
    output: PointCloudFormat,
    is_structured: bool,
    method: ThinningMethod,
)
    ensures
        pipeline_for(input, output, is_structured, method).reads() == input,
        pipeline_for(input, output, is_structured, method).writes() == output,
{
}

impl Pipeline {
    /// The format that the pipeline reads.
    pub open spec fn reads(self) -> PointCloudFormat {
        match self {
            Pipeline::LasToLas => PointCloudFormat::Las,
            Pipeline::LasToE57 => PointCloudFormat::Las,
            _ => PointCloudFormat::E57,
        }
    }

    /// The format that the pipeline writes.
    pub open spec fn writes(self) -> PointCloudFormat {
        match self {
            Pipeline::LasToLas => PointCloudFormat::Las,
            Pipeline::E57ToLas => PointCloudFormat::Las,
            _ => PointCloudFormat::E57,
        }
    }

    /// The percentage at which the pipeline's points are all read.
    pub open spec fn span(self) -> u32 {
        match self {
            Pipeline::StructuredE57 => 85,
            Pipeline::UnstructuredE57 => 90,
            _ => 100,
        }
    }

    /// The least number of points between two progress reports.
    pub open spec fn report_gap(self) -> usize {
        match self {
            Pipeline::StructuredE57 => 20_000,
            _ => 10_000,
        }
    }

    /// The percentage at which the pipeline's points are all read.
    pub fn progress_span(self) -> (percent: u32)
        ensures
            percent == self.span(),
    {
        match self {
            Pipeline::StructuredE57 => 85,
            Pipeline::UnstructuredE57 => 90,
            _ => 100,
        }
    }

    /// The least number of points between two progress reports.
    pub fn progress_gap(self) -> (points: usize)
        ensures
            points == self.report_gap(),
    {
        match self {
            Pipeline::StructuredE57 => 20_000,
            _ => 10_000,
        }
    }
}

/// Each pipeline reads and writes the formats that its name says.
pub proof fn law_pipelines_read_and_write(pipeline: Pipeline)
    ensures
        pipeline.reads() == PointCloudFormat::Las <==> pipeline == Pipeline::LasToLas || pipeline
            == Pipeline::LasToE57,
        pipeline.writes() == PointCloudFormat::Las <==> pipeline == Pipeline::LasToLas || pipeline
            == Pipeline::E57ToLas,
{
}

/// The format that a name shows is taken, whatever else is known. Of a name that shows
/// none, an input is E57 exactly if it opens as such, and an output is what the input is.
pub proof fn law_shown_formats_win(
    shown: PointCloudFormat,
    opens_as_e57: bool,
    input: PointCloudFormat,
)
    ensures
        read_format(Some(shown), opens_as_e57) == shown,
        read_format(None, opens_as_e57) == PointCloudFormat::E57 <==> opens_as_e57,
        written_format(Some(shown), input) == shown,
        written_format(None, input) == input,
{
}

} // verus!
