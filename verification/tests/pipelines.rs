use thin_las::pipeline::{
    choose_pipeline, input_format, output_format, Pipeline, PointCloudFormat, ThinningMethod,
};

const LAS: PointCloudFormat = PointCloudFormat::Las;
const E57: PointCloudFormat = PointCloudFormat::E57;

#[test]
fn formats_of_input_and_output() {
    assert_eq!(input_format(Some(LAS), true), LAS);
    assert_eq!(input_format(Some(E57), false), E57);
    assert_eq!(input_format(None, true), E57);
    assert_eq!(input_format(None, false), LAS);
    assert_eq!(output_format(Some(LAS), E57), LAS);
    assert_eq!(output_format(None, E57), E57);
    assert_eq!(output_format(None, LAS), LAS);
}

#[test]
fn pipelines_for_pairs_of_formats() {
    for structured in [false, true] {
        for method in [ThinningMethod::GridStride, ThinningMethod::VoxelGrid] {
            assert_eq!(choose_pipeline(LAS, LAS, structured, method), Pipeline::LasToLas);
            assert_eq!(choose_pipeline(LAS, E57, structured, method), Pipeline::LasToE57);
            assert_eq!(choose_pipeline(E57, LAS, structured, method), Pipeline::E57ToLas);
            let expected = if structured && method == ThinningMethod::GridStride {
                Pipeline::StructuredE57
            } else {
                Pipeline::UnstructuredE57
            };
            assert_eq!(choose_pipeline(E57, E57, structured, method), expected);
        }
    }
}

#[test]
fn spans_and_gaps_of_progress() {
    assert_eq!(Pipeline::StructuredE57.progress_span(), 85);
    assert_eq!(Pipeline::UnstructuredE57.progress_span(), 90);
    assert_eq!(Pipeline::E57ToLas.progress_span(), 100);
    assert_eq!(Pipeline::StructuredE57.progress_gap(), 20_000);
    assert_eq!(Pipeline::LasToE57.progress_gap(), 10_000);
}
