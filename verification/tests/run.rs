use simtop::build::BuildStage;
use simtop::error::{ErrorCode, SimtopError};
use simtop::run::{map_build_stage, stage_error, ProjectRunStage};


#[test]
fn maps_build_stages_without_leaking_build_types() {
    assert_eq!(
        map_build_stage(BuildStage::Building),
        ProjectRunStage::Building
    );
    assert_eq!(
        map_build_stage(BuildStage::ResolvingProduct),
        ProjectRunStage::ResolvingProduct
    );
}

#[test]
fn stage_context_preserves_error_code() {
    let error = stage_error(
        ProjectRunStage::Installing,
        SimtopError::new(ErrorCode::DeviceNotFound, "missing simulator"),
    );
    assert_eq!(error.code(), ErrorCode::DeviceNotFound);
    assert!(error.message().contains("Installing"));
    assert!(error.message().contains("missing simulator"));
}
