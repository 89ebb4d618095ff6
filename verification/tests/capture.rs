use slopos_shell::capture::{
    first_screenshot_step, recording_filename, recording_start_check, screenshot_filename,
    screenshot_next, CaptureError, ScreenshotNext, ScreenshotStep, StepOutcome,
};

#[test]
fn filenames() {
    assert_eq!(screenshot_filename(123), "SLOPOS-I-Screenshot-123.png");
    assert_eq!(recording_filename(456), "SLOPOS-I-Recording-456.mp4");
}

#[test]
fn screenshot_falls_back_from_import_to_ffmpeg_to_xwd() {
    assert_eq!(first_screenshot_step(), ScreenshotStep::Import);
    assert!(matches!(
        screenshot_next(ScreenshotStep::Import, StepOutcome::Missing),
        ScreenshotNext::Run(ScreenshotStep::Ffmpeg)
    ));
    assert!(matches!(
        screenshot_next(ScreenshotStep::Import, StepOutcome::Failed("x".into())),
        ScreenshotNext::Run(ScreenshotStep::Ffmpeg)
    ));
    assert!(matches!(
        screenshot_next(ScreenshotStep::Ffmpeg, StepOutcome::Missing),
        ScreenshotNext::Run(ScreenshotStep::Xwd)
    ));
    assert!(matches!(
        screenshot_next(ScreenshotStep::Ffmpeg, StepOutcome::Failed("bad display".into())),
        ScreenshotNext::Finish(Err(CaptureError::CommandFailed(m))) if m == "bad display"
    ));
    assert!(matches!(
        screenshot_next(ScreenshotStep::Xwd, StepOutcome::Succeeded),
        ScreenshotNext::Run(ScreenshotStep::Convert)
    ));
    assert!(matches!(
        screenshot_next(ScreenshotStep::Xwd, StepOutcome::Missing),
        ScreenshotNext::Finish(Err(CaptureError::ToolNotFound))
    ));
    assert!(matches!(
        screenshot_next(ScreenshotStep::Convert, StepOutcome::Missing),
        ScreenshotNext::Finish(Err(CaptureError::ToolNotFound))
    ));
    assert!(matches!(
        screenshot_next(ScreenshotStep::Convert, StepOutcome::Succeeded),
        ScreenshotNext::Finish(Ok(()))
    ));
}

#[test]
fn recording_start_rules() {
    assert!(matches!(recording_start_check(true, true), Err(CaptureError::AlreadyRecording)));
    assert!(matches!(recording_start_check(false, false), Err(CaptureError::ToolNotFound)));
    assert!(recording_start_check(false, true).is_ok());
}
