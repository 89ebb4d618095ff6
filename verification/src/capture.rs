//! Screenshot and screen-recording decisions: output file names, and which
//! capture tool to try next. Screenshots try ImageMagick `import`, then one
//! `ffmpeg` x11grab frame, then `xwd` converted with `convert`; running the
//! tools is the application's job.
use vstd::prelude::*;

use crate::text::{chars_to_string, dec, push_decimal, push_str_chars, str_chars};

verus! {

#[verifier::external_type_specification]
#[verifier::external_body]
pub struct ExIoError(std::io::Error);

/// Why a capture failed.
#[derive(Debug)]
pub enum CaptureError {
    ToolNotFound,
    CommandFailed(String),
    AlreadyRecording,
    NotRecording,
    Io(std::io::Error),
}

/// Default screenshot file name for a timestamp.
pub fn screenshot_filename(timestamp_secs: u64) -> (r: String)
    ensures
        r@ == "SLOPOS-I-Screenshot-"@ + dec(timestamp_secs as nat) + ".png"@,
{
    let mut v = str_chars("SLOPOS-I-Screenshot-");
    push_decimal(&mut v, timestamp_secs);
    push_str_chars(&mut v, ".png");
    chars_to_string(&v)
}

/// Default recording file name for a timestamp.
pub fn recording_filename(timestamp_secs: u64) -> (r: String)
    ensures
        r@ == "SLOPOS-I-Recording-"@ + dec(timestamp_secs as nat) + ".mp4"@,
{
    let mut v = str_chars("SLOPOS-I-Recording-");
    push_decimal(&mut v, timestamp_secs);
    push_str_chars(&mut v, ".mp4");
    chars_to_string(&v)
}

/// A screenshot attempt with one tool.
#[derive(Debug, Clone, Copy, PartialEq, Eq, Structural)]
pub enum ScreenshotStep {
    /// ImageMagick `import -window root`.
    Import,
    /// One `ffmpeg` x11grab frame.
    Ffmpeg,
    /// `xwd -root` into a temporary file.
    Xwd,
    /// `convert` of that file into the PNG.
    Convert,
}

/// What happened to an attempt: the tool is absent, it produced the file,
/// or it failed (with its trimmed standard error).
#[derive(Debug)]
pub enum StepOutcome {
    Missing,
    Succeeded,
    Failed(String),
}

/// What to do next: run another step, or finish.
#[derive(Debug)]
pub enum ScreenshotNext {
    Run(ScreenshotStep),
    Finish(Result<(), CaptureError>),
}

/// The first step of a screenshot.
pub fn first_screenshot_step() -> (r: ScreenshotStep)
    ensures
        r == ScreenshotStep::Import,
{
    ScreenshotStep::Import
}

/// How a screenshot ends: done, no usable tool, or a tool's failure text.
pub ghost enum ScreenshotEnd {
    Done,
    NoTool,
    Failed(Seq<char>),
    Other,
}

pub open spec fn end_of_result(r: Result<(), CaptureError>) -> ScreenshotEnd {
    match r {
        Ok(_) => ScreenshotEnd::Done,
        Err(CaptureError::ToolNotFound) => ScreenshotEnd::NoTool,
        Err(CaptureError::CommandFailed(m)) => ScreenshotEnd::Failed(m@),
        Err(_) => ScreenshotEnd::Other,
    }
}

/// The step after an outcome, or `None` when the screenshot ends: `import`
/// falls through to `ffmpeg` unless it succeeded; a missing `ffmpeg` falls
/// through to `xwd`; a successful `xwd` goes on to `convert`.
pub open spec fn next_step_of(step: ScreenshotStep, outcome: StepOutcome) -> Option<ScreenshotStep> {
    match step {
        ScreenshotStep::Import => match outcome {
            StepOutcome::Succeeded => None,
            _ => Some(ScreenshotStep::Ffmpeg),
        },
        ScreenshotStep::Ffmpeg => match outcome {
            StepOutcome::Missing => Some(ScreenshotStep::Xwd),
            _ => None,
        },
        ScreenshotStep::Xwd => match outcome {
            StepOutcome::Succeeded => Some(ScreenshotStep::Convert),
            _ => None,
        },
        ScreenshotStep::Convert => None,
    }
}

/// How the screenshot ends after an outcome that ends it: success of the
/// step that produced the file; an `ffmpeg` or `xwd` failure with its text;
/// otherwise no usable tool.
pub open spec fn end_of(step: ScreenshotStep, outcome: StepOutcome) -> ScreenshotEnd {
    match outcome {
        StepOutcome::Succeeded => ScreenshotEnd::Done,
        StepOutcome::Failed(m) => if step == ScreenshotStep::Ffmpeg || step == ScreenshotStep::Xwd {
            ScreenshotEnd::Failed(m@)
        } else {
            ScreenshotEnd::NoTool
        },
        StepOutcome::Missing => ScreenshotEnd::NoTool,
    }
}

/// Next action after a step.
pub fn screenshot_next(step: ScreenshotStep, outcome: StepOutcome) -> (r: ScreenshotNext)
    ensures
        match next_step_of(step, outcome) {
            Some(n) => r == ScreenshotNext::Run(n),
            None => r matches ScreenshotNext::Finish(res) && end_of_result(res) == end_of(
                step,
                outcome,
            ),
        },
{
    match step {
        ScreenshotStep::Import => match outcome {
            StepOutcome::Succeeded => ScreenshotNext::Finish(Ok(())),
            _ => ScreenshotNext::Run(ScreenshotStep::Ffmpeg),
        },
        ScreenshotStep::Ffmpeg => match outcome {
            StepOutcome::Missing => ScreenshotNext::Run(ScreenshotStep::Xwd),
            StepOutcome::Succeeded => ScreenshotNext::Finish(Ok(())),
            StepOutcome::Failed(m) => ScreenshotNext::Finish(Err(CaptureError::CommandFailed(m))),
        },
        ScreenshotStep::Xwd => match outcome {
            StepOutcome::Missing => ScreenshotNext::Finish(Err(CaptureError::ToolNotFound)),
            StepOutcome::Succeeded => ScreenshotNext::Run(ScreenshotStep::Convert),
            StepOutcome::Failed(m) => ScreenshotNext::Finish(Err(CaptureError::CommandFailed(m))),
        },
        ScreenshotStep::Convert => match outcome {
            StepOutcome::Succeeded => ScreenshotNext::Finish(Ok(())),
            _ => ScreenshotNext::Finish(Err(CaptureError::ToolNotFound)),
        },
    }
}

/// Whether a recording may start: none running and `ffmpeg` present.
pub fn recording_start_check(recording: bool, ffmpeg_present: bool) -> (r: Result<
    (),
    CaptureError,
>)
    ensures
        recording ==> r matches Err(CaptureError::AlreadyRecording),
        !recording && !ffmpeg_present ==> r matches Err(CaptureError::ToolNotFound),
        !recording && ffmpeg_present ==> r is Ok,
{
    if recording {
        return Err(CaptureError::AlreadyRecording);
    }
    if !ffmpeg_present {
        return Err(CaptureError::ToolNotFound);
    }
    Ok(())
}

/// Steps left before the last one.
pub open spec fn step_rank(s: ScreenshotStep) -> nat {
    match s {
        ScreenshotStep::Import => 3,
        ScreenshotStep::Ffmpeg => 2,
        ScreenshotStep::Xwd => 1,
        ScreenshotStep::Convert => 0,
    }
}

/// A screenshot ends within four steps whatever the tools do: every step
/// that follows another is a later one.
pub proof fn law_screenshot_steps_advance(step: ScreenshotStep, outcome: StepOutcome)
    ensures
        next_step_of(step, outcome) matches Some(n) ==> step_rank(n) < step_rank(step),
{
}

} // verus!
