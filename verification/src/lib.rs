use vstd::prelude::*;

pub mod camera;
pub mod compute;
pub mod ecs;
pub mod engine_management;
pub mod materials;
pub mod pipeline;
pub mod pipeline_manager;
pub mod renderer;
pub mod ui_manager;

verus! {

/// What the window system reports to the engine's main loop.
#[derive(Debug, PartialEq, Eq, Structural, Clone, Copy)]
pub enum EngineEvent {
    Resized { width: u32, height: u32 },
    CloseRequested,
    AboutToWait,
    Other,
}

/// What the main loop does in answer.
#[derive(Debug, PartialEq, Eq, Structural, Clone, Copy)]
pub enum EngineAction {
    Resize { width: u32, height: u32 },
    Exit,
    Render,
    Nothing,
}

/// The main loop's answer to an event: a resize resizes the renderer, a
/// close request ends the loop, and when the event queue is drained a
/// frame is rendered.
pub fn engine_action(event: EngineEvent) -> (r: EngineAction)
    ensures
        r == match event {
            EngineEvent::Resized { width, height } => EngineAction::Resize { width, height },
            EngineEvent::CloseRequested => EngineAction::Exit,
            EngineEvent::AboutToWait => EngineAction::Render,
            EngineEvent::Other => EngineAction::Nothing,
        },
{
    match event {
        EngineEvent::Resized { width, height } => EngineAction::Resize { width, height },
        EngineEvent::CloseRequested => EngineAction::Exit,
        EngineEvent::AboutToWait => EngineAction::Render,
        EngineEvent::Other => EngineAction::Nothing,
    }
}

} // verus!
