pub mod agent_events;
pub mod app_layout;
pub mod app_state;
pub mod clock;
pub mod completion;
pub mod components;
pub mod event_loop;
pub mod events;
pub mod input;
