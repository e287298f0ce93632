//! The desktop shell: windows, their stacking order, and the decisions taken
//! on mouse, keyboard and serial input and on each animation tick.
pub mod window;
pub mod stack;
pub mod events;
pub mod frame;
