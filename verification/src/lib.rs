//! Verified logic of a small Wayland desktop toolkit: notification stacking,
//! system-monitor parsing, a wallpaper picker, a power menu, a greeter and a
//! calendar widget.

pub mod weather;
pub mod text;
pub mod colors;
pub mod notify;
pub mod stack;
pub mod picker;
pub mod power;
pub mod greeter;
pub mod wallpaper;
pub mod meminfo;
pub mod cpu;
pub mod disk;
pub mod sensors;
pub mod calendar;
pub mod clock;
