pub mod dispatch;
pub mod node_map;
pub mod presence;
pub mod text;
pub mod udev;
pub mod watch;
pub mod xinput;
