//! Conway's Game of Life on a bounded rectangular grid, as a simulation
//! engine a host program drives frame by frame.
//!
//! * [`grid`]: dimensions, the mapping between positions and storage slots,
//!   and the screen-space centre of every cell.
//! * [`store`]: the cell store, the one owner of every cell's state.
//! * [`rules`]: the neighbour rule and the generation step.
//! * [`interaction`]: which cell lies under the pointer, and what a click
//!   does to it.
//! * [`visual`]: what to draw for each cell.
//! * [`timer`]: the repeating tick timer.
//! * [`control`]: the start/reset button.
//! * [`sim`]: the two-state machine that ties them together.
//!
//! Every type comes with a mathematical view, and every function says in
//! its contract what it does to that view. All lengths and coordinates are
//! integers in one device unit chosen by the host: halves and quarters
//! round towards zero. All durations are whole nanoseconds. The grid has
//! open edges: nothing wraps around.

pub mod control;
pub mod grid;
pub mod interaction;
pub mod rules;
pub mod sim;
pub mod store;
pub mod timer;
pub mod visual;
