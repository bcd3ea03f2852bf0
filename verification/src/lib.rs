//! A retained-mode widget toolkit core: observable properties, multi-listener
//! events, a widget tree with hit testing and hover tracking, stock widgets,
//! tab-order focus traversal and draw batches.

pub mod batch;
pub mod boxed;
pub mod caribou;
pub mod dispatch;
pub mod event;
pub mod focus;
pub mod handle;
pub mod input;
pub mod laws;
pub mod math;
pub mod model;
pub mod paint;
pub mod property;
pub mod render;
pub mod routing;
pub mod widget;
pub mod widgets;
pub mod window;
