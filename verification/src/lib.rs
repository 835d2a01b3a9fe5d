//! Building blocks for showing asynchronously produced content from a
//! synchronous render loop: the rendering arithmetic of the loading bar and
//! the spinner, the placeholder-to-content state of an asynchronous view, and
//! the cycle of a periodic animator.

pub mod infinite;
pub mod loading;
pub mod spinner;
pub mod styled;
pub mod view;

pub use infinite::{Action, AnimatorCycle, Stage};
pub use loading::{LoadingCharStyle, LoadingStateView, LOADING_INTERVAL};
pub use spinner::{find_spinner, transform_spinners, SpinnerData, SpinnerStateView};
pub use view::{failure_size, AsyncResult, AsyncView, Showing, Shown};
