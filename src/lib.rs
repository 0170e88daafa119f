//! A custom-framed data-entry window, reduced to the logic it is made of:
//! the mailbox that carries results from background submissions to the frame
//! loop, the submission task's decisions, the window chrome's per-frame state,
//! the lazily loaded image, and the form's own state.
pub mod mailbox;
pub mod submission;
pub mod form;
pub mod chrome;
pub mod image_cache;

pub use mailbox::Mailbox;
pub use submission::{Action, Event, Stage, Submission, decimal_string};
pub use form::{FormState, FormWindow, SubmissionRecord, masked_suffix, sending_notice};
pub use chrome::{
    ChromeFrame, ChromeInput, GRADIENT_BANDS, HostCommand, IconDraw, Rgba, chrome_frame,
    gradient_band, rgb,
};
pub use image_cache::{DEFAULT_HEIGHT, DEFAULT_WIDTH, DecodedImage, ImageCache, TEXTURE_NAME};
