//! Paginated fetch planning and outcome mapping for a composite-index
//! price feed.
//!
//! The library covers the computational core of a small publisher: it
//! partitions a requested result count into API-sized pages, parses an
//! index selector, renders canonical timestamps, and maps raw quotes to
//! stable outcome records. All I/O lives outside the library.

pub mod digits;
pub mod index;
pub mod outcome;
pub mod pages;
pub mod timestamp;

pub use index::Index;
pub use outcome::BitmexOutcome;
pub use outcome::Quote;
pub use pages::ResultsPage;
pub use pages::ResultsPages;
pub use timestamp::Timestamp;
