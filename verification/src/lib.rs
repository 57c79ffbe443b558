//! Client-side logic for a paginated, token-authenticated market-data API.
//!
//! The crate holds the decisions of such a client as verified state machines:
//! building and checking the credentials exchange, caching the authenticated
//! client until its token expires, composing the query body, and walking the
//! pages of a result set until the server-reported total is reached.  Network
//! transfers are left to the caller, which feeds their outcomes back in.

pub mod client;
pub mod date;
pub mod decimal;
pub mod error;
pub mod field;
pub mod login;
pub mod outside;
pub mod pager;
pub mod query;
pub mod status;
pub mod stream;

pub use client::{ClientGetter, Finra};
pub use date::{Date, DateView};
pub use error::{Error, ErrorView};
pub use field::ConsolidatedShortInterestField;
pub use login::{LoginData, LoginRequest, TokenGrant};
pub use outside::{JsonMember, Timestamp};
pub use pager::{all_results, start_walk, PageRequest, PagerState};
pub use query::{ConsolidatedShortInterestQuery, Query, QueryView};
pub use stream::{RecordStream, Step};
