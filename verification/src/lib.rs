//! Verified core logic of a mail server: the SMTP delivery queue, delivery
//! status notifications, report aggregation, storage helpers and the spam
//! classifier's tokenizer.

pub mod external;
pub mod text;
pub mod queue;
pub mod dsn;
pub mod dsn_mime;
pub mod search;
pub mod storage;
pub mod registry;
pub mod session;
pub mod manager;
pub mod delivery;
pub mod outbound;
pub mod auth;
pub mod tls_report;
pub mod dmarc_report;
pub mod spam;
pub mod quota;
pub mod tokens;
pub mod text_tokens;
pub mod training;
pub mod read_version;
pub mod dane;
pub mod tls_policy;
pub mod client_error;
pub mod expression;
pub mod reputation;
pub mod throttle;
pub mod next_hop;
pub mod lookup;
