//! Response handling for a blocking HTTP/1.x client.
//!
//! The crate turns the bytes received on a connection into a [`Response`]
//! (status line, headers, redirect history) and turns that response into a
//! correctly delimited body: chunked, limited by `Content-Length`, or read
//! until the connection closes.

pub mod body;
pub mod charset;
pub mod chunked;
pub mod error;
pub mod head;
pub mod header;
pub mod json;
pub mod limited;
pub mod pool;
pub mod read;
pub mod response;
pub mod status_line;
pub mod stream;
pub mod text;
pub mod unit;
pub mod wire;

pub use body::{select_body_plan, BodyPlan, BodyReader, Framing};
pub use charset::{
    charset_from_content_type, decode_body, DEFAULT_CHARACTER_SET, DEFAULT_CONTENT_TYPE,
};
pub use chunked::ChunkedRead;
pub use error::{Error, ErrorKind, ErrorView, Fault, IoError, IoErrorKind};
pub use head::{read_header_block, read_header_block_at, read_next_line, read_next_line_at};
pub use header::{Header, HeaderView};
pub use json::{json_outcome, json_parse_failure, json_read_failure, parse_json};
pub use limited::LimitedRead;
pub use pool::{ErrorReader, PoolReturnRead};
pub use read::{read_to_end, read_to_end_at, Framed, Read, Supply};
pub use response::{Hist, Response};
pub use status_line::{parse_status_line, ResponseStatusIndex};
pub use unit::Unit;
pub use stream::{clock_reading, time_until_deadline, DeadlineStream, Stream};
