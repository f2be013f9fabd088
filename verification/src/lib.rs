//! The request resolution and delivery pipeline of a content server that
//! serves one document tree over two protocols, Gemini and HTTPS.
//!
//! - `protocol` decodes a request buffer to a URL and encodes a response for
//!   the wire; `response` holds statuses and responses.
//! - `router` resolves a request step by step: it names what is to be probed,
//!   read or rendered, and takes the answers. `files` decides what may be read
//!   and what a loaded file contributes.
//! - `templates` holds the markup modes, the template context and the control
//!   block by which rendered output sets status, media type or redirect;
//!   `md2gemtext` converts Markdown to Gemtext; `json` holds documents and
//!   their deep merge.
//! - `context` holds the two caches and the listing of pages; `config`,
//!   `request` and `tls` hold the configuration, the request and the identity
//!   of a client.
//! - `text` holds the helpers over texts that the others share.

pub mod config;
pub mod context;
pub mod files;
pub mod json;
pub mod md2gemtext;
pub mod protocol;
pub mod request;
pub mod response;
pub mod router;
pub mod templates;
pub mod text;
pub mod tls;
