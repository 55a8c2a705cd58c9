//! The MusicBrainz identity feeder: album and artist cards for gateway search.
//!
//! This library holds what the feeder decides and computes; talking to the
//! network, to the gateway and to the local cache is the binary's.
//!
//! - [`card`], [`record`]: the card model and its projection to a wire record.
//! - [`client`], [`listenbrainz`]: what the upstreams are asked, and what is
//!   made of their answers.
//! - [`genres`], [`resolve`]: upstream answers to cards.
//! - [`discovery`], [`musicbrainz`]: what a query asks for, and how it and a
//!   record id are answered.
//! - [`distinct`], [`json`], [`number`], [`rank`], [`strmap`], [`text`]: what
//!   the rest is built on.
//! - [`card_laws`], [`client_laws`], [`listenbrainz_laws`], [`query_laws`],
//!   [`record_laws`], [`resolve_laws`], [`text_laws`]: what holds of all of them.
pub mod card;
pub mod card_laws;
pub mod client;
pub mod client_laws;
pub mod consts;
pub mod discovery;
pub mod distinct;
pub mod genres;
pub mod json;
pub mod listenbrainz;
pub mod listenbrainz_laws;
pub mod musicbrainz;
pub mod number;
pub mod query_laws;
pub mod rank;
pub mod record;
pub mod record_laws;
pub mod resolve;
pub mod resolve_laws;
pub mod strmap;
pub mod text;
pub mod text_laws;
