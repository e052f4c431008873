//! Character-classification and string-normalization primitives from the
//! WHATWG Infra Standard.
//!
//! The library offers pure predicates over single Unicode scalar values
//! (noncharacter, C0 control, C0 control or space, ASCII tab or newline),
//! whole-string transforms (newline normalization, newline stripping,
//! ASCII-whitespace trimming), and a cursor-based codepoint collector that
//! implements the standard's "collect a sequence of code points" algorithm.
//!
//! Every operation is total: no input makes one panic or return an error.
//! Positions and lengths are counted in Unicode scalar values throughout,
//! never in encoded bytes, so a cursor can never land inside the encoding
//! of a multi-byte character.

mod classify;
mod collect;
mod transform;

pub use classify::is_ascii_tab_newline;
pub use classify::is_c0_control;
pub use classify::is_c0_control_space;
pub use classify::is_noncharacter;
pub use classify::lemma_noncharacter_low_range;
pub use classify::lemma_noncharacter_plane_boundaries;
pub use classify::spec_is_ascii_tab_newline;
pub use classify::spec_is_c0_control;
pub use classify::spec_is_c0_control_space;
pub use classify::spec_is_noncharacter;
pub use collect::collect_codepoints;
pub use transform::lemma_normalize_newlines_len;
pub use transform::lemma_strip_newlines_idempotent;
pub use transform::lemma_strip_newlines_identity;
pub use transform::lemma_trim_all_whitespace_empty;
pub use transform::lemma_trim_ascii_whitespace_idempotent;
pub use transform::lemma_trim_end_is_prefix;
pub use transform::normalize_newlines;
pub use transform::spec_is_ascii_whitespace;
pub use transform::spec_is_newline;
pub use transform::spec_normalize_newlines;
pub use transform::spec_strip_newlines;
pub use transform::spec_trim_ascii_whitespace;
pub use transform::spec_trim_end;
pub use transform::spec_trim_start;
pub use transform::strip_newlines;
pub use transform::trim_ascii_whitespace;
