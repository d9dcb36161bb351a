//! Safe modelling of the header shared by all ACPI System Description
//! Tables: the 4-byte table signature, the common 36-byte header with its
//! checksum and signature validation, revision-gated optional fields, and
//! the two-phase peek that discovers a table's length before the full
//! table is mapped.

mod extended;
mod handler;
mod sdt;
mod signature;
mod text;

pub use extended::lemma_access_revision_gate;
pub use extended::ExtendedField;
pub use handler::peek_at_sdt_header;
pub use handler::AcpiHandler;
pub use handler::BufferAcpiHandler;
pub use sdt::byte_sum;
pub use sdt::checksum_ok;
pub use sdt::le_u32;
pub use sdt::lemma_byte_flip_fails_checksum;
pub use sdt::lemma_byte_sum_update;
pub use sdt::lemma_validate_accepts;
pub use sdt::lemma_validate_check_order;
pub use sdt::lemma_parses_to_deterministic;
pub use sdt::lemma_validate_signature_first;
pub use sdt::parses_to;
pub use sdt::spec_validate;
pub use sdt::AcpiError;
pub use sdt::SdtHeader;
pub use sdt::HEADER_LENGTH;
pub use signature::lemma_cmp_equal_and_antisymmetric;
pub use signature::lemma_cmp_transitive;
pub use signature::spec_cmp_bytes;
pub use signature::Signature;
pub use text::check_utf8;
