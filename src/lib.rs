//! Flattening of CycloneDX and SPDX software bills of materials into
//! fixed-width license records.
pub mod cdx_license;
pub mod expression;
pub mod record;
pub mod spdx_license;
