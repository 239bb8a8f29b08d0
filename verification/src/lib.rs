//! A linter for multi-package source trees: it inspects each package's
//! manifest, cross-checks dependency declarations across the whole workspace,
//! and reports or repairs inconsistencies.


pub mod args;
pub mod collect;
pub mod fix;
pub mod json;
pub mod packages;
pub mod plural;
pub mod resolve;
pub mod rules;
pub mod strutil;
pub mod version;
