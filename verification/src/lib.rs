//! Codepoint-addressed strings for a byte-addressed runtime.
//!
//! Every operation in this crate indexes, measures, and slices strings by
//! Unicode scalar value (codepoint), never by byte offset, so that callers
//! written against a codepoint-indexed string model behave identically on
//! non-ASCII input.  A string value is immutable: reading operations borrow
//! it, and each transformation allocates and returns a new value.
#![allow(non_snake_case)]

pub mod model;
pub mod handle;
pub mod trimming;
pub mod search;
pub mod edit;
pub mod casing;
pub mod combinators;
pub mod laws;

pub use handle::Str;
pub use handle::string;
pub use handle::fromCharCode;
pub use handle::ofChar;
pub use handle::length;
pub use handle::getCharAt;
pub use handle::isEmpty;
pub use handle::fromChar;
pub use handle::fromChars;
pub use handle::fromCharsAt;
pub use handle::toCharArray;
pub use handle::toCharArrayAt;
pub use search::containsChar;
pub use search::contains;
pub use search::startsWithChar;
pub use search::startsWith;
pub use search::endsWithChar;
pub use search::endsWith;
pub use trimming::isWhitespace;
pub use trimming::trim;
pub use trimming::trimChar;
pub use trimming::trimChars;
pub use trimming::trimStart;
pub use trimming::trimStartChar;
pub use trimming::trimStartChars;
pub use trimming::trimEnd;
pub use trimming::trimEndChar;
pub use trimming::trimEndChars;
pub use edit::insert;
pub use edit::remove;
pub use edit::removeAt;
pub use edit::substring;
pub use edit::substringAt;
pub use edit::padLeft;
pub use edit::padRight;
pub use edit::replicate;
pub use edit::join;
pub use edit::replace;
pub use casing::toLower;
pub use casing::toUpper;
pub use casing::toLowerChar;
pub use casing::toUpperChar;
pub use combinators::mapi;
pub use combinators::filter;
pub use combinators::existsAny;
pub use combinators::forAll;
pub use combinators::iter;
pub use combinators::iteri;
pub use combinators::collect;
pub use combinators::init;
