//! The states a [KSMFileBuilder](super::KSMFileBuilder) can be in.
use vstd::prelude::*;

verus! {

/// Nothing has been added yet.
#[non_exhaustive]
#[derive(Debug)]
pub struct Empty;

/// Only the argument section has been added.
#[non_exhaustive]
#[derive(Debug)]
pub struct WithArgSection;

/// Only code sections have been added.
#[non_exhaustive]
#[derive(Debug)]
pub struct WithCodeSections;

/// Only the debug section has been added.
#[non_exhaustive]
#[derive(Debug)]
pub struct WithDebugSection;

/// The argument section and code sections have been added.
#[non_exhaustive]
#[derive(Debug)]
pub struct WithArgAndCode;

/// The argument section and the debug section have been added.
#[non_exhaustive]
#[derive(Debug)]
pub struct WithArgAndDebug;

/// Code sections and the debug section have been added.
#[non_exhaustive]
#[derive(Debug)]
pub struct WithCodeAndDebug;

/// Everything that a KSM file needs has been added.
#[non_exhaustive]
#[derive(Debug)]
pub struct Complete;

} // verus!
